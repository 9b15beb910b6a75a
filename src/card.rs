use crate::error::{message_text, ParseError};
use crate::text::{chars_of, lower_seq, to_upper, upper, upper_seq};
use vstd::prelude::*;

verus! {

/// One card of the 54-card deck, or `UNKNOWN`: a card that occupies a slot
/// but whose identity was not recorded.
#[derive(Debug, PartialEq, Eq, Clone, Copy, Hash, Structural)]
pub enum Card {
    UNKNOWN,
    HK,
    HD,
    HP,
    HB,
    H1,
    H2,
    H3,
    H4,
    PK,
    PD,
    PP,
    PB,
    P10,
    P9,
    P8,
    P7,
    KK,
    KD,
    KP,
    KB,
    K1,
    K2,
    K3,
    K4,
    XK,
    XD,
    XP,
    XB,
    X10,
    X9,
    X8,
    X7,
    T1,
    T2,
    T3,
    T4,
    T5,
    T6,
    T7,
    T8,
    T9,
    T10,
    T11,
    T12,
    T13,
    T14,
    T15,
    T16,
    T17,
    T18,
    T19,
    T20,
    T21,
    T22,
}

/// The card that a two-character upper-case code names.
pub open spec fn card_of_pair(a: char, b: char) -> Option<Card> {
    if a == 'H' && b == 'K' {
        Some(Card::HK)
    }     else if a == 'H' && b == 'D' {
        Some(Card::HD)
    }     else if a == 'H' && b == 'P' {
        Some(Card::HP)
    }     else if a == 'H' && b == 'B' {
        Some(Card::HB)
    }     else if a == 'H' && b == '1' {
        Some(Card::H1)
    }     else if a == 'H' && b == '2' {
        Some(Card::H2)
    }     else if a == 'H' && b == '3' {
        Some(Card::H3)
    }     else if a == 'H' && b == '4' {
        Some(Card::H4)
    }     else if a == 'P' && b == 'K' {
        Some(Card::PK)
    }     else if a == 'P' && b == 'D' {
        Some(Card::PD)
    }     else if a == 'P' && b == 'P' {
        Some(Card::PP)
    }     else if a == 'P' && b == 'B' {
        Some(Card::PB)
    }     else if a == 'P' && b == '9' {
        Some(Card::P9)
    }     else if a == 'P' && b == '8' {
        Some(Card::P8)
    }     else if a == 'P' && b == '7' {
        Some(Card::P7)
    }     else if a == 'K' && b == 'K' {
        Some(Card::KK)
    }     else if a == 'K' && b == 'D' {
        Some(Card::KD)
    }     else if a == 'K' && b == 'P' {
        Some(Card::KP)
    }     else if a == 'K' && b == 'B' {
        Some(Card::KB)
    }     else if a == 'K' && b == '1' {
        Some(Card::K1)
    }     else if a == 'K' && b == '2' {
        Some(Card::K2)
    }     else if a == 'K' && b == '3' {
        Some(Card::K3)
    }     else if a == 'K' && b == '4' {
        Some(Card::K4)
    }     else if a == 'X' && b == 'K' {
        Some(Card::XK)
    }     else if a == 'X' && b == 'D' {
        Some(Card::XD)
    }     else if a == 'X' && b == 'P' {
        Some(Card::XP)
    }     else if a == 'X' && b == 'B' {
        Some(Card::XB)
    }     else if a == 'X' && b == '9' {
        Some(Card::X9)
    }     else if a == 'X' && b == '8' {
        Some(Card::X8)
    }     else if a == 'X' && b == '7' {
        Some(Card::X7)
    }     else if a == 'T' && b == '1' {
        Some(Card::T1)
    }     else if a == 'T' && b == '2' {
        Some(Card::T2)
    }     else if a == 'T' && b == '3' {
        Some(Card::T3)
    }     else if a == 'T' && b == '4' {
        Some(Card::T4)
    }     else if a == 'T' && b == '5' {
        Some(Card::T5)
    }     else if a == 'T' && b == '6' {
        Some(Card::T6)
    }     else if a == 'T' && b == '7' {
        Some(Card::T7)
    }     else if a == 'T' && b == '8' {
        Some(Card::T8)
    }     else if a == 'T' && b == '9' {
        Some(Card::T9)
    } else {
        None
    }
}

/// The card that a three-character upper-case code names.
pub open spec fn card_of_triple(a: char, b: char, c: char) -> Option<Card> {
    if a == 'P' && b == '1' && c == '0' {
        Some(Card::P10)
    }     else if a == 'X' && b == '1' && c == '0' {
        Some(Card::X10)
    }     else if a == 'T' && b == '1' && c == '0' {
        Some(Card::T10)
    }     else if a == 'T' && b == '1' && c == '1' {
        Some(Card::T11)
    }     else if a == 'T' && b == '1' && c == '2' {
        Some(Card::T12)
    }     else if a == 'T' && b == '1' && c == '3' {
        Some(Card::T13)
    }     else if a == 'T' && b == '1' && c == '4' {
        Some(Card::T14)
    }     else if a == 'T' && b == '1' && c == '5' {
        Some(Card::T15)
    }     else if a == 'T' && b == '1' && c == '6' {
        Some(Card::T16)
    }     else if a == 'T' && b == '1' && c == '7' {
        Some(Card::T17)
    }     else if a == 'T' && b == '1' && c == '8' {
        Some(Card::T18)
    }     else if a == 'T' && b == '1' && c == '9' {
        Some(Card::T19)
    }     else if a == 'T' && b == '2' && c == '0' {
        Some(Card::T20)
    }     else if a == 'T' && b == '2' && c == '1' {
        Some(Card::T21)
    }     else if a == 'T' && b == '2' && c == '2' {
        Some(Card::T22)
    } else {
        None
    }
}

/// The card that an upper-case code names.
pub open spec fn card_of_code(u: Seq<char>) -> Option<Card> {
    if u.len() == 1 {
        if u[0] == '.' {
            Some(Card::UNKNOWN)
        } else {
            None
        }
    } else if u.len() == 2 {
        card_of_pair(u[0], u[1])
    } else if u.len() == 3 {
        card_of_triple(u[0], u[1], u[2])
    } else {
        None
    }
}

/// The card that a code names, in upper or lower case.
pub open spec fn card_of_text(s: Seq<char>) -> Option<Card> {
    card_of_code(upper_seq(s))
}

/// The upper-case code of a card.
pub open spec fn code(c: Card) -> Seq<char> {
    match c {
        Card::UNKNOWN => seq!['.'],
        Card::HK => seq!['H', 'K'],
        Card::HD => seq!['H', 'D'],
        Card::HP => seq!['H', 'P'],
        Card::HB => seq!['H', 'B'],
        Card::H1 => seq!['H', '1'],
        Card::H2 => seq!['H', '2'],
        Card::H3 => seq!['H', '3'],
        Card::H4 => seq!['H', '4'],
        Card::PK => seq!['P', 'K'],
        Card::PD => seq!['P', 'D'],
        Card::PP => seq!['P', 'P'],
        Card::PB => seq!['P', 'B'],
        Card::P10 => seq!['P', '1', '0'],
        Card::P9 => seq!['P', '9'],
        Card::P8 => seq!['P', '8'],
        Card::P7 => seq!['P', '7'],
        Card::KK => seq!['K', 'K'],
        Card::KD => seq!['K', 'D'],
        Card::KP => seq!['K', 'P'],
        Card::KB => seq!['K', 'B'],
        Card::K1 => seq!['K', '1'],
        Card::K2 => seq!['K', '2'],
        Card::K3 => seq!['K', '3'],
        Card::K4 => seq!['K', '4'],
        Card::XK => seq!['X', 'K'],
        Card::XD => seq!['X', 'D'],
        Card::XP => seq!['X', 'P'],
        Card::XB => seq!['X', 'B'],
        Card::X10 => seq!['X', '1', '0'],
        Card::X9 => seq!['X', '9'],
        Card::X8 => seq!['X', '8'],
        Card::X7 => seq!['X', '7'],
        Card::T1 => seq!['T', '1'],
        Card::T2 => seq!['T', '2'],
        Card::T3 => seq!['T', '3'],
        Card::T4 => seq!['T', '4'],
        Card::T5 => seq!['T', '5'],
        Card::T6 => seq!['T', '6'],
        Card::T7 => seq!['T', '7'],
        Card::T8 => seq!['T', '8'],
        Card::T9 => seq!['T', '9'],
        Card::T10 => seq!['T', '1', '0'],
        Card::T11 => seq!['T', '1', '1'],
        Card::T12 => seq!['T', '1', '2'],
        Card::T13 => seq!['T', '1', '3'],
        Card::T14 => seq!['T', '1', '4'],
        Card::T15 => seq!['T', '1', '5'],
        Card::T16 => seq!['T', '1', '6'],
        Card::T17 => seq!['T', '1', '7'],
        Card::T18 => seq!['T', '1', '8'],
        Card::T19 => seq!['T', '1', '9'],
        Card::T20 => seq!['T', '2', '0'],
        Card::T21 => seq!['T', '2', '1'],
        Card::T22 => seq!['T', '2', '2'],
    }
}

fn pair_card(a: char, b: char) -> (r: Option<Card>)
    ensures
        r == card_of_pair(a, b),
{
    if a == 'H' && b == 'K' {
        Some(Card::HK)
    }     else if a == 'H' && b == 'D' {
        Some(Card::HD)
    }     else if a == 'H' && b == 'P' {
        Some(Card::HP)
    }     else if a == 'H' && b == 'B' {
        Some(Card::HB)
    }     else if a == 'H' && b == '1' {
        Some(Card::H1)
    }     else if a == 'H' && b == '2' {
        Some(Card::H2)
    }     else if a == 'H' && b == '3' {
        Some(Card::H3)
    }     else if a == 'H' && b == '4' {
        Some(Card::H4)
    }     else if a == 'P' && b == 'K' {
        Some(Card::PK)
    }     else if a == 'P' && b == 'D' {
        Some(Card::PD)
    }     else if a == 'P' && b == 'P' {
        Some(Card::PP)
    }     else if a == 'P' && b == 'B' {
        Some(Card::PB)
    }     else if a == 'P' && b == '9' {
        Some(Card::P9)
    }     else if a == 'P' && b == '8' {
        Some(Card::P8)
    }     else if a == 'P' && b == '7' {
        Some(Card::P7)
    }     else if a == 'K' && b == 'K' {
        Some(Card::KK)
    }     else if a == 'K' && b == 'D' {
        Some(Card::KD)
    }     else if a == 'K' && b == 'P' {
        Some(Card::KP)
    }     else if a == 'K' && b == 'B' {
        Some(Card::KB)
    }     else if a == 'K' && b == '1' {
        Some(Card::K1)
    }     else if a == 'K' && b == '2' {
        Some(Card::K2)
    }     else if a == 'K' && b == '3' {
        Some(Card::K3)
    }     else if a == 'K' && b == '4' {
        Some(Card::K4)
    }     else if a == 'X' && b == 'K' {
        Some(Card::XK)
    }     else if a == 'X' && b == 'D' {
        Some(Card::XD)
    }     else if a == 'X' && b == 'P' {
        Some(Card::XP)
    }     else if a == 'X' && b == 'B' {
        Some(Card::XB)
    }     else if a == 'X' && b == '9' {
        Some(Card::X9)
    }     else if a == 'X' && b == '8' {
        Some(Card::X8)
    }     else if a == 'X' && b == '7' {
        Some(Card::X7)
    }     else if a == 'T' && b == '1' {
        Some(Card::T1)
    }     else if a == 'T' && b == '2' {
        Some(Card::T2)
    }     else if a == 'T' && b == '3' {
        Some(Card::T3)
    }     else if a == 'T' && b == '4' {
        Some(Card::T4)
    }     else if a == 'T' && b == '5' {
        Some(Card::T5)
    }     else if a == 'T' && b == '6' {
        Some(Card::T6)
    }     else if a == 'T' && b == '7' {
        Some(Card::T7)
    }     else if a == 'T' && b == '8' {
        Some(Card::T8)
    }     else if a == 'T' && b == '9' {
        Some(Card::T9)
    } else {
        None
    }
}

fn triple_card(a: char, b: char, c: char) -> (r: Option<Card>)
    ensures
        r == card_of_triple(a, b, c),
{
    if a == 'P' && b == '1' && c == '0' {
        Some(Card::P10)
    }     else if a == 'X' && b == '1' && c == '0' {
        Some(Card::X10)
    }     else if a == 'T' && b == '1' && c == '0' {
        Some(Card::T10)
    }     else if a == 'T' && b == '1' && c == '1' {
        Some(Card::T11)
    }     else if a == 'T' && b == '1' && c == '2' {
        Some(Card::T12)
    }     else if a == 'T' && b == '1' && c == '3' {
        Some(Card::T13)
    }     else if a == 'T' && b == '1' && c == '4' {
        Some(Card::T14)
    }     else if a == 'T' && b == '1' && c == '5' {
        Some(Card::T15)
    }     else if a == 'T' && b == '1' && c == '6' {
        Some(Card::T16)
    }     else if a == 'T' && b == '1' && c == '7' {
        Some(Card::T17)
    }     else if a == 'T' && b == '1' && c == '8' {
        Some(Card::T18)
    }     else if a == 'T' && b == '1' && c == '9' {
        Some(Card::T19)
    }     else if a == 'T' && b == '2' && c == '0' {
        Some(Card::T20)
    }     else if a == 'T' && b == '2' && c == '1' {
        Some(Card::T21)
    }     else if a == 'T' && b == '2' && c == '2' {
        Some(Card::T22)
    } else {
        None
    }
}

/// The card that the characters `s[start..end]` name, in either case.
pub fn card_in(s: &Vec<char>, start: usize, end: usize) -> (r: Option<Card>)
    requires
        start <= end <= s@.len(),
    ensures
        r == card_of_text(s@.subrange(start as int, end as int)),
{
    let ghost t = s@.subrange(start as int, end as int);
    assert(upper_seq(t).len() == t.len());
    if end - start == 1 {
        if s[start] == '.' {
            Some(Card::UNKNOWN)
        } else {
            assert(upper_seq(t)[0] == upper(s@[start as int]));
            None
        }
    } else if end - start == 2 {
        assert(upper_seq(t)[0] == upper(s@[start as int]));
        assert(upper_seq(t)[1] == upper(s@[start + 1]));
        pair_card(to_upper(s[start]), to_upper(s[start + 1]))
    } else if end - start == 3 {
        assert(upper_seq(t)[0] == upper(s@[start as int]));
        assert(upper_seq(t)[1] == upper(s@[start + 1]));
        assert(upper_seq(t)[2] == upper(s@[start + 2]));
        triple_card(to_upper(s[start]), to_upper(s[start + 1]), to_upper(s[start + 2]))
    } else {
        None
    }
}

impl Card {
    /// The upper-case code of this card; `.` for `UNKNOWN`.
    pub fn to_code(&self) -> (r: &'static str)
        ensures
            r@ == code(*self),
    {
        match self {
            Card::UNKNOWN => {
                proof {
                    reveal_strlit(".");
                }
                "."
            },
            Card::HK => {
                proof {
                    reveal_strlit("HK");
                }
                "HK"
            },
            Card::HD => {
                proof {
                    reveal_strlit("HD");
                }
                "HD"
            },
            Card::HP => {
                proof {
                    reveal_strlit("HP");
                }
                "HP"
            },
            Card::HB => {
                proof {
                    reveal_strlit("HB");
                }
                "HB"
            },
            Card::H1 => {
                proof {
                    reveal_strlit("H1");
                }
                "H1"
            },
            Card::H2 => {
                proof {
                    reveal_strlit("H2");
                }
                "H2"
            },
            Card::H3 => {
                proof {
                    reveal_strlit("H3");
                }
                "H3"
            },
            Card::H4 => {
                proof {
                    reveal_strlit("H4");
                }
                "H4"
            },
            Card::PK => {
                proof {
                    reveal_strlit("PK");
                }
                "PK"
            },
            Card::PD => {
                proof {
                    reveal_strlit("PD");
                }
                "PD"
            },
            Card::PP => {
                proof {
                    reveal_strlit("PP");
                }
                "PP"
            },
            Card::PB => {
                proof {
                    reveal_strlit("PB");
                }
                "PB"
            },
            Card::P10 => {
                proof {
                    reveal_strlit("P10");
                }
                "P10"
            },
            Card::P9 => {
                proof {
                    reveal_strlit("P9");
                }
                "P9"
            },
            Card::P8 => {
                proof {
                    reveal_strlit("P8");
                }
                "P8"
            },
            Card::P7 => {
                proof {
                    reveal_strlit("P7");
                }
                "P7"
            },
            Card::KK => {
                proof {
                    reveal_strlit("KK");
                }
                "KK"
            },
            Card::KD => {
                proof {
                    reveal_strlit("KD");
                }
                "KD"
            },
            Card::KP => {
                proof {
                    reveal_strlit("KP");
                }
                "KP"
            },
            Card::KB => {
                proof {
                    reveal_strlit("KB");
                }
                "KB"
            },
            Card::K1 => {
                proof {
                    reveal_strlit("K1");
                }
                "K1"
            },
            Card::K2 => {
                proof {
                    reveal_strlit("K2");
                }
                "K2"
            },
            Card::K3 => {
                proof {
                    reveal_strlit("K3");
                }
                "K3"
            },
            Card::K4 => {
                proof {
                    reveal_strlit("K4");
                }
                "K4"
            },
            Card::XK => {
                proof {
                    reveal_strlit("XK");
                }
                "XK"
            },
            Card::XD => {
                proof {
                    reveal_strlit("XD");
                }
                "XD"
            },
            Card::XP => {
                proof {
                    reveal_strlit("XP");
                }
                "XP"
            },
            Card::XB => {
                proof {
                    reveal_strlit("XB");
                }
                "XB"
            },
            Card::X10 => {
                proof {
                    reveal_strlit("X10");
                }
                "X10"
            },
            Card::X9 => {
                proof {
                    reveal_strlit("X9");
                }
                "X9"
            },
            Card::X8 => {
                proof {
                    reveal_strlit("X8");
                }
                "X8"
            },
            Card::X7 => {
                proof {
                    reveal_strlit("X7");
                }
                "X7"
            },
            Card::T1 => {
                proof {
                    reveal_strlit("T1");
                }
                "T1"
            },
            Card::T2 => {
                proof {
                    reveal_strlit("T2");
                }
                "T2"
            },
            Card::T3 => {
                proof {
                    reveal_strlit("T3");
                }
                "T3"
            },
            Card::T4 => {
                proof {
                    reveal_strlit("T4");
                }
                "T4"
            },
            Card::T5 => {
                proof {
                    reveal_strlit("T5");
                }
                "T5"
            },
            Card::T6 => {
                proof {
                    reveal_strlit("T6");
                }
                "T6"
            },
            Card::T7 => {
                proof {
                    reveal_strlit("T7");
                }
                "T7"
            },
            Card::T8 => {
                proof {
                    reveal_strlit("T8");
                }
                "T8"
            },
            Card::T9 => {
                proof {
                    reveal_strlit("T9");
                }
                "T9"
            },
            Card::T10 => {
                proof {
                    reveal_strlit("T10");
                }
                "T10"
            },
            Card::T11 => {
                proof {
                    reveal_strlit("T11");
                }
                "T11"
            },
            Card::T12 => {
                proof {
                    reveal_strlit("T12");
                }
                "T12"
            },
            Card::T13 => {
                proof {
                    reveal_strlit("T13");
                }
                "T13"
            },
            Card::T14 => {
                proof {
                    reveal_strlit("T14");
                }
                "T14"
            },
            Card::T15 => {
                proof {
                    reveal_strlit("T15");
                }
                "T15"
            },
            Card::T16 => {
                proof {
                    reveal_strlit("T16");
                }
                "T16"
            },
            Card::T17 => {
                proof {
                    reveal_strlit("T17");
                }
                "T17"
            },
            Card::T18 => {
                proof {
                    reveal_strlit("T18");
                }
                "T18"
            },
            Card::T19 => {
                proof {
                    reveal_strlit("T19");
                }
                "T19"
            },
            Card::T20 => {
                proof {
                    reveal_strlit("T20");
                }
                "T20"
            },
            Card::T21 => {
                proof {
                    reveal_strlit("T21");
                }
                "T21"
            },
            Card::T22 => {
                proof {
                    reveal_strlit("T22");
                }
                "T22"
            },
        }
    }

    /// Decodes one card code, in upper or lower case; `.` is `UNKNOWN`.
    pub fn decode(s: &str) -> (r: Result<Card, ParseError>)
        ensures
            r matches Ok(c) ==> card_of_text(s@) == Some(c),
            r is Err <==> card_of_text(s@) is None,
            r matches Err(e) ==> e == ParseError::UnknownCard,
            forall|c: Card| r == Ok::<Card, ParseError>(c) <==> upper_seq(s@) == #[trigger] code(c),
    {
        proof {
            assert forall|c: Card| card_of_text(s@) == Some(c) <==> upper_seq(s@) == #[trigger] code(
                c,
            ) by {
                lemma_card_decodes_iff_code(s@, c);
            }
        }
        let v = chars_of(s);
        assert(v@.subrange(0, v@.len() as int) =~= s@);
        match card_in(&v, 0, v.len()) {
            Some(c) => Ok(c),
            None => Err(ParseError::UnknownCard),
        }
    }
}

impl std::str::FromStr for Card {
    type Err = &'static str;

    fn from_str(s: &str) -> (r: Result<Card, &'static str>)
        ensures
            r matches Ok(c) ==> card_of_text(s@) == Some(c),
            r is Err <==> card_of_text(s@) is None,
            r matches Err(m) ==> m@ == message_text(ParseError::UnknownCard),
            forall|c: Card| r == Ok::<Card, &'static str>(c) <==> upper_seq(s@) == #[trigger] code(c),
    {
        match Card::decode(s) {
            Ok(c) => Ok(c),
            Err(e) => Err(e.message()),
        }
    }
}

} // verus!

verus! {

/// Every card code decodes to its card, in upper case and in lower case
/// alike.
pub proof fn lemma_card_code_decodes(c: Card)
    ensures
        card_of_text(code(c)) == Some(c),
        card_of_text(lower_seq(code(c))) == Some(c),
{
    let u = code(c);
    let l = lower_seq(u);
    assert(upper_seq(u) =~= u);
    assert(upper_seq(l) =~= u);
}

/// Decoding depends on the letters alone, not on their case: two texts
/// that agree up to case decode to the same card, or both fail.
pub proof fn lemma_card_decode_ignores_case(s: Seq<char>, t: Seq<char>)
    requires
        upper_seq(s) == upper_seq(t),
    ensures
        card_of_text(s) == card_of_text(t),
{
}

} // verus!

verus! {

/// A text decodes to `c` exactly when its upper case is `c`'s code: each
/// card has one code, and no two cards share one.
pub proof fn lemma_card_decodes_iff_code(s: Seq<char>, c: Card)
    ensures
        card_of_text(s) == Some(c) <==> upper_seq(s) == code(c),
{
    let u = upper_seq(s);
    if card_of_code(u) == Some(c) {
        assert(u =~= code(c));
    }
    if u == code(c) {
        lemma_card_code_decodes(c);
    }
}

} // verus!
