use crate::error::{message_text, ParseError};
use crate::text::{chars_of, to_upper, upper, upper_seq};
use vstd::prelude::*;

verus! {

/// A game contract that a declarer can bid.
#[derive(Debug, PartialEq, Eq, Clone, Copy, Hash, Structural)]
pub enum GameType {
    T,
    R,
    S,
    P1,
    P2,
    P3,
    SR,
    PB1,
    PB2,
    PB3,
    B,
    BR,
    PO1,
    PO2,
    PO3,
    D,
    BO,
    PD,
    SD,
    SPD,
}

/// The contract that an upper-case code of 1 character names.
pub open spec fn game_type_of1(a: char) -> Option<GameType> {
    if a == 'T' {
        Some(GameType::T)
    }     else if a == 'R' {
        Some(GameType::R)
    }     else if a == 'S' {
        Some(GameType::S)
    }     else if a == 'B' {
        Some(GameType::B)
    }     else if a == 'D' {
        Some(GameType::D)
    } else {
        None
    }
}

/// The contract that an upper-case code of 2 characters names.
pub open spec fn game_type_of2(a: char, b: char) -> Option<GameType> {
    if a == 'P' && b == '1' {
        Some(GameType::P1)
    }     else if a == 'P' && b == '2' {
        Some(GameType::P2)
    }     else if a == 'P' && b == '3' {
        Some(GameType::P3)
    }     else if a == 'S' && b == 'R' {
        Some(GameType::SR)
    }     else if a == 'B' && b == 'R' {
        Some(GameType::BR)
    }     else if a == 'B' && b == 'O' {
        Some(GameType::BO)
    }     else if a == 'P' && b == 'D' {
        Some(GameType::PD)
    }     else if a == 'S' && b == 'D' {
        Some(GameType::SD)
    } else {
        None
    }
}

/// The contract that an upper-case code of 3 characters names.
pub open spec fn game_type_of3(a: char, b: char, c: char) -> Option<GameType> {
    if a == 'P' && b == 'B' && c == '1' {
        Some(GameType::PB1)
    }     else if a == 'P' && b == 'B' && c == '2' {
        Some(GameType::PB2)
    }     else if a == 'P' && b == 'B' && c == '3' {
        Some(GameType::PB3)
    }     else if a == 'P' && b == 'O' && c == '1' {
        Some(GameType::PO1)
    }     else if a == 'P' && b == 'O' && c == '2' {
        Some(GameType::PO2)
    }     else if a == 'P' && b == 'O' && c == '3' {
        Some(GameType::PO3)
    }     else if a == 'S' && b == 'P' && c == 'D' {
        Some(GameType::SPD)
    } else {
        None
    }
}

/// The contract that an upper-case code names.
pub open spec fn game_type_of_code(u: Seq<char>) -> Option<GameType> {
    if u.len() == 1 {
        game_type_of1(u[0])
    } else if u.len() == 2 {
        game_type_of2(u[0], u[1])
    } else if u.len() == 3 {
        game_type_of3(u[0], u[1], u[2])
    } else {
        None
    }
}

/// The contract that a code names, in upper or lower case.
pub open spec fn game_type_of_text(s: Seq<char>) -> Option<GameType> {
    game_type_of_code(upper_seq(s))
}

/// The upper-case code of a contract.
pub open spec fn game_type_code(g: GameType) -> Seq<char> {
    match g {
        GameType::T => seq!['T'],
        GameType::R => seq!['R'],
        GameType::S => seq!['S'],
        GameType::P1 => seq!['P', '1'],
        GameType::P2 => seq!['P', '2'],
        GameType::P3 => seq!['P', '3'],
        GameType::SR => seq!['S', 'R'],
        GameType::PB1 => seq!['P', 'B', '1'],
        GameType::PB2 => seq!['P', 'B', '2'],
        GameType::PB3 => seq!['P', 'B', '3'],
        GameType::B => seq!['B'],
        GameType::BR => seq!['B', 'R'],
        GameType::PO1 => seq!['P', 'O', '1'],
        GameType::PO2 => seq!['P', 'O', '2'],
        GameType::PO3 => seq!['P', 'O', '3'],
        GameType::D => seq!['D'],
        GameType::BO => seq!['B', 'O'],
        GameType::PD => seq!['P', 'D'],
        GameType::SD => seq!['S', 'D'],
        GameType::SPD => seq!['S', 'P', 'D'],
    }
}

fn game_type1(a: char) -> (r: Option<GameType>)
    ensures
        r == game_type_of1(a),
{
    if a == 'T' {
        Some(GameType::T)
    }     else if a == 'R' {
        Some(GameType::R)
    }     else if a == 'S' {
        Some(GameType::S)
    }     else if a == 'B' {
        Some(GameType::B)
    }     else if a == 'D' {
        Some(GameType::D)
    } else {
        None
    }
}

fn game_type2(a: char, b: char) -> (r: Option<GameType>)
    ensures
        r == game_type_of2(a, b),
{
    if a == 'P' && b == '1' {
        Some(GameType::P1)
    }     else if a == 'P' && b == '2' {
        Some(GameType::P2)
    }     else if a == 'P' && b == '3' {
        Some(GameType::P3)
    }     else if a == 'S' && b == 'R' {
        Some(GameType::SR)
    }     else if a == 'B' && b == 'R' {
        Some(GameType::BR)
    }     else if a == 'B' && b == 'O' {
        Some(GameType::BO)
    }     else if a == 'P' && b == 'D' {
        Some(GameType::PD)
    }     else if a == 'S' && b == 'D' {
        Some(GameType::SD)
    } else {
        None
    }
}

fn game_type3(a: char, b: char, c: char) -> (r: Option<GameType>)
    ensures
        r == game_type_of3(a, b, c),
{
    if a == 'P' && b == 'B' && c == '1' {
        Some(GameType::PB1)
    }     else if a == 'P' && b == 'B' && c == '2' {
        Some(GameType::PB2)
    }     else if a == 'P' && b == 'B' && c == '3' {
        Some(GameType::PB3)
    }     else if a == 'P' && b == 'O' && c == '1' {
        Some(GameType::PO1)
    }     else if a == 'P' && b == 'O' && c == '2' {
        Some(GameType::PO2)
    }     else if a == 'P' && b == 'O' && c == '3' {
        Some(GameType::PO3)
    }     else if a == 'S' && b == 'P' && c == 'D' {
        Some(GameType::SPD)
    } else {
        None
    }
}

/// The contract that the characters `s[start..end]` name, in either case.
pub fn game_type_in(s: &Vec<char>, start: usize, end: usize) -> (r: Option<GameType>)
    requires
        start <= end <= s@.len(),
    ensures
        r == game_type_of_text(s@.subrange(start as int, end as int)),
{
    let ghost t = s@.subrange(start as int, end as int);
    assert(upper_seq(t).len() == t.len());
    if end - start == 1 {
        assert(upper_seq(t)[0] == upper(s@[start as int]));
        game_type1(to_upper(s[start]))
    } else if end - start == 2 {
        assert(upper_seq(t)[0] == upper(s@[start as int]));
        assert(upper_seq(t)[1] == upper(s@[start + 1]));
        game_type2(to_upper(s[start]), to_upper(s[start + 1]))
    } else if end - start == 3 {
        assert(upper_seq(t)[0] == upper(s@[start as int]));
        assert(upper_seq(t)[1] == upper(s@[start + 1]));
        assert(upper_seq(t)[2] == upper(s@[start + 2]));
        game_type3(to_upper(s[start]), to_upper(s[start + 1]), to_upper(s[start + 2]))
    } else {
        None
    }
}

impl GameType {
    /// Decodes one contract code, in upper or lower case.
    pub fn decode(s: &str) -> (r: Result<GameType, ParseError>)
        ensures
            r matches Ok(g) ==> game_type_of_text(s@) == Some(g),
            r is Err <==> game_type_of_text(s@) is None,
            r matches Err(e) ==> e == ParseError::InvalidGameType,
            forall|g: GameType| r == Ok::<GameType, ParseError>(g) <==> upper_seq(s@)
                == #[trigger] game_type_code(g),
    {
        proof {
            assert forall|g: GameType| game_type_of_text(s@) == Some(g) <==> upper_seq(s@)
                == #[trigger] game_type_code(g) by {
                lemma_game_type_decodes_iff_code(s@, g);
            }
        }
        let v = chars_of(s);
        assert(v@.subrange(0, v@.len() as int) =~= s@);
        match game_type_in(&v, 0, v.len()) {
            Some(g) => Ok(g),
            None => Err(ParseError::InvalidGameType),
        }
    }
}

impl std::str::FromStr for GameType {
    type Err = &'static str;

    fn from_str(s: &str) -> (r: Result<GameType, &'static str>)
        ensures
            r matches Ok(g) ==> game_type_of_text(s@) == Some(g),
            r is Err <==> game_type_of_text(s@) is None,
            r matches Err(m) ==> m@ == message_text(ParseError::InvalidGameType),
            forall|g: GameType| r == Ok::<GameType, &'static str>(g) <==> upper_seq(s@)
                == #[trigger] game_type_code(g),
    {
        match GameType::decode(s) {
            Ok(g) => Ok(g),
            Err(e) => Err(e.message()),
        }
    }
}

} // verus!

verus! {

/// A text decodes to `g` exactly when its upper case is `g`'s code: each
/// contract has one code, and no two contracts share one.
pub proof fn lemma_game_type_decodes_iff_code(s: Seq<char>, g: GameType)
    ensures
        game_type_of_text(s) == Some(g) <==> upper_seq(s) == game_type_code(g),
{
    let u = upper_seq(s);
    if game_type_of_code(u) == Some(g) {
        assert(u =~= game_type_code(g));
    }
    if u == game_type_code(g) {
        assert(game_type_of_code(game_type_code(g)) == Some(g));
    }
}

} // verus!
