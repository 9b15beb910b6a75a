use crate::card::{card_in, card_of_text, Card};
use crate::collection::{clean, empty_slots, scan, slots_of, tokenize, CardCollection, NUM_CARDS};
use crate::error::{message_text, ParseError};
use crate::game_type::{game_type_in, game_type_of_text, GameType};
use crate::text::{
    chars_of, cut_points, cuts, field_bounds, fields, int_pairs, ints, piece, piece_of,
    slice_chars, to_upper, upper,
};
use vstd::prelude::*;

verus! {

pub const HAND_SIZE: usize = 12;

pub const STICH_SIZE: usize = 4;

pub const TALON_SIZE: usize = 3;

pub const NUM_PLAYERS: usize = 4;

// ---------------------------------------------------------------------------
// The cards group: `T0/T1#H0/S0#H1/S1#H2/S2#H3/S3#ST`.

/// Segment `k` of the cards group `f`, counted left to right: the talon
/// halves are 0 and 1, player `p`'s hand is `2 + 2p` and won tricks `3 + 2p`,
/// the trick in play is 10.
pub open spec fn segment(f: Seq<char>, k: int) -> Seq<char> {
    if k < 10 {
        piece(piece(f, '#', k / 2), '/', k % 2)
    } else {
        piece(f, '#', 5)
    }
}

/// Fewest cards segment `k` may hold.
pub open spec fn segment_min(k: int) -> int {
    if k < 2 {
        3
    } else {
        0
    }
}

/// Most cards segment `k` may hold.
pub open spec fn segment_max(k: int) -> int {
    if k < 2 {
        3
    } else if k == 10 {
        4
    } else if k % 2 == 0 {
        12
    } else {
        54
    }
}

/// Whether segment `k` of `f` is card codes alone, as many as it may hold.
pub open spec fn segment_ok(f: Seq<char>, k: int) -> bool {
    clean(segment(f, k)) && segment_min(k) <= scan(segment(f, k)).len() <= segment_max(k)
}

/// Whether `f` has the shape of a cards group.
pub open spec fn cards_group_ok(f: Seq<char>) -> bool {
    &&& cut_points(f, '#').len() == 5
    &&& forall|j: int| 0 <= j < 5 ==> #[trigger] cut_points(piece(f, '#', j), '/').len() == 1
    &&& forall|k: int| 0 <= k < 11 ==> #[trigger] segment_ok(f, k)
}

fn segment_min_of(k: usize) -> (r: usize)
    ensures
        r == segment_min(k as int),
{
    if k < 2 {
        3
    } else {
        0
    }
}

fn segment_max_of(k: usize) -> (r: usize)
    ensures
        r == segment_max(k as int),
{
    if k < 2 {
        3
    } else if k == 10 {
        4
    } else if k % 2 == 0 {
        12
    } else {
        54
    }
}

/// The cards of segment `k`, where `seg` holds its characters; `None` where
/// it holds anything else or a number of cards it may not hold.
fn segment_cards(seg: &Vec<char>, k: usize) -> (r: Option<Vec<Card>>)
    requires
        k < 11,
    ensures
        r is Some <==> (clean(seg@) && segment_min(k as int) <= scan(seg@).len() <= segment_max(
            k as int,
        )),
        r matches Some(v) ==> v@ == scan(seg@),
{
    let (found, only_codes) = tokenize(seg);
    if only_codes && segment_min_of(k) <= found.len() && found.len() <= segment_max_of(k) {
        Some(found)
    } else {
        None
    }
}

/// The cards of the eleven segments of the cards group `f`, or `None` where
/// `f` does not have the shape of a cards group.
pub fn cards_group(f: &Vec<char>) -> (r: Option<Vec<Vec<Card>>>)
    ensures
        r is Some <==> cards_group_ok(f@),
        r matches Some(v) ==> v@.len() == 11 && forall|k: int|
            0 <= k < 11 ==> (#[trigger] v@[k])@ == scan(segment(f@, k)),
{
    let hc = cuts(f, '#');
    if hc.len() != 5 {
        return None;
    }
    let mut out: Vec<Vec<Card>> = Vec::new();
    let mut j: usize = 0;
    while j < 5
        invariant
            j <= 5,
            ints(hc@) == cut_points(f@, '#'),
            hc@.len() == 5,
            out@.len() == 2 * j,
            forall|i: int| 0 <= i < j ==> #[trigger] cut_points(piece(f@, '#', i), '/').len() == 1,
            forall|k: int| 0 <= k < 2 * j ==> #[trigger] segment_ok(f@, k),
            forall|k: int| 0 <= k < 2 * j ==> (#[trigger] out@[k])@ == scan(segment(f@, k)),
        decreases 5 - j,
    {
        let p = piece_of(f, &hc, '#', j);
        let sc = cuts(&p, '/');
        if sc.len() != 1 {
            assert(cut_points(piece(f@, '#', j as int), '/').len() != 1);
            return None;
        }
        let mut h: usize = 0;
        while h < 2
            invariant
                j < 5,
                h <= 2,
                p@ == piece(f@, '#', j as int),
                ints(sc@) == cut_points(p@, '/'),
                sc@.len() == 1,
                out@.len() == 2 * j + h,
                forall|k: int| 0 <= k < 2 * j + h ==> #[trigger] segment_ok(f@, k),
                forall|k: int| 0 <= k < 2 * j + h ==> (#[trigger] out@[k])@ == scan(segment(f@, k)),
            decreases 2 - h,
        {
            let seg = piece_of(&p, &sc, '/', h);
            let k = 2 * j + h;
            assert(seg@ == segment(f@, k as int));
            match segment_cards(&seg, k) {
                Some(v) => {
                    out.push(v);
                },
                None => {
                    assert(!segment_ok(f@, k as int));
                    return None;
                },
            }
            h = h + 1;
        }
        j = j + 1;
    }
    let last = piece_of(f, &hc, '#', 5);
    assert(last@ == segment(f@, 10));
    match segment_cards(&last, 10) {
        Some(v) => {
            out.push(v);
        },
        None => {
            assert(!segment_ok(f@, 10));
            return None;
        },
    }
    Some(out)
}

} // verus!

verus! {

// ---------------------------------------------------------------------------
// The contract group: `(contract player){1,4} king teammate talon`.

pub open spec fn is_player_digit(c: char) -> bool {
    '1' <= c && c <= '4'
}

/// The player number (1 to 4) that a digit names.
pub open spec fn digit_of(c: char) -> usize {
    if c == '1' {
        1
    } else if c == '2' {
        2
    } else if c == '3' {
        3
    } else {
        4
    }
}

/// Whether a contract code of `n` characters starts at `u[i]` and a player
/// digit follows it.
pub open spec fn pair_ok(u: Seq<char>, i: int, n: int) -> bool {
    &&& i + n < u.len()
    &&& game_type_of_text(u.subrange(i, i + n)) is Some
    &&& is_player_digit(u[i + n])
}

/// Length of the contract code of the pair that starts at `u[i]`, or 0.
pub open spec fn pair_len(u: Seq<char>, i: int) -> int {
    if pair_ok(u, i, 3) {
        3
    } else if pair_ok(u, i, 2) {
        2
    } else if pair_ok(u, i, 1) {
        1
    } else {
        0
    }
}

/// The run of (contract, player) pairs that starts at `u[i]`.
pub open spec fn pairs_from(u: Seq<char>, i: int) -> Seq<(GameType, usize)>
    decreases u.len() - i,
{
    if 0 <= i < u.len() && pair_len(u, i) > 0 {
        let n = pair_len(u, i);
        seq![(game_type_of_text(u.subrange(i, i + n))->Some_0, digit_of(u[i + n]))] + pairs_from(
            u,
            i + n + 1,
        )
    } else {
        seq![]
    }
}

/// Where each pair of the run that starts at `u[i]` ends.
pub open spec fn pair_ends(u: Seq<char>, i: int) -> Seq<int>
    decreases u.len() - i,
{
    if 0 <= i < u.len() && pair_len(u, i) > 0 {
        let e = i + pair_len(u, i) + 1;
        seq![e] + pair_ends(u, e)
    } else {
        seq![]
    }
}

/// Whether `r` is a called king of `n` characters (a card code, or `-` for
/// none), then a teammate digit or `-`, then a talon indicator, and nothing
/// more.
pub open spec fn tail_ok(r: Seq<char>, n: int) -> bool {
    &&& n < r.len()
    &&& ((n == 1 && r[0] == '-') || card_of_text(r.subrange(0, n)) is Some)
    &&& (is_player_digit(r[n]) || r[n] == '-')
    &&& talon_of(r.subrange(n + 1, r.len() as int)) is Some
}

/// Length of the called king that lets `r` end a contract group, the
/// longest card code first; 0 where none does.
pub open spec fn tail_len(r: Seq<char>) -> int {
    if tail_ok(r, 3) {
        3
    } else if tail_ok(r, 2) {
        2
    } else if tail_ok(r, 1) {
        1
    } else {
        0
    }
}

/// The talon halves that `t` says were taken: `12`, `1`, `2`, or none for
/// `-`; `None` for anything else.
pub open spec fn talon_of(t: Seq<char>) -> Option<Option<usize>> {
    if t.len() == 2 && t[0] == '1' && t[1] == '2' {
        Some(Some(12))
    } else if t.len() == 1 && t[0] == '1' {
        Some(Some(1))
    } else if t.len() == 1 && t[0] == '2' {
        Some(Some(2))
    } else if t.len() == 1 && t[0] == '-' {
        Some(None)
    } else {
        None
    }
}

/// What a contract group declares.
pub struct Declaration {
    /// Each contract with the number (1 to 4) of the player who declared it.
    pub pairs: Vec<(GameType, usize)>,
    pub called_king: Option<Card>,
    pub taken_talon: Option<usize>,
}

/// What the contract group `u` declares when its first `j` pairs are
/// taken as pairs and what follows them as king, teammate and talon; where
/// that fails, with one pair fewer, down to one.
pub open spec fn declaration_with(u: Seq<char>, j: int) -> Option<
    (Seq<(GameType, usize)>, Option<Card>, Option<usize>),
>
    decreases j,
{
    if j <= 0 {
        None
    } else {
        let r = u.subrange(pair_ends(u, 0)[j - 1], u.len() as int);
        let n = tail_len(r);
        if n > 0 {
            Some(
                (
                    pairs_from(u, 0).take(j),
                    if r[0] == '-' {
                        None
                    } else {
                        card_of_text(r.subrange(0, n))
                    },
                    talon_of(r.subrange(n + 1, r.len() as int))->Some_0,
                ),
            )
        } else {
            declaration_with(u, j - 1)
        }
    }
}

/// What the contract group `u` declares: its pairs, the called king and
/// the taken talon; `None` where `u` does not have the shape of one. As
/// many pairs as can be (at most four) are taken, so `R1T1XK-1` is the
/// pairs `R1` and `T1` with the king `XK`, while `R1T11-` is the pair `R1`
/// with the king `T1`.
pub open spec fn declaration(u: Seq<char>) -> Option<(Seq<(GameType, usize)>, Option<Card>, Option<usize>)> {
    let m = pairs_from(u, 0).len();
    declaration_with(u, if m < 4 { m as int } else { 4 })
}

fn player_digit(c: char) -> (r: Option<usize>)
    ensures
        r is Some <==> is_player_digit(c),
        r matches Some(d) ==> d == digit_of(c),
{
    if c == '1' {
        Some(1)
    } else if c == '2' {
        Some(2)
    } else if c == '3' {
        Some(3)
    } else if c == '4' {
        Some(4)
    } else {
        None
    }
}

fn pair_fits(u: &Vec<char>, i: usize, n: usize) -> (r: bool)
    requires
        i < u@.len(),
        1 <= n <= 3,
    ensures
        r == pair_ok(u@, i as int, n as int),
{
    if n >= u.len() - i {
        return false;
    }
    game_type_in(u, i, i + n).is_some() && player_digit(u[i + n]).is_some()
}

fn pair_at(u: &Vec<char>, i: usize) -> (r: usize)
    requires
        i < u@.len(),
    ensures
        r == pair_len(u@, i as int),
{
    if pair_fits(u, i, 3) {
        3
    } else if pair_fits(u, i, 2) {
        2
    } else if pair_fits(u, i, 1) {
        1
    } else {
        0
    }
}

fn talon_value(t: &Vec<char>) -> (r: Option<Option<usize>>)
    ensures
        r == talon_of(t@),
{
    if t.len() == 2 && t[0] == '1' && t[1] == '2' {
        Some(Some(12))
    } else if t.len() == 1 && t[0] == '1' {
        Some(Some(1))
    } else if t.len() == 1 && t[0] == '2' {
        Some(Some(2))
    } else if t.len() == 1 && t[0] == '-' {
        Some(None)
    } else {
        None
    }
}

fn tail_fits(r: &Vec<char>, n: usize) -> (b: bool)
    requires
        1 <= n <= 3,
    ensures
        b == tail_ok(r@, n as int),
{
    if n >= r.len() {
        return false;
    }
    let king = (n == 1 && r[0] == '-') || card_in(r, 0, n).is_some();
    let mate = player_digit(r[n]).is_some() || r[n] == '-';
    king && mate && talon_value(&slice_chars(r, n + 1, r.len())).is_some()
}

fn tail_at(r: &Vec<char>) -> (n: usize)
    ensures
        n == tail_len(r@),
{
    if tail_fits(r, 3) {
        3
    } else if tail_fits(r, 2) {
        2
    } else if tail_fits(r, 1) {
        1
    } else {
        0
    }
}

/// Decodes the contract group `u`.
pub fn contract_group(u: &Vec<char>) -> (r: Option<Declaration>)
    ensures
        r is Some <==> declaration(u@) is Some,
        r matches Some(d) ==> declaration(u@) == Some((d.pairs@, d.called_king, d.taken_talon)),
{
    let mut pairs: Vec<(GameType, usize)> = Vec::new();
    let mut ends: Vec<usize> = Vec::new();
    let mut i: usize = 0;
    let mut n: usize = if u.len() > 0 {
        pair_at(u, 0)
    } else {
        0
    };
    let len = u.len();
    while n > 0
        invariant
            len == u@.len(),
            i <= u@.len(),
            n == (if i < u@.len() {
                pair_len(u@, i as int)
            } else {
                0
            }),
            pairs@ + pairs_from(u@, i as int) == pairs_from(u@, 0),
            ints(ends@) + pair_ends(u@, i as int) == pair_ends(u@, 0),
            pairs@.len() == ends@.len(),
            forall|k: int| 0 <= k < ends@.len() ==> #[trigger] ends@[k] <= len,
        decreases u@.len() - i,
    {
        assert(i < u@.len());
        assert(pair_ok(u@, i as int, n as int));
        let g = game_type_in(u, i, i + n);
        let d = player_digit(u[i + n]);
        let ghost before = pairs@;
        pairs.push((g.unwrap(), d.unwrap()));
        assert(before + pairs_from(u@, i as int) =~= pairs@ + pairs_from(u@, (i + n + 1) as int));
        let ghost ends_before = ends@;
        ends.push(i + n + 1);
        assert(ints(ends_before) + pair_ends(u@, i as int) =~= ints(ends@) + pair_ends(
            u@,
            (i + n + 1) as int,
        ));
        i = i + n + 1;
        n = if i < u.len() {
            pair_at(u, i)
        } else {
            0
        };
    }
    assert(pairs@ =~= pairs_from(u@, 0));
    assert(ints(ends@) =~= pair_ends(u@, 0));
    let mut j: usize = if pairs.len() < 4 {
        pairs.len()
    } else {
        4
    };
    while j > 0
        invariant
            len == u@.len(),
            j <= pairs@.len(),
            pairs@.len() == ends@.len(),
            pairs@ == pairs_from(u@, 0),
            ints(ends@) == pair_ends(u@, 0),
            forall|k: int| 0 <= k < ends@.len() ==> #[trigger] ends@[k] <= len,
            declaration(u@) == declaration_with(u@, j as int),
        decreases j,
    {
        let e = ends[j - 1];
        assert(ints(ends@)[j - 1] == e as int);
        let rest = slice_chars(u, e, len);
        let n = tail_at(&rest);
        if n > 0 {
            let t = slice_chars(&rest, n + 1, rest.len());
            let talon = talon_value(&t).unwrap();
            let king = if rest[0] == '-' {
                None
            } else {
                card_in(&rest, 0, n)
            };
            let mut taken: Vec<(GameType, usize)> = Vec::new();
            let mut k: usize = 0;
            while k < j
                invariant
                    k <= j <= pairs@.len(),
                    taken@ == pairs@.take(k as int),
                decreases j - k,
            {
                taken.push(pairs[k]);
                k = k + 1;
                assert(taken@ =~= pairs@.take(k as int));
            }
            return Some(Declaration { pairs: taken, called_king: king, taken_talon: talon });
        }
        j = j - 1;
    }
    None
}

} // verus!

verus! {

// ---------------------------------------------------------------------------
// The calls group: four `/`-separated fields drawn from `1234TUKV` in order.

/// Place of a call letter in the order `1234TUKV`, or -1.
pub open spec fn call_rank(c: char) -> int {
    let u = upper(c);
    if u == '1' {
        0
    } else if u == '2' {
        1
    } else if u == '3' {
        2
    } else if u == '4' {
        3
    } else if u == 'T' {
        4
    } else if u == 'U' {
        5
    } else if u == 'K' {
        6
    } else if u == 'V' {
        7
    } else {
        -1
    }
}

/// Whether `f` holds call letters alone, each at most once, in the order
/// `1234TUKV`.
pub open spec fn call_field_ok(f: Seq<char>) -> bool {
    &&& forall|i: int| 0 <= i < f.len() ==> call_rank(#[trigger] f[i]) >= 0
    &&& forall|i: int, j: int| 0 <= i < j < f.len() ==> call_rank(#[trigger] f[i]) < call_rank(
        #[trigger] f[j],
    )
}

/// Whether `f` holds the call letter `letter`, in either case.
pub open spec fn has_call(f: Seq<char>, letter: char) -> bool {
    exists|i: int| 0 <= i < f.len() && upper(#[trigger] f[i]) == letter
}

fn rank_of(c: char) -> (r: i32)
    ensures
        r == call_rank(c),
{
    let u = to_upper(c);
    if u == '1' {
        0
    } else if u == '2' {
        1
    } else if u == '3' {
        2
    } else if u == '4' {
        3
    } else if u == 'T' {
        4
    } else if u == 'U' {
        5
    } else if u == 'K' {
        6
    } else if u == 'V' {
        7
    } else {
        -1
    }
}

fn call_field_valid(f: &Vec<char>) -> (r: bool)
    ensures
        r == call_field_ok(f@),
{
    let mut last: i32 = -1;
    let mut i: usize = 0;
    while i < f.len()
        invariant
            i <= f@.len(),
            -1 <= last <= 7,
            i == 0 ==> last == -1,
            i > 0 ==> last == call_rank(f@[i - 1]),
            forall|a: int| 0 <= a < i ==> 0 <= call_rank(#[trigger] f@[a]) <= last,
            forall|a: int, b: int| 0 <= a < b < i ==> call_rank(#[trigger] f@[a]) < call_rank(
                #[trigger] f@[b],
            ),
        decreases f@.len() - i,
    {
        let r = rank_of(f[i]);
        if r < 0 {
            return false;
        }
        if r <= last {
            assert(call_rank(f@[i - 1]) >= call_rank(f@[i as int]));
            return false;
        }
        last = r;
        i = i + 1;
    }
    true
}

fn has_letter(f: &Vec<char>, letter: char) -> (r: bool)
    ensures
        r == has_call(f@, letter),
{
    let mut i: usize = 0;
    while i < f.len()
        invariant
            i <= f@.len(),
            forall|a: int| 0 <= a < i ==> upper(#[trigger] f@[a]) != letter,
        decreases f@.len() - i,
    {
        if to_upper(f[i]) == letter {
            return true;
        }
        i = i + 1;
    }
    false
}

// ---------------------------------------------------------------------------
// The table flag.

/// The flag that `f` sets: `J` or `j` sets it, `-` clears it.
pub open spec fn flag_of(f: Seq<char>) -> Option<bool> {
    if f.len() == 1 && (f[0] == 'J' || f[0] == 'j') {
        Some(true)
    } else if f.len() == 1 && f[0] == '-' {
        Some(false)
    } else {
        None
    }
}

fn flag_value(f: &Vec<char>) -> (r: Option<bool>)
    ensures
        r == flag_of(f@),
{
    if f.len() == 1 && (f[0] == 'J' || f[0] == 'j') {
        Some(true)
    } else if f.len() == 1 && f[0] == '-' {
        Some(false)
    } else {
        None
    }
}

// ---------------------------------------------------------------------------
// The state.

/// What one player has declared.
#[derive(Debug, Clone, Copy, PartialEq, Eq, Structural)]
pub struct Calls {
    pub typ: Option<GameType>,
    pub called_king: Option<Card>,
    pub taken_talon: Option<usize>,
    pub pagat: bool,
    pub uhu: bool,
    pub pelikan: bool,
    pub quapil: bool,
    pub trull: bool,
    pub kings: bool,
    pub ultimo: bool,
    pub valat: bool,
}

/// No contract and no call.
pub open spec fn no_calls() -> Calls {
    Calls {
        typ: None,
        called_king: None,
        taken_talon: None,
        pagat: false,
        uhu: false,
        pelikan: false,
        quapil: false,
        trull: false,
        kings: false,
        ultimo: false,
        valat: false,
    }
}

impl Default for Calls {
    fn default() -> (r: Calls)
        ensures
            r == no_calls(),
    {
        Calls {
            typ: None,
            called_king: None,
            taken_talon: None,
            pagat: false,
            uhu: false,
            pelikan: false,
            quapil: false,
            trull: false,
            kings: false,
            ultimo: false,
            valat: false,
        }
    }
}

/// One of the four players.
#[derive(Debug, Clone, Copy, PartialEq, Eq)]
pub struct Player {
    pub hand: CardCollection<HAND_SIZE>,
    pub stiche: CardCollection<NUM_CARDS>,
    pub calls: Calls,
}

/// A whole game state.
#[derive(Debug, Clone, Copy, PartialEq, Eq)]
pub struct GameState {
    pub players: [Player; NUM_PLAYERS],
    pub stich: CardCollection<STICH_SIZE>,
    pub talon: [CardCollection<TALON_SIZE>; 2],
    /// Whether small trumps beat big ones.
    pub kleinen_stechen_grossen: bool,
}

/// The contract that the last pair naming `player` declares, if any.
pub open spec fn declared(pairs: Seq<(GameType, usize)>, player: usize) -> Option<GameType>
    decreases pairs.len(),
{
    if pairs.len() == 0 {
        None
    } else if pairs.last().1 == player {
        Some(pairs.last().0)
    } else {
        declared(pairs.drop_last(), player)
    }
}

/// The calls of player number `player` (1 to 4): the contract group's
/// declaration, which gives the king and the talon to each declarer, and
/// the player's field `f` of the calls group.
pub open spec fn calls_of(
    decl: (Seq<(GameType, usize)>, Option<Card>, Option<usize>),
    f: Seq<char>,
    player: usize,
) -> Calls {
    let typ = declared(decl.0, player);
    Calls {
        typ,
        called_king: if typ is Some {
            decl.1
        } else {
            None
        },
        taken_talon: if typ is Some {
            decl.2
        } else {
            None
        },
        pagat: has_call(f, '1'),
        uhu: has_call(f, '2'),
        pelikan: has_call(f, '3'),
        quapil: has_call(f, '4'),
        trull: has_call(f, 'T'),
        kings: has_call(f, 'K'),
        ultimo: has_call(f, 'U'),
        valat: has_call(f, 'V'),
    }
}

fn declared_type(pairs: &Vec<(GameType, usize)>, player: usize) -> (r: Option<GameType>)
    ensures
        r == declared(pairs@, player),
{
    let mut r: Option<GameType> = None;
    let mut i: usize = 0;
    assert(pairs@.take(0) =~= Seq::<(GameType, usize)>::empty());
    while i < pairs.len()
        invariant
            i <= pairs@.len(),
            r == declared(pairs@.take(i as int), player),
        decreases pairs@.len() - i,
    {
        assert(pairs@.take(i + 1).drop_last() =~= pairs@.take(i as int));
        if pairs[i].1 == player {
            r = Some(pairs[i].0);
        }
        i = i + 1;
    }
    assert(pairs@.take(i as int) =~= pairs@);
    r
}

fn player_calls(d: &Declaration, f: &Vec<char>, player: usize) -> (r: Calls)
    ensures
        r == calls_of((d.pairs@, d.called_king, d.taken_talon), f@, player),
{
    let typ = declared_type(&d.pairs, player);
    let declares = typ.is_some();
    Calls {
        typ,
        called_king: if declares {
            d.called_king
        } else {
            None
        },
        taken_talon: if declares {
            d.taken_talon
        } else {
            None
        },
        pagat: has_letter(f, '1'),
        uhu: has_letter(f, '2'),
        pelikan: has_letter(f, '3'),
        quapil: has_letter(f, '4'),
        trull: has_letter(f, 'T'),
        kings: has_letter(f, 'K'),
        ultimo: has_letter(f, 'U'),
        valat: has_letter(f, 'V'),
    }
}

} // verus!

verus! {

// ---------------------------------------------------------------------------
// The whole line: `cards contract calls flag reserved`.

/// Whether each of the four fields of the calls group `f` is well formed.
pub open spec fn calls_fields_ok(f: Seq<char>) -> bool {
    forall|p: int| 0 <= p < 4 ==> #[trigger] call_field_ok(piece(f, '/', p))
}

/// The first fault of the notation line `s`, checked field by field in
/// order, or `None` where the line is well formed. The fifth field may hold
/// anything; words after it are ignored.
pub open spec fn line_error(s: Seq<char>) -> Option<ParseError> {
    let fs = fields(s);
    if fs.len() < 5 {
        Some(ParseError::MissingGroups)
    } else if !cards_group_ok(fs[0]) {
        Some(ParseError::InvalidCardsGroup)
    } else if declaration(fs[1]) is None {
        Some(ParseError::InvalidGameGroup)
    } else if cut_points(fs[2], '/').len() != 3 {
        Some(ParseError::InvalidCallsGroup)
    } else if !calls_fields_ok(fs[2]) {
        Some(ParseError::InvalidCall)
    } else if flag_of(fs[3]) is None {
        Some(ParseError::InvalidFlag)
    } else {
        None
    }
}

/// Whether `pl` is player `p` (0 to 3) as the cards group `f0`, the
/// declaration `d` and the calls group `f2` describe it.
pub open spec fn player_described(
    pl: Player,
    f0: Seq<char>,
    d: (Seq<(GameType, usize)>, Option<Card>, Option<usize>),
    f2: Seq<char>,
    p: int,
) -> bool {
    &&& pl.hand.cards@ == slots_of(scan(segment(f0, 2 + 2 * p)), HAND_SIZE as nat)
    &&& pl.hand.excluded@ == empty_slots(NUM_CARDS as nat)
    &&& pl.stiche.cards@ == slots_of(scan(segment(f0, 3 + 2 * p)), NUM_CARDS as nat)
    &&& pl.stiche.excluded@ == empty_slots(NUM_CARDS as nat)
    &&& pl.calls == calls_of(d, piece(f2, '/', p), (p + 1) as usize)
}

/// Whether `g` is the state that the well-formed notation line `s` gives.
pub open spec fn describes(g: GameState, s: Seq<char>) -> bool {
    let fs = fields(s);
    let f0 = fs[0];
    let d = declaration(fs[1])->Some_0;
    &&& g.talon@[0].cards@ == slots_of(scan(segment(f0, 0)), TALON_SIZE as nat)
    &&& g.talon@[0].excluded@ == empty_slots(NUM_CARDS as nat)
    &&& g.talon@[1].cards@ == slots_of(scan(segment(f0, 1)), TALON_SIZE as nat)
    &&& g.talon@[1].excluded@ == empty_slots(NUM_CARDS as nat)
    &&& forall|p: int| 0 <= p < 4 ==> #[trigger] player_described(g.players@[p], f0, d, fs[2], p)
    &&& g.stich.cards@ == slots_of(scan(segment(f0, 10)), STICH_SIZE as nat)
    &&& g.stich.excluded@ == empty_slots(NUM_CARDS as nat)
    &&& g.kleinen_stechen_grossen == flag_of(fs[3])->Some_0
}

/// Word `k` of the line `v`, where `b` holds the bounds of its words.
fn field_at(v: &Vec<char>, b: &Vec<(usize, usize)>, k: usize) -> (r: Vec<char>)
    requires
        int_pairs(b@) == crate::text::field_ranges(v@),
        forall|j: int| 0 <= j < b@.len() ==> #[trigger] b@[j].0 <= b@[j].1 <= v@.len(),
        k < b@.len(),
    ensures
        r@ == fields(v@)[k as int],
{
    assert(int_pairs(b@)[k as int] == (b@[k as int].0 as int, b@[k as int].1 as int));
    slice_chars(v, b[k].0, b[k].1)
}

fn make_player(
    segs: &Vec<Vec<Card>>,
    d: &Declaration,
    f: &Vec<char>,
    p: usize,
) -> (r: Player)
    requires
        p < 4,
        segs@.len() == 11,
    ensures
        r.hand.cards@ == slots_of(segs@[2 + 2 * p]@, HAND_SIZE as nat),
        r.hand.excluded@ == empty_slots(NUM_CARDS as nat),
        r.stiche.cards@ == slots_of(segs@[3 + 2 * p]@, NUM_CARDS as nat),
        r.stiche.excluded@ == empty_slots(NUM_CARDS as nat),
        r.calls == calls_of((d.pairs@, d.called_king, d.taken_talon), f@, (p + 1) as usize),
{
    Player {
        hand: CardCollection::fill(&segs[2 + 2 * p]),
        stiche: CardCollection::fill(&segs[3 + 2 * p]),
        calls: player_calls(d, f, p + 1),
    }
}

impl GameState {
    /// Decodes a notation line into a game state, or names its first fault.
    pub fn decode(s: &str) -> (r: Result<GameState, ParseError>)
        ensures
            r is Ok <==> line_error(s@) is None,
            r matches Err(e) ==> line_error(s@) == Some(e),
            r matches Ok(g) ==> describes(g, s@),
    {
        let v = chars_of(s);
        let b = field_bounds(&v);
        if b.len() < 5 {
            return Err(ParseError::MissingGroups);
        }
        let f0 = field_at(&v, &b, 0);
        let f1 = field_at(&v, &b, 1);
        let f2 = field_at(&v, &b, 2);
        let f3 = field_at(&v, &b, 3);
        let segs = match cards_group(&f0) {
            Some(x) => x,
            None => {
                return Err(ParseError::InvalidCardsGroup);
            },
        };
        let d = match contract_group(&f1) {
            Some(x) => x,
            None => {
                return Err(ParseError::InvalidGameGroup);
            },
        };
        let cc = cuts(&f2, '/');
        if cc.len() != 3 {
            return Err(ParseError::InvalidCallsGroup);
        }
        let c0 = piece_of(&f2, &cc, '/', 0);
        let c1 = piece_of(&f2, &cc, '/', 1);
        let c2 = piece_of(&f2, &cc, '/', 2);
        let c3 = piece_of(&f2, &cc, '/', 3);
        if !call_field_valid(&c0) || !call_field_valid(&c1) || !call_field_valid(&c2)
            || !call_field_valid(&c3) {
            return Err(ParseError::InvalidCall);
        }
        assert(call_field_ok(piece(f2@, '/', 0)) && call_field_ok(piece(f2@, '/', 1))
            && call_field_ok(piece(f2@, '/', 2)) && call_field_ok(piece(f2@, '/', 3)));
        assert(calls_fields_ok(f2@));
        let flag = match flag_value(&f3) {
            Some(x) => x,
            None => {
                return Err(ParseError::InvalidFlag);
            },
        };
        let p0 = make_player(&segs, &d, &c0, 0);
        let p1 = make_player(&segs, &d, &c1, 1);
        let p2 = make_player(&segs, &d, &c2, 2);
        let p3 = make_player(&segs, &d, &c3, 3);
        let g = GameState {
            players: [p0, p1, p2, p3],
            stich: CardCollection::fill(&segs[10]),
            talon: [CardCollection::fill(&segs[0]), CardCollection::fill(&segs[1])],
            kleinen_stechen_grossen: flag,
        };
        assert(player_described(g.players@[0], f0@, declaration(f1@)->Some_0, f2@, 0));
        assert(player_described(g.players@[1], f0@, declaration(f1@)->Some_0, f2@, 1));
        assert(player_described(g.players@[2], f0@, declaration(f1@)->Some_0, f2@, 2));
        assert(player_described(g.players@[3], f0@, declaration(f1@)->Some_0, f2@, 3));
        Ok(g)
    }
}

impl std::str::FromStr for GameState {
    type Err = &'static str;

    fn from_str(s: &str) -> (r: Result<GameState, &'static str>)
        ensures
            r is Ok <==> line_error(s@) is None,
            r matches Err(m) ==> m@ == message_text(line_error(s@)->Some_0),
            r matches Ok(g) ==> describes(g, s@),
    {
        match GameState::decode(s) {
            Ok(g) => Ok(g),
            Err(e) => Err(e.message()),
        }
    }
}

} // verus!

verus! {

/// A line of fewer than five words fails with `MissingGroups`, whatever
/// the words hold.
pub proof fn lemma_short_line_misses_groups(s: Seq<char>)
    requires
        fields(s).len() < 5,
    ensures
        line_error(s) == Some(ParseError::MissingGroups),
{
}

} // verus!
