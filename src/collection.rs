use crate::card::{card_in, card_of_text, code, Card};
use crate::error::{message_text, ParseError};
use crate::text::chars_of;
use vstd::std_specs::cmp::PartialEqSpec;
use vstd::prelude::*;

verus! {

/// Number of cards in the deck; the size of every excluded set.
pub const NUM_CARDS: usize = 54;

/// Length of the longest card code that starts at position `i` of `s`
/// (3, 2 or 1), or 0 where none starts there.
pub open spec fn token_len(s: Seq<char>, i: int) -> int {
    if i + 3 <= s.len() && card_of_text(s.subrange(i, i + 3)) is Some {
        3
    } else if i + 2 <= s.len() && card_of_text(s.subrange(i, i + 2)) is Some {
        2
    } else if i + 1 <= s.len() && card_of_text(s.subrange(i, i + 1)) is Some {
        1
    } else {
        0
    }
}

/// The cards found by scanning `s` from position `i` left to right: at each
/// position the longest card code is taken, and a character where no code
/// starts is skipped.
pub open spec fn scan_from(s: Seq<char>, i: int) -> Seq<Card>
    decreases s.len() - i,
{
    if i < 0 || i >= s.len() {
        seq![]
    } else if token_len(s, i) == 0 {
        scan_from(s, i + 1)
    } else {
        seq![card_of_text(s.subrange(i, i + token_len(s, i)))->Some_0] + scan_from(
            s,
            i + token_len(s, i),
        )
    }
}

/// The cards found in `s`, in the order found.
pub open spec fn scan(s: Seq<char>) -> Seq<Card> {
    scan_from(s, 0)
}

/// Whether `s` from position `i` on is card codes and nothing else.
pub open spec fn clean_from(s: Seq<char>, i: int) -> bool
    decreases s.len() - i,
{
    if i < 0 || i >= s.len() {
        true
    } else if token_len(s, i) == 0 {
        false
    } else {
        clean_from(s, i + token_len(s, i))
    }
}

/// Whether `s` is a run of card codes with nothing between them.
pub open spec fn clean(s: Seq<char>) -> bool {
    clean_from(s, 0)
}

/// `n` slots holding the first `n` of `cards` in order, the rest empty.
pub open spec fn slots_of(cards: Seq<Card>, n: nat) -> Seq<Option<Card>> {
    Seq::new(n, |k: int| if k < cards.len() { Some(cards[k]) } else { None })
}

/// `n` empty slots.
pub open spec fn empty_slots(n: nat) -> Seq<Option<Card>> {
    Seq::new(n, |k: int| None)
}

/// Length of the longest card code that starts at `s[i]`, or 0.
fn token_at(s: &Vec<char>, i: usize) -> (r: usize)
    requires
        i < s@.len(),
    ensures
        r == token_len(s@, i as int),
{
    let rest = s.len() - i;
    if rest >= 3 && card_in(s, i, i + 3).is_some() {
        3
    } else if rest >= 2 && card_in(s, i, i + 2).is_some() {
        2
    } else if card_in(s, i, i + 1).is_some() {
        1
    } else {
        0
    }
}

/// Scans `s` for card codes; also tells whether nothing but codes was met.
pub fn tokenize(s: &Vec<char>) -> (r: (Vec<Card>, bool))
    ensures
        r.0@ == scan(s@),
        r.1 == clean(s@),
{
    let mut found: Vec<Card> = Vec::new();
    let mut only_codes = true;
    let mut i: usize = 0;
    while i < s.len()
        invariant
            i <= s@.len(),
            found@ + scan_from(s@, i as int) == scan(s@),
            clean(s@) == (only_codes && clean_from(s@, i as int)),
        decreases s@.len() - i,
    {
        let n = token_at(s, i);
        if n == 0 {
            only_codes = false;
            i = i + 1;
        } else {
            let c = card_in(s, i, i + n);
            let ghost before = found@;
            found.push(c.unwrap());
            assert(before + scan_from(s@, i as int) =~= found@ + scan_from(s@, (i + n) as int));
            i = i + n;
        }
    }
    assert(found@ + scan_from(s@, i as int) =~= found@);
    (found, only_codes)
}

} // verus!

verus! {

/// A fixed number `N` of card slots, each a card or empty, and a set of
/// deck size of cards known not to be in the collection.
#[derive(Debug, Clone, Copy, Eq)]
pub struct CardCollection<const N: usize> {
    pub cards: [Option<Card>; N],
    pub excluded: [Option<Card>; NUM_CARDS],
}

/// Whether two slot sequences hold the same values the same number of
/// times, in whatever order.
pub open spec fn same_slots(a: Seq<Option<Card>>, b: Seq<Option<Card>>) -> bool {
    a.to_multiset() == b.to_multiset()
}

fn slot_eq(a: Option<Card>, b: Option<Card>) -> (r: bool)
    ensures
        r == (a == b),
{
    match (a, b) {
        (None, None) => true,
        (Some(x), Some(y)) => x == y,
        _ => false,
    }
}

/// How many slots of `a` hold `x`.
fn count_slot<const M: usize>(a: &[Option<Card>; M], x: Option<Card>) -> (r: usize)
    ensures
        r == a@.to_multiset().count(x),
{
    broadcast use vstd::seq_lib::group_to_multiset_ensures;

    let mut n: usize = 0;
    let mut i: usize = 0;
    assert(a@.take(0) =~= Seq::<Option<Card>>::empty());
    while i < M
        invariant
            i <= M,
            a@.len() == M,
            n == a@.take(i as int).to_multiset().count(x),
            n <= i,
        decreases M - i,
    {
        assert(a@.take(i + 1) =~= a@.take(i as int).push(a@[i as int]));
        proof {
            vstd::seq_lib::to_multiset_build(a@.take(i as int), a@[i as int]);
        }
        if slot_eq(a[i], x) {
            n = n + 1;
        }
        i = i + 1;
    }
    assert(a@.take(M as int) =~= a@);
    n
}

/// Whether every value in a slot of `a` fills as many slots of `a` as of `b`.
fn counts_agree<const M: usize>(a: &[Option<Card>; M], b: &[Option<Card>; M]) -> (r: bool)
    ensures
        r == (forall|k: int|
            0 <= k < M ==> #[trigger] a@.to_multiset().count(a@[k]) == b@.to_multiset().count(
                a@[k],
            )),
{
    let mut i: usize = 0;
    while i < M
        invariant
            i <= M,
            a@.len() == M,
            forall|k: int|
                0 <= k < i ==> #[trigger] a@.to_multiset().count(a@[k]) == b@.to_multiset().count(
                    a@[k],
                ),
        decreases M - i,
    {
        if count_slot(a, a[i]) != count_slot(b, a[i]) {
            return false;
        }
        i = i + 1;
    }
    true
}

/// Whether `a` and `b` hold the same slot values equally often.
fn same_slot_values<const M: usize>(a: &[Option<Card>; M], b: &[Option<Card>; M]) -> (r: bool)
    ensures
        r == same_slots(a@, b@),
{
    broadcast use vstd::seq_lib::group_to_multiset_ensures;

    let r = counts_agree(a, b) && counts_agree(b, a);
    if r {
        assert forall|x: Option<Card>| #[trigger]
            a@.to_multiset().count(x) == b@.to_multiset().count(x) by {
            if a@.contains(x) {
                let k = choose|k: int| 0 <= k < a@.len() && a@[k] == x;
                assert(a@.to_multiset().count(a@[k]) == b@.to_multiset().count(a@[k]));
            } else if b@.contains(x) {
                let k = choose|k: int| 0 <= k < b@.len() && b@[k] == x;
                assert(b@.to_multiset().count(b@[k]) == a@.to_multiset().count(b@[k]));
            }
        }
        assert(a@.to_multiset() =~= b@.to_multiset());
    }
    r
}

impl<const N: usize> PartialEq for CardCollection<N> {
    /// Equal when both hold the same cards equally often, in any order, with
    /// as many empty slots, and likewise for the excluded sets.
    fn eq(&self, other: &Self) -> (r: bool) {
        same_slot_values(&self.cards, &other.cards) && same_slot_values(
            &self.excluded,
            &other.excluded,
        )
    }
}

impl<const N: usize> vstd::std_specs::cmp::PartialEqSpecImpl for CardCollection<N> {
    open spec fn obeys_eq_spec() -> bool {
        true
    }

    open spec fn eq_spec(&self, other: &Self) -> bool {
        same_slots(self.cards@, other.cards@) && same_slots(self.excluded@, other.excluded@)
    }
}

impl<const N: usize> CardCollection<N> {
    /// A collection with every slot empty and nothing excluded.
    pub fn new() -> (r: Self)
        ensures
            r.cards@ == empty_slots(N as nat),
            r.excluded@ == empty_slots(NUM_CARDS as nat),
    {
        let r = CardCollection { cards: [None; N], excluded: [None; NUM_CARDS] };
        assert(r.cards@ =~= empty_slots(N as nat));
        assert(r.excluded@ =~= empty_slots(NUM_CARDS as nat));
        r
    }

    /// Whether `card` fills one of the slots.
    pub fn contains(&self, card: Card) -> (r: bool)
        ensures
            r == self.cards@.contains(Some(card)),
    {
        let mut i: usize = 0;
        while i < N
            invariant
                i <= N,
                self.cards@.len() == N,
                forall|k: int| 0 <= k < i ==> self.cards@[k] != Some(card),
            decreases N - i,
        {
            if slot_eq(self.cards[i], Some(card)) {
                return true;
            }
            i = i + 1;
        }
        false
    }

    /// Whether `card` is in the excluded set.
    pub fn excludes(&self, card: Card) -> (r: bool)
        ensures
            r == self.excluded@.contains(Some(card)),
    {
        let mut i: usize = 0;
        while i < NUM_CARDS
            invariant
                i <= NUM_CARDS,
                self.excluded@.len() == NUM_CARDS,
                forall|k: int| 0 <= k < i ==> self.excluded@[k] != Some(card),
            decreases NUM_CARDS - i,
        {
            if slot_eq(self.excluded[i], Some(card)) {
                return true;
            }
            i = i + 1;
        }
        false
    }

    /// A collection whose slots hold exactly `cards`, in order; refused
    /// unless there are exactly `N` of them.
    pub fn from_cards(cards: &Vec<Card>) -> (r: Result<Self, ParseError>)
        ensures
            r is Ok <==> cards@.len() == N,
            r matches Ok(c) ==> c.cards@ == slots_of(cards@, N as nat) && c.excluded@
                == empty_slots(NUM_CARDS as nat),
            r matches Err(e) ==> e == ParseError::InvalidLength,
    {
        if cards.len() != N {
            return Err(ParseError::InvalidLength);
        }
        let mut r = Self::new();
        let mut i: usize = 0;
        while i < N
            invariant
                i <= N,
                cards@.len() == N,
                r.excluded@ == empty_slots(NUM_CARDS as nat),
                forall|k: int| 0 <= k < i ==> r.cards@[k] == Some(cards@[k]),
            decreases N - i,
        {
            r.cards[i] = Some(cards[i]);
            i = i + 1;
        }
        assert(r.cards@ =~= slots_of(cards@, N as nat));
        Ok(r)
    }

    /// Reads the cards of `s` into the slots in the order found, the first
    /// `N` of them; slots left over stay empty. A character where no card
    /// code starts is skipped. Nothing is excluded.
    pub fn decode(s: &str) -> (r: Self)
        ensures
            r.cards@ == slots_of(scan(s@), N as nat),
            r.excluded@ == empty_slots(NUM_CARDS as nat),
    {
        let v = chars_of(s);
        let (found, _) = tokenize(&v);
        Self::fill(&found)
    }

    /// The first `N` of `cards` in order, the slots left over empty.
    pub(crate) fn fill(cards: &Vec<Card>) -> (r: Self)
        ensures
            r.cards@ == slots_of(cards@, N as nat),
            r.excluded@ == empty_slots(NUM_CARDS as nat),
    {
        let mut r = Self::new();
        let mut i: usize = 0;
        while i < N && i < cards.len()
            invariant
                i <= N,
                i <= cards@.len(),
                r.excluded@ == empty_slots(NUM_CARDS as nat),
                forall|k: int| 0 <= k < i ==> r.cards@[k] == Some(cards@[k]),
                forall|k: int| i <= k < N ==> r.cards@[k] == None::<Card>,
            decreases N - i,
        {
            r.cards[i] = Some(cards[i]);
            i = i + 1;
        }
        assert(r.cards@ =~= slots_of(cards@, N as nat));
        r
    }
}

impl<const N: usize> std::str::FromStr for CardCollection<N> {
    type Err = &'static str;

    fn from_str(s: &str) -> (r: Result<Self, &'static str>)
        ensures
            r matches Ok(c) && c.cards@ == slots_of(scan(s@), N as nat) && c.excluded@
                == empty_slots(NUM_CARDS as nat),
    {
        Ok(CardCollection::decode(s))
    }
}

} // verus!

verus! {

proof fn lemma_slot_counts(c: Seq<Card>, n: nat)
    requires
        c.len() <= n,
    ensures
        forall|x: Card| #[trigger]
            slots_of(c, n).to_multiset().count(Some(x)) == c.to_multiset().count(x),
        slots_of(c, n).to_multiset().count(None) == n - c.len(),
    decreases n,
{
    broadcast use vstd::seq_lib::group_to_multiset_ensures;

    if n > 0 {
        if c.len() == n {
            let c0 = c.drop_last();
            lemma_slot_counts(c0, (n - 1) as nat);
            assert(slots_of(c, n) =~= slots_of(c0, (n - 1) as nat).push(Some(c.last())));
            assert(c =~= c0.push(c.last()));
            vstd::seq_lib::to_multiset_build(c0, c.last());
            vstd::seq_lib::to_multiset_build(slots_of(c0, (n - 1) as nat), Some(c.last()));
        } else {
            lemma_slot_counts(c, (n - 1) as nat);
            assert(slots_of(c, n) =~= slots_of(c, (n - 1) as nat).push(None));
            vstd::seq_lib::to_multiset_build(slots_of(c, (n - 1) as nat), None);
        }
    } else {
        assert(slots_of(c, n) =~= Seq::<Option<Card>>::empty());
        assert(c =~= Seq::<Card>::empty());
    }
}

/// Decoding is blind to the order of the cards found: two texts in which
/// the same cards are found equally often, no more than fit, decode to
/// equal collections.
pub proof fn lemma_decode_ignores_order(s: Seq<char>, t: Seq<char>, n: nat)
    requires
        scan(s).to_multiset() == scan(t).to_multiset(),
        scan(s).len() <= n,
    ensures
        same_slots(slots_of(scan(s), n), slots_of(scan(t), n)),
{
    broadcast use vstd::seq_lib::group_to_multiset_ensures;

    assert(scan(t).len() == scan(s).len()) by {
        assert(scan(s).len() == scan(s).to_multiset().len());
        assert(scan(t).len() == scan(t).to_multiset().len());
    }
    lemma_slot_counts(scan(s), n);
    lemma_slot_counts(scan(t), n);
    assert forall|x: Option<Card>| #[trigger]
        slots_of(scan(s), n).to_multiset().count(x) == slots_of(scan(t), n).to_multiset().count(
            x,
        ) by {
        if let Some(y) = x {
            assert(scan(s).to_multiset().count(y) == scan(t).to_multiset().count(y));
        }
    }
    assert(slots_of(scan(s), n).to_multiset() =~= slots_of(scan(t), n).to_multiset());
}

/// Decoding counts empty slots: two texts in which different numbers of
/// cards are found, none more than fit, decode to unequal collections.
pub proof fn lemma_decode_counts_empty_slots(s: Seq<char>, t: Seq<char>, n: nat)
    requires
        scan(s).len() <= n,
        scan(t).len() <= n,
        scan(s).len() != scan(t).len(),
    ensures
        !same_slots(slots_of(scan(s), n), slots_of(scan(t), n)),
{
    lemma_slot_counts(scan(s), n);
    lemma_slot_counts(scan(t), n);
}

/// Decoding the empty text gives the empty collection.
pub proof fn lemma_decode_empty_text(n: nat)
    ensures
        slots_of(scan(Seq::<char>::empty()), n) == empty_slots(n),
{
    assert(slots_of(scan(Seq::<char>::empty()), n) =~= empty_slots(n));
}

/// Decoding keeps the first `n` cards found, in order, and drops the rest.
pub proof fn lemma_decode_truncates(s: Seq<char>, n: nat)
    requires
        scan(s).len() >= n,
    ensures
        slots_of(scan(s), n) == scan(s).take(n as int).map_values(|c: Card| Some(c)),
{
    assert(slots_of(scan(s), n) =~= scan(s).take(n as int).map_values(|c: Card| Some(c)));
}

} // verus!

verus! {

proof fn lemma_no_codes_scan_empty(s: Seq<char>, i: int)
    requires
        0 <= i,
        forall|j: int| 0 <= j < s.len() ==> #[trigger] token_len(s, j) == 0,
    ensures
        scan_from(s, i) == Seq::<Card>::empty(),
    decreases s.len() - i,
{
    if i < s.len() {
        assert(token_len(s, i) == 0);
        lemma_no_codes_scan_empty(s, i + 1);
    }
}

/// Characters where no card code starts are skipped: a text in which no
/// code starts anywhere decodes to empty slots, whatever the capacity.
pub proof fn lemma_decode_skips_noise(s: Seq<char>, n: nat)
    requires
        forall|j: int| 0 <= j < s.len() ==> #[trigger] token_len(s, j) == 0,
    ensures
        slots_of(scan(s), n) == empty_slots(n),
{
    lemma_no_codes_scan_empty(s, 0);
    assert(slots_of(scan(s), n) =~= empty_slots(n));
}

} // verus!

verus! {

impl<'a, const N: usize> TryFrom<&'a Vec<Card>> for CardCollection<N> {
    type Error = &'static str;

    fn try_from(cards: &'a Vec<Card>) -> (r: Result<Self, &'static str>)
        ensures
            r is Ok <==> cards@.len() == N,
            r matches Ok(c) ==> c.cards@ == slots_of(cards@, N as nat) && c.excluded@
                == empty_slots(NUM_CARDS as nat),
            r matches Err(m) ==> m@ == message_text(ParseError::InvalidLength),
    {
        match CardCollection::from_cards(cards) {
            Ok(c) => Ok(c),
            Err(e) => Err(e.message()),
        }
    }
}

/// What `try_from` returns is stated on `from_cards`, which it forwards to.
impl<'a, const N: usize> vstd::std_specs::convert::TryFromSpecImpl<&'a Vec<Card>> for CardCollection<N> {
    open spec fn obeys_try_from_spec() -> bool {
        false
    }

    open spec fn try_from_spec(cards: &'a Vec<Card>) -> Result<Self, &'static str> {
        arbitrary()
    }
}

} // verus!

verus! {

proof fn lemma_permuted_multiset<A>(a: Seq<A>, b: Seq<A>, perm: Seq<int>)
    requires
        a.len() == b.len(),
        perm.len() == b.len(),
        forall|i: int| 0 <= i < perm.len() ==> 0 <= #[trigger] perm[i] < a.len(),
        forall|i: int, j: int| 0 <= i < j < perm.len() ==> #[trigger] perm[i] != #[trigger] perm[j],
        forall|i: int| 0 <= i < b.len() ==> #[trigger] b[i] == a[perm[i]],
    ensures
        a.to_multiset() == b.to_multiset(),
    decreases b.len(),
{
    broadcast use vstd::seq_lib::group_to_multiset_ensures;
    broadcast use vstd::multiset::group_multiset_axioms;

    if b.len() == 0 {
        assert(a =~= Seq::<A>::empty());
        assert(b =~= Seq::<A>::empty());
    } else {
        let n = b.len() - 1;
        let p = perm[n];
        let a2 = a.remove(p);
        let b2 = b.drop_last();
        let perm2 = Seq::new(
            n as nat,
            |i: int|
                if perm[i] > p {
                    perm[i] - 1
                } else {
                    perm[i]
                },
        );
        assert forall|i: int| 0 <= i < perm2.len() implies 0 <= #[trigger] perm2[i] < a2.len() by {
            assert(perm[i] != perm[n]);
        }
        assert forall|i: int, j: int| 0 <= i < j < perm2.len() implies #[trigger] perm2[i]
            != #[trigger] perm2[j] by {
            assert(perm[i] != perm[j]);
            assert(perm[i] != perm[n]);
            assert(perm[j] != perm[n]);
        }
        assert forall|i: int| 0 <= i < b2.len() implies #[trigger] b2[i] == a2[perm2[i]] by {
            assert(perm[i] != perm[n]);
            assert(b[i] == a[perm[i]]);
        }
        lemma_permuted_multiset(a2, b2, perm2);
        vstd::seq_lib::to_multiset_remove(a, p);
        assert(b =~= b2.push(b[n]));
        vstd::seq_lib::to_multiset_build(b2, b[n]);
        assert(b[n] == a[p]);
        assert(a.to_multiset().count(a[p]) > 0);
        assert(a.to_multiset() =~= a.to_multiset().remove(a[p]).insert(a[p]));
    }
}

/// Slot order never matters: a collection whose slots are those of `a`
/// rearranged by the bijection `perm` on `0..N`, with the same excluded
/// set, is equal to `a`.
pub proof fn lemma_permuted_slots_equal<const N: usize>(
    a: CardCollection<N>,
    b: CardCollection<N>,
    perm: Seq<int>,
)
    requires
        perm.len() == N,
        forall|i: int| 0 <= i < N ==> 0 <= #[trigger] perm[i] < N,
        forall|i: int, j: int| 0 <= i < j < N ==> #[trigger] perm[i] != #[trigger] perm[j],
        forall|i: int| 0 <= i < N ==> #[trigger] b.cards@[i] == a.cards@[perm[i]],
        b.excluded@ == a.excluded@,
    ensures
        a.eq_spec(&b),
{
    lemma_permuted_multiset(a.cards@, b.cards@, perm);
}

} // verus!

verus! {

/// The cards in the filled slots of `slots`, in order.
pub open spec fn filled(slots: Seq<Option<Card>>) -> Seq<Card>
    decreases slots.len(),
{
    if slots.len() == 0 {
        seq![]
    } else if slots.last() is Some {
        filled(slots.drop_last()).push(slots.last()->Some_0)
    } else {
        filled(slots.drop_last())
    }
}

/// The codes of `cards`, separated by single spaces.
pub open spec fn joined(cards: Seq<Card>) -> Seq<char>
    decreases cards.len(),
{
    if cards.len() == 0 {
        seq![]
    } else if cards.len() == 1 {
        code(cards[0])
    } else {
        joined(cards.drop_last()) + " "@ + code(cards.last())
    }
}

/// The decimal digit `d`.
pub open spec fn digit_char(d: nat) -> char {
    if d == 0 {
        '0'
    } else if d == 1 {
        '1'
    } else if d == 2 {
        '2'
    } else if d == 3 {
        '3'
    } else if d == 4 {
        '4'
    } else if d == 5 {
        '5'
    } else if d == 6 {
        '6'
    } else if d == 7 {
        '7'
    } else if d == 8 {
        '8'
    } else {
        '9'
    }
}

/// `n` written in decimal.
pub open spec fn decimal(n: nat) -> Seq<char>
    decreases n,
{
    if n < 10 {
        seq![digit_char(n)]
    } else {
        decimal(n / 10).push(digit_char(n % 10))
    }
}

/// The diagnostic text of a collection with slots `cards` and excluded set
/// `excluded`: the codes of each part's cards, then its number of empty
/// slots.
pub open spec fn collection_text(cards: Seq<Option<Card>>, excluded: Seq<Option<Card>>) -> Seq<
    char,
> {
    "CardCollection { cards: "@ + joined(filled(cards)) + " + "@ + decimal(
        (cards.len() - filled(cards).len()) as nat,
    ) + " None, excluded: "@ + joined(filled(excluded)) + " + "@ + decimal(
        (excluded.len() - filled(excluded).len()) as nat,
    ) + " None }"@
}

fn digit_str(d: usize) -> (r: &'static str)
    requires
        d < 10,
    ensures
        r@ == seq![digit_char(d as nat)],
{
    if d == 0 {
        proof { reveal_strlit("0"); }
        "0"
    } else if d == 1 {
        proof { reveal_strlit("1"); }
        "1"
    } else if d == 2 {
        proof { reveal_strlit("2"); }
        "2"
    } else if d == 3 {
        proof { reveal_strlit("3"); }
        "3"
    } else if d == 4 {
        proof { reveal_strlit("4"); }
        "4"
    } else if d == 5 {
        proof { reveal_strlit("5"); }
        "5"
    } else if d == 6 {
        proof { reveal_strlit("6"); }
        "6"
    } else if d == 7 {
        proof { reveal_strlit("7"); }
        "7"
    } else if d == 8 {
        proof { reveal_strlit("8"); }
        "8"
    } else {
        proof { reveal_strlit("9"); }
        "9"
    }
}

fn append_decimal(out: &mut String, n: usize)
    ensures
        final(out)@ == old(out)@ + decimal(n as nat),
    decreases n,
{
    if n >= 10 {
        append_decimal(out, n / 10);
    }
    out.append(digit_str(n % 10));
    if n >= 10 {
        assert(final(out)@ =~= old(out)@ + decimal(n as nat));
    } else {
        assert(final(out)@ =~= old(out)@ + decimal(n as nat));
    }
}

proof fn lemma_filled_len(slots: Seq<Option<Card>>)
    ensures
        filled(slots).len() <= slots.len(),
    decreases slots.len(),
{
    if slots.len() > 0 {
        lemma_filled_len(slots.drop_last());
    }
}

/// Appends the codes of the cards in `slots`; returns how many there are.
fn append_slots<const M: usize>(out: &mut String, slots: &[Option<Card>; M]) -> (n: usize)
    ensures
        final(out)@ == old(out)@ + joined(filled(slots@)),
        n == filled(slots@).len(),
        n <= M,
{
    let ghost start = out@;
    let mut n: usize = 0;
    let mut i: usize = 0;
    assert(slots@.take(0) =~= Seq::<Option<Card>>::empty());
    while i < M
        invariant
            i <= M,
            slots@.len() == M,
            out@ == start + joined(filled(slots@.take(i as int))),
            n == filled(slots@.take(i as int)).len(),
            n <= i,
        decreases M - i,
    {
        assert(slots@.take(i + 1).drop_last() =~= slots@.take(i as int));
        let ghost before = filled(slots@.take(i as int));
        proof {
            lemma_filled_len(slots@.take(i as int));
        }
        match slots[i] {
            Some(c) => {
                if n > 0 {
                    out.append(" ");
                }
                out.append(c.to_code());
                assert(before.push(c).drop_last() =~= before);
                if n == 0 {
                    assert(before =~= Seq::<Card>::empty());
                    assert(out@ =~= start + joined(before.push(c)));
                } else {
                    assert(out@ =~= start + joined(before.push(c)));
                }
                n = n + 1;
            },
            None => {},
        }
        i = i + 1;
    }
    assert(slots@.take(M as int) =~= slots@);
    n
}

impl<const N: usize> CardCollection<N> {
    /// A diagnostic text: the codes of the cards in the slots and how many
    /// slots are empty, then the same for the excluded set.
    pub fn describe(&self) -> (r: String)
        ensures
            r@ == collection_text(self.cards@, self.excluded@),
    {
        let mut out = String::new();
        out.append("CardCollection { cards: ");
        let n = append_slots(&mut out, &self.cards);
        out.append(" + ");
        append_decimal(&mut out, N - n);
        out.append(" None, excluded: ");
        let m = append_slots(&mut out, &self.excluded);
        out.append(" + ");
        append_decimal(&mut out, NUM_CARDS - m);
        out.append(" None }");
        assert(out@ =~= collection_text(self.cards@, self.excluded@));
        out
    }
}

} // verus!
