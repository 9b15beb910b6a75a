use vstd::prelude::*;

verus! {

/// Upper case of one character where that is a single ASCII letter: `a` to
/// `z`, the long s (upper case `S`) and the dotless i (upper case `I`).
/// Every other character is kept. The upper case of those others is not
/// ASCII, or is one of a few ligature spellings (`FF`, `FI`, `FL`, `FFI`,
/// `FFL`, `ST`) that are part of no code.
pub open spec fn upper(c: char) -> char {
    if 'a' <= c && c <= 'z' {
        (((c as u32) - 32) as u8) as char
    } else if c == '\u{17f}' {
        'S'
    } else if c == '\u{131}' {
        'I'
    } else {
        c
    }
}

/// ASCII lower case of one character; every other character is kept.
pub open spec fn lower(c: char) -> char {
    if 'A' <= c && c <= 'Z' {
        (((c as u32) + 32) as u8) as char
    } else {
        c
    }
}

/// `s` in upper case, as `upper` folds each character.
pub open spec fn upper_seq(s: Seq<char>) -> Seq<char> {
    s.map_values(|c: char| upper(c))
}

/// `s` in ASCII lower case.
pub open spec fn lower_seq(s: Seq<char>) -> Seq<char> {
    s.map_values(|c: char| lower(c))
}

/// Upper case of `c`, as `upper` folds it.
pub fn to_upper(c: char) -> (r: char)
    ensures
        r == upper(c),
{
    if 'a' <= c && c <= 'z' {
        (((c as u32) - 32) as u8) as char
    } else if c == '\u{17f}' {
        'S'
    } else if c == '\u{131}' {
        'I'
    } else {
        c
    }
}

/// The characters of `s`, one slot each.
pub fn chars_of(s: &str) -> (r: Vec<char>)
    ensures
        r@ == s@,
{
    let mut r: Vec<char> = Vec::new();
    for c in it: s.chars()
        invariant
            r@ == it.seq().take(it.index() as int),
            it.seq() == s@,
    {
        r.push(c);
    }
    r
}

} // verus!

verus! {

/// Whether `c` is white space in the Unicode sense.
pub open spec fn is_ws(c: char) -> bool {
    c == ' ' || ('\t' <= c && c <= '\r') || c == '\u{85}' || c == '\u{a0}' || c == '\u{1680}'
        || ('\u{2000}' <= c && c <= '\u{200a}') || c == '\u{2028}' || c == '\u{2029}' || c
        == '\u{202f}' || c == '\u{205f}' || c == '\u{3000}'
}

fn white(c: char) -> (r: bool)
    ensures
        r == is_ws(c),
{
    c == ' ' || ('\t' <= c && c <= '\r') || c == '\u{85}' || c == '\u{a0}' || c == '\u{1680}'
        || ('\u{2000}' <= c && c <= '\u{200a}') || c == '\u{2028}' || c == '\u{2029}' || c
        == '\u{202f}' || c == '\u{205f}' || c == '\u{3000}'
}

/// Reading `s` left to right: the bounds of the words already closed, and
/// where the word being read began, if one is.
pub open spec fn ws_state(s: Seq<char>) -> (Seq<(int, int)>, Option<int>)
    decreases s.len(),
{
    if s.len() == 0 {
        (seq![], None)
    } else {
        let (done, open) = ws_state(s.drop_last());
        let i = s.len() - 1;
        if is_ws(s[i]) {
            match open {
                Some(a) => (done.push((a, i)), None),
                None => (done, None),
            }
        } else {
            match open {
                Some(a) => (done, Some(a)),
                None => (done, Some(i)),
            }
        }
    }
}

/// Bounds of the maximal runs of non-white characters of `s`, in order.
pub open spec fn field_ranges(s: Seq<char>) -> Seq<(int, int)> {
    let (done, open) = ws_state(s);
    match open {
        Some(a) => done.push((a, s.len() as int)),
        None => done,
    }
}

/// The words of `s`: its maximal runs of non-white characters, in order.
pub open spec fn fields(s: Seq<char>) -> Seq<Seq<char>> {
    field_ranges(s).map_values(|r: (int, int)| s.subrange(r.0, r.1))
}

/// Word bounds as integers.
pub open spec fn int_pairs(v: Seq<(usize, usize)>) -> Seq<(int, int)> {
    v.map_values(|p: (usize, usize)| (p.0 as int, p.1 as int))
}

/// Positions as integers.
pub open spec fn ints(v: Seq<usize>) -> Seq<int> {
    v.map_values(|x: usize| x as int)
}

/// Bounds of the words of `s`.
pub fn field_bounds(s: &Vec<char>) -> (r: Vec<(usize, usize)>)
    ensures
        int_pairs(r@) == field_ranges(s@),
        forall|k: int| 0 <= k < r@.len() ==> #[trigger] r@[k].0 <= r@[k].1 <= s@.len(),
{
    let mut done: Vec<(usize, usize)> = Vec::new();
    let mut open: Option<usize> = None;
    let mut i: usize = 0;
    assert(s@.take(0) =~= Seq::<char>::empty());
    while i < s.len()
        invariant
            i <= s@.len(),
            int_pairs(done@) == ws_state(s@.take(i as int)).0,
            match open {
                Some(a) => ws_state(s@.take(i as int)).1 == Some(a as int) && a < i,
                None => ws_state(s@.take(i as int)).1 == None::<int>,
            },
            forall|k: int| 0 <= k < done@.len() ==> #[trigger] done@[k].0 <= done@[k].1 <= i,
        decreases s@.len() - i,
    {
        assert(s@.take(i + 1).drop_last() =~= s@.take(i as int));
        let ghost before = done@;
        if white(s[i]) {
            match open {
                Some(a) => {
                    done.push((a, i));
                    assert(int_pairs(done@) =~= int_pairs(before).push((a as int, i as int)));
                },
                None => {},
            }
            open = None;
        } else {
            if open.is_none() {
                open = Some(i);
            }
        }
        i = i + 1;
    }
    assert(s@.take(i as int) =~= s@);
    match open {
        Some(a) => {
            let ghost before = done@;
            done.push((a, s.len()));
            assert(int_pairs(done@) =~= int_pairs(before).push((a as int, s@.len() as int)));
        },
        None => {},
    }
    done
}

/// Positions of `d` in `s`, in order.
pub open spec fn cut_points(s: Seq<char>, d: char) -> Seq<int>
    decreases s.len(),
{
    if s.len() == 0 {
        seq![]
    } else if s.last() == d {
        cut_points(s.drop_last(), d).push(s.len() - 1)
    } else {
        cut_points(s.drop_last(), d)
    }
}

/// The `k`-th piece of `s` cut at each `d` (pieces may be empty).
pub open spec fn piece(s: Seq<char>, d: char, k: int) -> Seq<char> {
    let c = cut_points(s, d);
    let a = if k == 0 {
        0
    } else {
        c[k - 1] + 1
    };
    let b = if k == c.len() {
        s.len() as int
    } else {
        c[k]
    };
    s.subrange(a, b)
}

proof fn lemma_cut_points_bounds(s: Seq<char>, d: char)
    ensures
        forall|k: int| 0 <= k < cut_points(s, d).len() ==> 0 <= #[trigger] cut_points(s, d)[k] < s.len(),
        forall|k: int, j: int| 0 <= k < j < cut_points(s, d).len() ==> cut_points(s, d)[k] < cut_points(s, d)[j],
        forall|k: int| 0 <= k < cut_points(s, d).len() ==> s[#[trigger] cut_points(s, d)[k]] == d,
    decreases s.len(),
{
    if s.len() > 0 {
        let p = s.drop_last();
        lemma_cut_points_bounds(p, d);
        assert(forall|k: int| 0 <= k < p.len() ==> p[k] == s[k]);
        if s.last() == d {
            assert(cut_points(s, d) == cut_points(p, d).push(s.len() - 1));
        } else {
            assert(cut_points(s, d) == cut_points(p, d));
        }
    }
}

/// Positions of `d` in `s`.
pub fn cuts(s: &Vec<char>, d: char) -> (r: Vec<usize>)
    ensures
        ints(r@) == cut_points(s@, d),
{
    let mut r: Vec<usize> = Vec::new();
    let mut i: usize = 0;
    assert(s@.take(0) =~= Seq::<char>::empty());
    while i < s.len()
        invariant
            i <= s@.len(),
            ints(r@) == cut_points(s@.take(i as int), d),
        decreases s@.len() - i,
    {
        assert(s@.take(i + 1).drop_last() =~= s@.take(i as int));
        if s[i] == d {
            let ghost before = r@;
            r.push(i);
            assert(ints(r@) =~= ints(before).push(i as int));
        }
        i = i + 1;
    }
    assert(s@.take(i as int) =~= s@);
    r
}

/// The characters `s[a..b]`.
pub fn slice_chars(s: &Vec<char>, a: usize, b: usize) -> (r: Vec<char>)
    requires
        a <= b <= s@.len(),
    ensures
        r@ == s@.subrange(a as int, b as int),
{
    let mut r: Vec<char> = Vec::new();
    let mut i: usize = a;
    while i < b
        invariant
            a <= i <= b <= s@.len(),
            r@ == s@.subrange(a as int, i as int),
        decreases b - i,
    {
        r.push(s[i]);
        i = i + 1;
        assert(r@ =~= s@.subrange(a as int, i as int));
    }
    r
}

/// The `k`-th piece of `s` cut at each `d`, where `c` holds the cuts.
pub fn piece_of(s: &Vec<char>, c: &Vec<usize>, d: char, k: usize) -> (r: Vec<char>)
    requires
        ints(c@) == cut_points(s@, d),
        k <= c@.len(),
    ensures
        r@ == piece(s@, d, k as int),
{
    proof {
        lemma_cut_points_bounds(s@, d);
    }
    assert(forall|j: int| 0 <= j < c@.len() ==> c@[j] as int == #[trigger] cut_points(s@, d)[j]) by {
        assert(forall|j: int| 0 <= j < c@.len() ==> c@[j] as int == #[trigger] ints(c@)[j]);
    }
    assert forall|j: int| 0 <= j < c@.len() implies #[trigger] c@[j] < s@.len() by {
        assert(c@[j] as int == cut_points(s@, d)[j]);
    }
    let n = s.len();
    let a = if k == 0 {
        0
    } else {
        assert(c@[k - 1] < s@.len());
        c[k - 1] + 1
    };
    let b = if k == c.len() {
        n
    } else {
        c[k]
    };
    assert(a <= b) by {
        if 0 < k < c@.len() {
            assert(cut_points(s@, d)[k - 1] < cut_points(s@, d)[k as int]);
        }
    }
    slice_chars(s, a, b)
}

} // verus!
