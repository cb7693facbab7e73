//! Lexicographic order of strings and optional strings, as Rust's derived
//! `Ord` orders `String` (by character code) and `Option` (`None` first).
use vstd::prelude::*;

verus! {

/// The outcome of a comparison.
#[derive(Clone, Copy, Debug, PartialEq, Eq, Structural)]
pub enum Comparison {
    Less,
    Equal,
    Greater,
}

/// `a` sorts before `b`, looking from position `i` on, given equal
/// characters before `i`.
pub open spec fn lt_from(a: Seq<char>, b: Seq<char>, i: int) -> bool
    decreases a.len() - i,
{
    if i >= a.len() {
        i < b.len()
    } else if i >= b.len() {
        false
    } else if a[i] < b[i] {
        true
    } else if a[i] > b[i] {
        false
    } else {
        lt_from(a, b, i + 1)
    }
}

/// `a` sorts before `b`: at the first difference `a` has the smaller
/// character, or `a` is a proper prefix of `b`.
pub open spec fn str_lt(a: Seq<char>, b: Seq<char>) -> bool {
    lt_from(a, b, 0)
}

/// `None` sorts first; two strings sort by `str_lt`.
pub open spec fn opt_lt(a: Option<Seq<char>>, b: Option<Seq<char>>) -> bool {
    match (a, b) {
        (None, Some(_)) => true,
        (Some(x), Some(y)) => str_lt(x, y),
        _ => false,
    }
}

proof fn lemma_lt_from_irreflexive(a: Seq<char>, i: int)
    requires
        0 <= i,
    ensures
        !lt_from(a, a, i),
    decreases a.len() - i,
{
    if i < a.len() {
        lemma_lt_from_irreflexive(a, i + 1);
    }
}

proof fn lemma_lt_from_trans(a: Seq<char>, b: Seq<char>, c: Seq<char>, i: int)
    requires
        0 <= i,
        lt_from(a, b, i),
        lt_from(b, c, i),
    ensures
        lt_from(a, c, i),
    decreases a.len() - i,
{
    if i < a.len() && i < b.len() && i < c.len() {
        if a[i] == b[i] && b[i] == c[i] {
            lemma_lt_from_trans(a, b, c, i + 1);
        }
    }
}

proof fn lemma_lt_from_total(a: Seq<char>, b: Seq<char>, i: int)
    requires
        0 <= i <= a.len(),
        i <= b.len(),
        a.subrange(0, i) == b.subrange(0, i),
    ensures
        lt_from(a, b, i) || lt_from(b, a, i) || a == b,
        !(lt_from(a, b, i) && lt_from(b, a, i)),
    decreases a.len() - i,
{
    if i < a.len() && i < b.len() {
        if a[i] == b[i] {
            assert(a[i] == b[i]);
            assert(a.subrange(0, i + 1) =~= a.subrange(0, i).push(a[i]));
            assert(b.subrange(0, i + 1) =~= b.subrange(0, i).push(b[i]));
            lemma_lt_from_total(a, b, i + 1);
        }
    } else if i == a.len() && i == b.len() {
        assert(a =~= a.subrange(0, i));
        assert(b =~= b.subrange(0, i));
    }
}

/// The string order is a strict total order.
pub proof fn lemma_str_order(a: Seq<char>, b: Seq<char>, c: Seq<char>)
    ensures
        !str_lt(a, a),
        str_lt(a, b) && str_lt(b, c) ==> str_lt(a, c),
        str_lt(a, b) || str_lt(b, a) || a == b,
        !(str_lt(a, b) && str_lt(b, a)),
{
    lemma_lt_from_irreflexive(a, 0);
    if str_lt(a, b) && str_lt(b, c) {
        lemma_lt_from_trans(a, b, c, 0);
    }
    assert(a.subrange(0, 0) =~= b.subrange(0, 0));
    lemma_lt_from_total(a, b, 0);
}

/// The optional-string order is a strict total order.
pub proof fn lemma_opt_order(a: Option<Seq<char>>, b: Option<Seq<char>>, c: Option<Seq<char>>)
    ensures
        !opt_lt(a, a),
        opt_lt(a, b) && opt_lt(b, c) ==> opt_lt(a, c),
        opt_lt(a, b) || opt_lt(b, a) || a == b,
        !(opt_lt(a, b) && opt_lt(b, a)),
{
    match (a, b, c) {
        (Some(x), Some(y), Some(z)) => lemma_str_order(x, y, z),
        (Some(x), Some(y), None) => lemma_str_order(x, y, x),
        (Some(x), None, Some(z)) => lemma_str_order(x, z, x),
        (None, Some(y), Some(z)) => lemma_str_order(y, z, y),
        (Some(x), None, None) => lemma_str_order(x, x, x),
        (None, Some(y), None) => lemma_str_order(y, y, y),
        (None, None, Some(z)) => lemma_str_order(z, z, z),
        (None, None, None) => {},
    }
}

/// Compares two character sequences in string order.
pub fn compare_chars(a: &Vec<char>, b: &Vec<char>) -> (r: Comparison)
    ensures
        (r == Comparison::Less) == str_lt(a@, b@),
        (r == Comparison::Equal) == (a@ == b@),
        (r == Comparison::Greater) == str_lt(b@, a@),
{
    proof {
        lemma_str_order(a@, b@, a@);
    }
    let mut i: usize = 0;
    while i < a.len() && i < b.len()
        invariant
            i <= a.len(),
            i <= b.len(),
            a@.subrange(0, i as int) == b@.subrange(0, i as int),
            str_lt(a@, b@) == lt_from(a@, b@, i as int),
            str_lt(b@, a@) == lt_from(b@, a@, i as int),
        decreases a.len() - i,
    {
        let x = a[i];
        let y = b[i];
        if x < y {
            return Comparison::Less;
        }
        if x > y {
            return Comparison::Greater;
        }
        assert(a@[i as int] == b@[i as int]);
        assert(a@.subrange(0, i + 1) =~= a@.subrange(0, i as int).push(a@[i as int]));
        assert(b@.subrange(0, i + 1) =~= b@.subrange(0, i as int).push(b@[i as int]));
        i = i + 1;
    }
    if a.len() < b.len() {
        Comparison::Less
    } else if b.len() < a.len() {
        Comparison::Greater
    } else {
        assert(a@ =~= a@.subrange(0, i as int));
        assert(b@ =~= b@.subrange(0, i as int));
        Comparison::Equal
    }
}

/// Compares two optional character sequences: `None` first.
pub fn compare_opt_chars(a: &Option<Vec<char>>, b: &Option<Vec<char>>) -> (r: Comparison)
    ensures
        (r == Comparison::Less) == opt_lt(opt_view(*a), opt_view(*b)),
        (r == Comparison::Equal) == (opt_view(*a) == opt_view(*b)),
        (r == Comparison::Greater) == opt_lt(opt_view(*b), opt_view(*a)),
{
    match (a, b) {
        (None, None) => Comparison::Equal,
        (None, Some(_)) => Comparison::Less,
        (Some(_), None) => Comparison::Greater,
        (Some(x), Some(y)) => compare_chars(x, y),
    }
}

/// The view of an optional character vector.
pub open spec fn opt_view(o: Option<Vec<char>>) -> Option<Seq<char>> {
    match o {
        Some(v) => Some(v@),
        None => None,
    }
}

/// The view of an optional string.
pub open spec fn opt_string_view(o: Option<String>) -> Option<Seq<char>> {
    match o {
        Some(s) => Some(s@),
        None => None,
    }
}

/// The characters of an optional string.
pub fn opt_chars(o: &Option<String>) -> (r: Option<Vec<char>>)
    ensures
        opt_view(r) == opt_string_view(*o),
{
    match o {
        Some(s) => Some(crate::text::chars_of(s.as_str())),
        None => None,
    }
}

} // verus!
