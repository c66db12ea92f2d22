//! Byte-level text primitives: searching, trimming and splitting header text.
//!
//! Header values are handled as raw bytes. Every executable function here is
//! proved equal to a small recursive specification, so the parser built on top
//! can be specified purely over `Seq<u8>`.

use vstd::prelude::*;

verus! {

use vstd::slice::slice_subrange;
use vstd::slice::slice_to_vec;

/// The views of a vector of byte vectors, element by element.
pub open spec fn views_of(v: Vec<Vec<u8>>) -> Seq<Seq<u8>> {
    Seq::new(v@.len(), |i: int| v@[i]@)
}

/// ASCII whitespace: space, horizontal tab, line feed, vertical tab,
/// form feed and carriage return.
pub open spec fn is_space(b: u8) -> bool {
    b == 32 || (9 <= b <= 13)
}

/// Index of the first occurrence of `c` in `s`, or `s.len()` when `c` does
/// not occur.
pub open spec fn find_or_len(s: Seq<u8>, c: u8) -> nat
    decreases s.len(),
{
    if s.len() == 0 {
        0
    } else if s[0] == c {
        0
    } else {
        1 + find_or_len(s.skip(1), c)
    }
}

/// `find_or_len` returns the position of the first occurrence, if any.
pub proof fn lemma_find_or_len(s: Seq<u8>, c: u8)
    ensures
        find_or_len(s, c) <= s.len(),
        find_or_len(s, c) < s.len() ==> s[find_or_len(s, c) as int] == c,
        forall|j: int| 0 <= j < find_or_len(s, c) ==> s[j] != c,
    decreases s.len(),
{
    if s.len() > 0 && s[0] != c {
        lemma_find_or_len(s.skip(1), c);
        assert forall|j: int| 0 <= j < find_or_len(s, c) implies s[j] != c by {
            if j > 0 {
                assert(s.skip(1)[j - 1] == s[j]);
                assert(s.skip(1)[j - 1] != c);
            }
        }
    }
}

/// Finds the first occurrence of `c` in `s`, returning `s.len()` when absent.
pub fn find_byte(s: &[u8], c: u8) -> (r: usize)
    ensures
        r == find_or_len(s@, c),
{
    proof {
        lemma_find_or_len(s@, c);
    }
    let n = s.len();
    let mut i: usize = 0;
    while i < n
        invariant
            n == s@.len(),
            0 <= i <= n,
            forall|j: int| 0 <= j < i ==> s@[j] != c,
            find_or_len(s@, c) <= n,
            find_or_len(s@, c) < n ==> s@[find_or_len(s@, c) as int] == c,
            forall|j: int| 0 <= j < find_or_len(s@, c) ==> s@[j] != c,
        decreases n - i,
    {
        if s[i] == c {
            proof {
                if find_or_len(s@, c) < i {
                    assert(s@[find_or_len(s@, c) as int] == c);
                }
            }
            return i;
        }
        i = i + 1;
    }
    i
}

/// `s` with leading whitespace removed.
pub open spec fn trim_front(s: Seq<u8>) -> Seq<u8>
    decreases s.len(),
{
    if s.len() > 0 && is_space(s[0]) {
        trim_front(s.skip(1))
    } else {
        s
    }
}

/// `s` with trailing whitespace removed.
pub open spec fn trim_back(s: Seq<u8>) -> Seq<u8>
    decreases s.len(),
{
    if s.len() > 0 && is_space(s[s.len() - 1]) {
        trim_back(s.drop_last())
    } else {
        s
    }
}

/// `s` with leading and trailing whitespace removed.
pub open spec fn trim_spec(s: Seq<u8>) -> Seq<u8> {
    trim_back(trim_front(s))
}

/// Whether `b` is ASCII whitespace.
fn is_space_byte(b: u8) -> (r: bool)
    ensures
        r == is_space(b),
{
    b == 32 || (9 <= b && b <= 13)
}

/// Removes leading and trailing ASCII whitespace.
pub fn trim<'a>(s: &'a [u8]) -> (r: &'a [u8])
    ensures
        r@ == trim_spec(s@),
{
    let n = s.len();
    let mut lo: usize = 0;
    proof {
        assert(s@.skip(0) =~= s@);
    }
    while lo < n && is_space_byte(s[lo])
        invariant
            n == s@.len(),
            0 <= lo <= n,
            trim_front(s@) == trim_front(s@.skip(lo as int)),
        decreases n - lo,
    {
        proof {
            assert(is_space(s@[lo as int]));
            assert(s@.skip(lo as int).skip(1) =~= s@.skip(lo as int + 1));
        }
        lo = lo + 1;
    }
    proof {
        if lo < n {
            assert(!is_space(s@.skip(lo as int)[0]));
        }
        assert(trim_front(s@) == s@.skip(lo as int));
    }
    let ghost t = s@.skip(lo as int);
    let mut hi: usize = n;
    proof {
        assert(t.take(n - lo) =~= t);
    }
    while hi > lo && is_space_byte(s[hi - 1])
        invariant
            n == s@.len(),
            t == s@.skip(lo as int),
            lo <= hi <= n,
            trim_back(t) == trim_back(t.take(hi - lo)),
        decreases hi,
    {
        proof {
            let u = t.take(hi - lo);
            assert(u[u.len() - 1] == s@[hi - 1]);
            assert(is_space(u[u.len() - 1]));
            assert(u.drop_last() =~= t.take(hi - 1 - lo));
        }
        hi = hi - 1;
    }
    proof {
        let u = t.take(hi - lo);
        if hi > lo {
            assert(u[u.len() - 1] == s@[hi - 1]);
            assert(!is_space(u[u.len() - 1]));
        }
        assert(trim_back(u) == u);
        assert(u =~= s@.subrange(lo as int, hi as int));
    }
    slice_subrange(s, lo, hi)
}

/// The pieces of `s` between occurrences of the separator `c`, in order.
/// Separators are not part of any piece; empty pieces are kept.
pub open spec fn split_spec(s: Seq<u8>, c: u8) -> Seq<Seq<u8>>
    decreases s.len(),
    via split_spec_dec
{
    let i = find_or_len(s, c);
    if i == s.len() {
        seq![s]
    } else {
        seq![s.take(i as int)] + split_spec(s.skip(i as int + 1), c)
    }
}

#[via_fn]
proof fn split_spec_dec(s: Seq<u8>, c: u8) {
    lemma_find_or_len(s, c);
}

/// A string without the separator splits into itself alone.
pub proof fn lemma_split_no_sep(s: Seq<u8>, c: u8)
    requires
        forall|j: int| 0 <= j < s.len() ==> s[j] != c,
    ensures
        split_spec(s, c) == seq![s],
{
    lemma_find_or_len(s, c);
    if find_or_len(s, c) < s.len() {
        assert(s[find_or_len(s, c) as int] == c);
    }
}

/// Splitting off one separator-free piece `a` from the front.
pub proof fn lemma_split_step(a: Seq<u8>, b: Seq<u8>, c: u8)
    requires
        forall|j: int| 0 <= j < a.len() ==> a[j] != c,
    ensures
        split_spec(a + seq![c] + b, c) == seq![a] + split_spec(b, c),
{
    let s = a + seq![c] + b;
    lemma_find_or_len(s, c);
    let f = find_or_len(s, c);
    assert(s[a.len() as int] == c);
    assert(forall|j: int| 0 <= j < a.len() ==> s[j] == a[j]);
    if f < a.len() {
        assert(s[f as int] == c);
        assert(s[f as int] == a[f as int]);
    }
    if f > a.len() {
        assert(s[a.len() as int] != c);
    }
    assert(f == a.len());
    assert(s.take(f as int) =~= a);
    assert(s.skip(f as int + 1) =~= b);
}

/// Splits `s` on every occurrence of `c`.
pub fn split_bytes(s: &[u8], c: u8) -> (r: Vec<Vec<u8>>)
    ensures
        views_of(r) == split_spec(s@, c),
{
    let n = s.len();
    let mut r: Vec<Vec<u8>> = Vec::new();
    let mut start: usize = 0;
    let mut i: usize = 0;
    proof {
        assert(s@.skip(0) =~= s@);
        assert(views_of(r) =~~= Seq::<Seq<u8>>::empty());
        assert(Seq::<Seq<u8>>::empty() + split_spec(s@, c) =~~= split_spec(s@, c));
    }
    while i < n
        invariant
            n == s@.len(),
            0 <= start <= i <= n,
            forall|j: int| start <= j < i ==> s@[j] != c,
            split_spec(s@, c) == views_of(r) + split_spec(s@.skip(start as int), c),
        decreases n - i,
    {
        if s[i] == c {
            let piece = slice_to_vec(slice_subrange(s, start, i));
            proof {
                let a = s@.subrange(start as int, i as int);
                let b = s@.skip(i as int + 1);
                assert(s@.skip(start as int) =~= a + seq![c] + b);
                lemma_split_step(a, b, c);
                assert((views_of(r) + split_spec(s@.skip(start as int), c))
                    =~~= (views_of(r).push(a) + split_spec(b, c)));
            }
            let ghost old_r = views_of(r);
            r.push(piece);
            proof {
                assert(views_of(r) =~~= old_r.push(piece@));
            }
            start = i + 1;
        }
        i = i + 1;
    }
    let piece = slice_to_vec(slice_subrange(s, start, n));
    proof {
        let a = s@.subrange(start as int, n as int);
        assert(s@.skip(start as int) =~= a);
        lemma_split_no_sep(a, c);
        assert((views_of(r) + split_spec(s@.skip(start as int), c))
            =~~= views_of(r).push(a));
    }
    let ghost old_r = views_of(r);
    r.push(piece);
    proof {
        assert(views_of(r) =~~= old_r.push(piece@));
    }
    r
}

/// Byte-wise equality of two slices.
pub fn bytes_eq(a: &[u8], b: &[u8]) -> (r: bool)
    ensures
        r <==> a@ == b@,
{
    let n = a.len();
    if n != b.len() {
        return false;
    }
    let mut i: usize = 0;
    while i < n
        invariant
            n == a@.len() == b@.len(),
            0 <= i <= n,
            forall|j: int| 0 <= j < i ==> a@[j] == b@[j],
        decreases n - i,
    {
        if a[i] != b[i] {
            return false;
        }
        i = i + 1;
    }
    proof {
        assert(a@ =~= b@);
    }
    true
}

} // verus!
