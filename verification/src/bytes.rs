//! Byte-sequence helpers shared by the parsing modules: equality, prefix
//! tests, and searches for the first or last occurrence of a byte.

use vstd::prelude::*;

verus! {

/// Tab or space: the field separator of a Contents line.
pub open spec fn is_sep(b: u8) -> bool {
    b == 9 || b == 32
}

/// ASCII whitespace, as trimmed from the end of a path field. Only ASCII
/// whitespace is trimmed: bytes of multi-byte encoded characters never
/// match, so encoded non-ASCII whitespace stays in the path.
pub open spec fn is_ws(b: u8) -> bool {
    b == 9 || b == 10 || b == 11 || b == 12 || b == 13 || b == 32
}

/// True when `p` is a prefix of `s`.
pub open spec fn starts_with(s: Seq<u8>, p: Seq<u8>) -> bool {
    p.len() <= s.len() && s.subrange(0, p.len() as int) == p
}

/// Index of the first occurrence of `b` in `s`, or -1 if `b` does not occur.
pub open spec fn find_first(s: Seq<u8>, b: u8) -> int
    decreases s.len(),
{
    if s.len() == 0 {
        -1
    } else if s[0] == b {
        0
    } else {
        let r = find_first(s.drop_first(), b);
        if r < 0 {
            -1
        } else {
            r + 1
        }
    }
}

/// Index of the last occurrence of `b` in `s`, or -1 if `b` does not occur.
pub open spec fn find_last(s: Seq<u8>, b: u8) -> int
    decreases s.len(),
{
    if s.len() == 0 {
        -1
    } else if s.last() == b {
        s.len() - 1
    } else {
        find_last(s.drop_last(), b)
    }
}

/// Index of the last tab-or-space in `s`, or -1 if there is none.
pub open spec fn find_last_sep(s: Seq<u8>) -> int
    decreases s.len(),
{
    if s.len() == 0 {
        -1
    } else if is_sep(s.last()) {
        s.len() - 1
    } else {
        find_last_sep(s.drop_last())
    }
}

/// `s` without its trailing ASCII whitespace.
pub open spec fn trim_trailing_ws(s: Seq<u8>) -> Seq<u8>
    decreases s.len(),
{
    if s.len() > 0 && is_ws(s.last()) {
        trim_trailing_ws(s.drop_last())
    } else {
        s
    }
}

pub proof fn lemma_find_first_is(s: Seq<u8>, b: u8, i: int)
    requires
        0 <= i < s.len(),
        s[i] == b,
        forall|j: int| 0 <= j < i ==> s[j] != b,
    ensures
        find_first(s, b) == i,
    decreases s.len(),
{
    if i > 0 {
        lemma_find_first_is(s.drop_first(), b, i - 1);
    }
}

pub proof fn lemma_find_first_none(s: Seq<u8>, b: u8)
    requires
        forall|j: int| 0 <= j < s.len() ==> s[j] != b,
    ensures
        find_first(s, b) == -1,
    decreases s.len(),
{
    if s.len() > 0 {
        lemma_find_first_none(s.drop_first(), b);
    }
}

pub proof fn lemma_find_last_is(s: Seq<u8>, b: u8, i: int)
    requires
        0 <= i < s.len(),
        s[i] == b,
        forall|j: int| i < j < s.len() ==> s[j] != b,
    ensures
        find_last(s, b) == i,
    decreases s.len(),
{
    if i < s.len() - 1 {
        lemma_find_last_is(s.drop_last(), b, i);
    }
}

pub proof fn lemma_find_last_none(s: Seq<u8>, b: u8)
    requires
        forall|j: int| 0 <= j < s.len() ==> s[j] != b,
    ensures
        find_last(s, b) == -1,
    decreases s.len(),
{
    if s.len() > 0 {
        lemma_find_last_none(s.drop_last(), b);
    }
}

pub proof fn lemma_find_last_sep_is(s: Seq<u8>, i: int)
    requires
        0 <= i < s.len(),
        is_sep(s[i]),
        forall|j: int| i < j < s.len() ==> !is_sep(s[j]),
    ensures
        find_last_sep(s) == i,
    decreases s.len(),
{
    if i < s.len() - 1 {
        lemma_find_last_sep_is(s.drop_last(), i);
    }
}

pub proof fn lemma_find_last_sep_none(s: Seq<u8>)
    requires
        forall|j: int| 0 <= j < s.len() ==> !is_sep(s[j]),
    ensures
        find_last_sep(s) == -1,
    decreases s.len(),
{
    if s.len() > 0 {
        lemma_find_last_sep_none(s.drop_last());
    }
}

pub proof fn lemma_trim_trailing_ws_is(s: Seq<u8>, n: int)
    requires
        0 <= n <= s.len(),
        forall|j: int| n <= j < s.len() ==> is_ws(s[j]),
        n > 0 ==> !is_ws(s[n - 1]),
    ensures
        trim_trailing_ws(s) == s.subrange(0, n),
    decreases s.len(),
{
    if s.len() == 0 {
        assert(trim_trailing_ws(s) =~= s.subrange(0, n));
    } else if n < s.len() {
        lemma_trim_trailing_ws_is(s.drop_last(), n);
        assert(s.drop_last().subrange(0, n) =~= s.subrange(0, n));
    } else {
        assert(trim_trailing_ws(s) =~= s.subrange(0, n));
    }
}

/// ASCII whitespace test on one byte.
pub fn is_ws_byte(b: u8) -> (r: bool)
    ensures
        r == is_ws(b),
{
    b == 9 || b == 10 || b == 11 || b == 12 || b == 13 || b == 32
}

/// Byte-for-byte equality of two slices.
pub fn bytes_eq(a: &[u8], b: &[u8]) -> (r: bool)
    ensures
        r == (a@ == b@),
{
    if a.len() != b.len() {
        return false;
    }
    let mut i: usize = 0;
    while i < a.len()
        invariant
            i <= a.len(),
            a@.len() == b@.len(),
            forall|j: int| 0 <= j < i ==> a@[j] == b@[j],
        decreases a.len() - i,
    {
        if a[i] != b[i] {
            return false;
        }
        i += 1;
    }
    proof {
        assert(a@ =~= b@);
    }
    true
}

/// True when `s` begins with the bytes of `p`.
pub fn starts_with_bytes(s: &[u8], p: &[u8]) -> (r: bool)
    ensures
        r == starts_with(s@, p@),
{
    if p.len() > s.len() {
        return false;
    }
    let mut i: usize = 0;
    while i < p.len()
        invariant
            i <= p.len(),
            p@.len() <= s@.len(),
            forall|j: int| 0 <= j < i ==> s@[j] == p@[j],
        decreases p.len() - i,
    {
        if s[i] != p[i] {
            proof {
                assert(s@.subrange(0, p@.len() as int)[i as int] != p@[i as int]);
            }
            return false;
        }
        i += 1;
    }
    proof {
        assert(s@.subrange(0, p@.len() as int) =~= p@);
    }
    true
}

/// First occurrence of `b` in `s`.
pub fn find_first_byte(s: &[u8], b: u8) -> (r: Option<usize>)
    ensures
        r matches Some(i) ==> i < s@.len() && find_first(s@, b) == i as int,
        r is None ==> find_first(s@, b) == -1,
{
    let mut i: usize = 0;
    while i < s.len()
        invariant
            i <= s.len(),
            forall|j: int| 0 <= j < i ==> s@[j] != b,
        decreases s.len() - i,
    {
        if s[i] == b {
            proof {
                lemma_find_first_is(s@, b, i as int);
            }
            return Some(i);
        }
        i += 1;
    }
    proof {
        lemma_find_first_none(s@, b);
    }
    None
}

/// Last occurrence of `b` in `s`.
pub fn find_last_byte(s: &[u8], b: u8) -> (r: Option<usize>)
    ensures
        r matches Some(i) ==> i < s@.len() && find_last(s@, b) == i as int,
        r is None ==> find_last(s@, b) == -1,
{
    let mut i: usize = s.len();
    while i > 0
        invariant
            i <= s.len(),
            forall|j: int| i <= j < s.len() ==> s@[j] != b,
        decreases i,
    {
        i -= 1;
        if s[i] == b {
            proof {
                lemma_find_last_is(s@, b, i as int);
            }
            return Some(i);
        }
    }
    proof {
        lemma_find_last_none(s@, b);
    }
    None
}

/// Last tab-or-space in `s`.
pub fn find_last_sep_byte(s: &[u8]) -> (r: Option<usize>)
    ensures
        r matches Some(i) ==> i < s@.len() && find_last_sep(s@) == i as int,
        r is None ==> find_last_sep(s@) == -1,
{
    let mut i: usize = s.len();
    while i > 0
        invariant
            i <= s.len(),
            forall|j: int| i <= j < s.len() ==> !is_sep(s@[j]),
        decreases i,
    {
        i -= 1;
        if s[i] == 9 || s[i] == 32 {
            proof {
                lemma_find_last_sep_is(s@, i as int);
            }
            return Some(i);
        }
    }
    proof {
        lemma_find_last_sep_none(s@);
    }
    None
}

/// Appends all of `s` to `v`.
pub fn append_bytes(v: &mut Vec<u8>, s: &[u8])
    ensures
        final(v)@ == old(v)@ + s@,
{
    let mut i: usize = 0;
    proof {
        assert(old(v)@ + s@.subrange(0, 0) =~= old(v)@);
    }
    while i < s.len()
        invariant
            i <= s@.len(),
            v@ == old(v)@ + s@.subrange(0, i as int),
        decreases s.len() - i,
    {
        v.push(s[i]);
        proof {
            assert(old(v)@ + s@.subrange(0, i as int + 1) =~= (old(v)@ + s@.subrange(
                0,
                i as int,
            )).push(s@[i as int]));
        }
        i += 1;
    }
    proof {
        assert(s@.subrange(0, s@.len() as int) =~= s@);
    }
}

/// Copy of `s[from..to]` as an owned vector.
pub fn subrange_vec(s: &[u8], from: usize, to: usize) -> (r: Vec<u8>)
    requires
        from <= to <= s@.len(),
    ensures
        r@ == s@.subrange(from as int, to as int),
{
    let mut r: Vec<u8> = Vec::new();
    let mut i: usize = from;
    while i < to
        invariant
            from <= i <= to <= s@.len(),
            r@ == s@.subrange(from as int, i as int),
        decreases to - i,
    {
        r.push(s[i]);
        proof {
            assert(r@ =~= s@.subrange(from as int, i + 1));
        }
        i += 1;
    }
    r
}

} // verus!
