//! The path segmenter, used by the package-and-directory schema: splits a
//! path into a bounded-depth directory prefix and a leaf name.
//!
//! The boundary is the fifth slash of the path; a path with fewer slashes is
//! split at its last slash, and one with no slash at offset zero. The
//! directory is everything before the boundary, the name everything after it
//! (boundary offset plus one onward).

use vstd::prelude::*;

use crate::bytes::subrange_vec;

verus! {

/// Number of slashes in `s`.
pub open spec fn slash_count(s: Seq<u8>) -> nat
    decreases s.len(),
{
    if s.len() == 0 {
        0
    } else {
        (if s[0] == 47 {
            1nat
        } else {
            0nat
        }) + slash_count(s.drop_first())
    }
}

/// Index of the `n`-th slash of `s` (1-based), or -1 when `s` holds fewer
/// than `n` slashes.
pub open spec fn nth_slash(s: Seq<u8>, n: nat) -> int
    decreases s.len(),
{
    if n == 0 || s.len() == 0 {
        -1
    } else if s[0] == 47 {
        if n == 1 {
            0
        } else {
            let r = nth_slash(s.drop_first(), (n - 1) as nat);
            if r < 0 {
                -1
            } else {
                r + 1
            }
        }
    } else {
        let r = nth_slash(s.drop_first(), n);
        if r < 0 {
            -1
        } else {
            r + 1
        }
    }
}

/// The split offset of a path: its fifth slash, else its last slash, else 0.
pub open spec fn seg_boundary(path: Seq<u8>) -> int {
    if slash_count(path) == 0 {
        0
    } else if slash_count(path) >= 5 {
        nth_slash(path, 5)
    } else {
        nth_slash(path, slash_count(path))
    }
}

/// The (directory, name) pair a path splits into.
pub open spec fn spec_segment(path: Seq<u8>) -> (Seq<u8>, Seq<u8>) {
    let b = seg_boundary(path);
    (path.subrange(0, b), path.subrange(b + 1, path.len() as int))
}

proof fn lemma_nth_slash_at(s: Seq<u8>, i: int, n: nat)
    requires
        0 <= i < s.len(),
        s[i] == 47,
        n >= 1,
        slash_count(s.take(i)) == n - 1,
    ensures
        nth_slash(s, n) == i,
    decreases s.len(),
{
    if s[0] == 47 {
        if i == 0 {
            assert(s.take(0) =~= Seq::<u8>::empty());
        } else {
            assert(s.take(i).drop_first() =~= s.drop_first().take(i - 1));
            assert(s.take(i)[0] == 47);
            lemma_nth_slash_at(s.drop_first(), i - 1, (n - 1) as nat);
        }
    } else {
        assert(i > 0);
        assert(s.take(i).drop_first() =~= s.drop_first().take(i - 1));
        assert(s.take(i)[0] != 47);
        lemma_nth_slash_at(s.drop_first(), i - 1, n);
    }
}

proof fn lemma_slash_count_take_le(s: Seq<u8>, i: int)
    requires
        0 <= i <= s.len(),
    ensures
        slash_count(s.take(i)) <= slash_count(s),
    decreases s.len(),
{
    if i == 0 {
        assert(s.take(0) =~= Seq::<u8>::empty());
    } else {
        assert(s.take(i).drop_first() =~= s.drop_first().take(i - 1));
        assert(s.take(i)[0] == s[0]);
        lemma_slash_count_take_le(s.drop_first(), i - 1);
    }
}

proof fn lemma_slash_count_step(s: Seq<u8>, i: int)
    requires
        0 <= i < s.len(),
    ensures
        slash_count(s.take(i + 1)) == slash_count(s.take(i)) + (if s[i] == 47 {
            1nat
        } else {
            0nat
        }),
    decreases s.len(),
{
    if i == 0 {
        assert(s.take(0) =~= Seq::<u8>::empty());
        assert(s.take(1).drop_first() =~= Seq::<u8>::empty());
        assert(s.take(1)[0] == s[0]);
    } else {
        assert(s.take(i + 1).drop_first() =~= s.drop_first().take(i));
        assert(s.take(i).drop_first() =~= s.drop_first().take(i - 1));
        assert(s.take(i + 1)[0] == s[0]);
        assert(s.take(i)[0] == s[0]);
        lemma_slash_count_step(s.drop_first(), i - 1);
    }
}

/// Splits a path at its segment boundary into directory prefix and leaf name.
pub fn segment_path(path: &[u8]) -> (r: (Vec<u8>, Vec<u8>))
    requires
        path@.len() >= 1,
    ensures
        (r.0@, r.1@) == spec_segment(path@),
{
    let mut idx: usize = 0;
    let mut found: usize = 0;
    let mut i: usize = 0;
    while i < path.len() && found < 5
        invariant
            0 <= i <= path@.len(),
            found == slash_count(path@.take(i as int)),
            found <= 5,
            idx <= i,
            found >= 1 ==> idx < i && path@[idx as int] == 47 && nth_slash(path@, found as nat)
                == idx as int,
            found == 0 ==> idx == 0,
        decreases path.len() - i,
    {
        if path[i] == 47 {
            proof {
                lemma_slash_count_step(path@, i as int);
                lemma_nth_slash_at(path@, i as int, (found + 1) as nat);
            }
            idx = i;
            found += 1;
        } else {
            proof {
                lemma_slash_count_step(path@, i as int);
            }
        }
        i += 1;
    }
    proof {
        if i == path.len() {
            assert(path@.take(i as int) =~= path@);
        } else {
            lemma_slash_count_take_le(path@, i as int);
        }
        assert(seg_boundary(path@) == idx as int);
    }
    let dir = subrange_vec(path, 0, idx);
    let name = subrange_vec(path, idx + 1, path.len());
    (dir, name)
}

} // verus!
