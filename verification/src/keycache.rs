//! The key cache: a string-to-identifier allocator used to deduplicate
//! package names and directory prefixes. Identifiers are issued once per
//! distinct key, strictly increasing from 1, and never reused or reassigned
//! within a run.

use vstd::prelude::*;

use crate::bytes::bytes_eq;

verus! {

/// All elements of `s` differ pairwise.
pub open spec fn distinct_keys(s: Seq<Seq<u8>>) -> bool {
    forall|i: int, j: int| 0 <= i < j < s.len() ==> s[i] != s[j]
}

/// Maps a cache of distinct keys, in allocation order, to identifiers:
/// the key at position `i` carries identifier `i + 1`.
pub struct KeyCache {
    pub keys: Vec<Vec<u8>>,
    pub max_id: i64,
}

impl KeyCache {
    /// The keys in allocation order.
    pub open spec fn key_seq(self) -> Seq<Seq<u8>> {
        self.keys@.map_values(|k: Vec<u8>| k@)
    }

    /// The cache's invariant: the highest issued identifier counts the keys,
    /// and no key occurs twice.
    pub open spec fn wf(self) -> bool {
        &&& self.max_id as int == self.key_seq().len()
        &&& distinct_keys(self.key_seq())
    }

    pub open spec fn contains_key(self, k: Seq<u8>) -> bool {
        self.key_seq().contains(k)
    }

    /// The identifier of an allocated key.
    pub open spec fn spec_id(self, k: Seq<u8>) -> int {
        self.key_seq().index_of(k) + 1
    }

    /// An empty cache.
    pub fn new() -> (r: KeyCache)
        ensures
            r.wf(),
            r.key_seq() == Seq::<Seq<u8>>::empty(),
    {
        let r = KeyCache { keys: Vec::new(), max_id: 0 };
        proof {
            assert(r.key_seq() =~= Seq::<Seq<u8>>::empty());
        }
        r
    }

    /// The identifier of `key`, or `None` when `key` was never allocated.
    /// No allocation takes place.
    pub fn lookup(&self, key: &[u8]) -> (r: Option<i64>)
        requires
            self.wf(),
        ensures
            r is Some <==> self.contains_key(key@),
            r matches Some(id) ==> id as int == self.spec_id(key@) && 1 <= id <= self.max_id,
    {
        let mut i: usize = 0;
        while i < self.keys.len()
            invariant
                self.wf(),
                i <= self.key_seq().len(),
                forall|j: int| 0 <= j < i ==> self.key_seq()[j] != key@,
            decreases self.keys.len() - i,
        {
            if bytes_eq(self.keys[i].as_slice(), key) {
                proof {
                    lemma_index_of_unique(self.key_seq(), key@, i as int);
                }
                return Some((i as i64) + 1);
            }
            i += 1;
        }
        proof {
            if self.contains_key(key@) {
                let w = choose|x: int|
                    0 <= x < self.key_seq().len() && self.key_seq()[x] == key@;
                assert(self.key_seq()[w] != key@);
            }
        }
        None
    }

    /// Allocates the next identifier for a key that `lookup` did not find,
    /// and records the mapping.
    pub fn allocate(&mut self, key: Vec<u8>) -> (r: i64)
        requires
            old(self).wf(),
            !old(self).contains_key(key@),
            old(self).max_id < i64::MAX,
        ensures
            final(self).wf(),
            r == final(self).max_id == old(self).max_id + 1,
            final(self).key_seq() == old(self).key_seq().push(key@),
            final(self).spec_id(key@) == r,
            final(self).contains_key(key@),
    {
        let ghost old_keys = self.key_seq();
        let ghost kv = key@;
        self.max_id = self.max_id + 1;
        self.keys.push(key);
        proof {
            assert(self.key_seq() =~= old_keys.push(kv));
            assert forall|x: int| 0 <= x < old_keys.len() implies old_keys[x] != kv by {
                if old_keys[x] == kv {
                    assert(old_keys.contains(kv));
                }
            }
            assert(self.key_seq()[old_keys.len() as int] == kv);
            assert(self.key_seq().contains(kv));
            lemma_index_of_unique(self.key_seq(), kv, old_keys.len() as int);
        }
        self.max_id
    }

    /// The number of identifiers issued so far.
    pub fn id_count(&self) -> (r: i64)
        requires
            self.wf(),
        ensures
            r as int == self.key_seq().len(),
    {
        self.max_id
    }

    /// True when no further identifier can be issued.
    pub fn at_capacity(&self) -> (r: bool)
        ensures
            r == (self.max_id == i64::MAX),
    {
        self.max_id == i64::MAX
    }
}

/// In a sequence of pairwise-distinct keys, `index_of` finds exactly the
/// position a key stands at.
pub proof fn lemma_index_of_unique(s: Seq<Seq<u8>>, k: Seq<u8>, i: int)
    requires
        distinct_keys(s),
        0 <= i < s.len(),
        s[i] == k,
    ensures
        s.contains(k),
        s.index_of(k) == i,
{
    assert(s.contains(k));
    let w = s.index_of(k);
    assert(exists|x: int| 0 <= x < s.len() && s[x] == k);
    assert(0 <= w < s.len() && s[w] == k) by {
        reveal(Seq::index_of);
    }
    if w < i {
        assert(s[w] != s[i]);
    } else if w > i {
        assert(s[i] != s[w]);
    }
}

/// Identifier discipline of a well-formed cache: the key allocated at rank
/// `i` (counting from zero) carries identifier `i + 1`, so identifiers start
/// at 1, rise strictly in allocation order, and distinct keys always carry
/// distinct identifiers, while each key keeps the one identifier it was
/// issued.
pub proof fn lemma_key_cache_ids(c: KeyCache)
    requires
        c.wf(),
    ensures
        forall|i: int|
            0 <= i < c.key_seq().len() ==> #[trigger] c.spec_id(c.key_seq()[i]) == i + 1,
        forall|i: int, j: int|
            0 <= i < j < c.key_seq().len() ==> c.spec_id(c.key_seq()[i]) < c.spec_id(
                c.key_seq()[j],
            ),
{
    assert forall|i: int| 0 <= i < c.key_seq().len() implies #[trigger] c.spec_id(c.key_seq()[i])
        == i + 1 by {
        lemma_index_of_unique(c.key_seq(), c.key_seq()[i], i);
    }
}

/// A key's identifier never changes once allocated: extending the key
/// sequence by later allocations leaves the position (and so the identifier)
/// of every earlier key as it was.
pub proof fn lemma_id_stable(keys: Seq<Seq<u8>>, ext: Seq<Seq<u8>>, k: Seq<u8>)
    requires
        distinct_keys(keys + ext),
        keys.contains(k),
    ensures
        (keys + ext).index_of(k) == keys.index_of(k),
{
    let i = choose|x: int| 0 <= x < keys.len() && keys[x] == k;
    assert(distinct_keys(keys)) by {
        assert forall|a: int, b: int| 0 <= a < b < keys.len() implies keys[a] != keys[b] by {
            assert((keys + ext)[a] == keys[a]);
            assert((keys + ext)[b] == keys[b]);
        }
    }
    lemma_index_of_unique(keys, k, i);
    assert((keys + ext)[i] == k);
    lemma_index_of_unique(keys + ext, k, i);
}

} // verus!
