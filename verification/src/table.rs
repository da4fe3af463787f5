//! A small association table with byte-string keys.
//!
//! The state and configuration tables of the crate are plain vectors of
//! key/value pairs, kept free of duplicate keys and specified through a
//! `Map` view.  The entry vector is public so that specifications can
//! speak about entry order (the case-insensitive lookup picks the first
//! match); executable code outside this module goes through the methods.

use vstd::prelude::*;
use crate::text::{bytes_eq, bytes_eq_ci, lower_bytes};

verus! {

/// An association table from byte strings to values of type `V`.
pub struct Dict<V> {
    pub entries: Vec<(Vec<u8>, V)>,
}

/// First value, in entry order, whose key equals `k` up to ASCII case.
pub open spec fn ci_lookup_seq<V>(s: Seq<(Vec<u8>, V)>, k: Seq<u8>) -> Option<V>
    decreases s.len(),
{
    if s.len() == 0 {
        None
    } else if lower_bytes(s[0].0@) == lower_bytes(k) {
        Some(s[0].1)
    } else {
        ci_lookup_seq(s.drop_first(), k)
    }
}

impl<V> Dict<V> {
    /// Well-formed: no two entries share a key.
    pub open spec fn wf(self) -> bool {
        forall|i: int, j: int|
            0 <= i < j < self.entries@.len() ==> self.entries@[i].0@ != self.entries@[j].0@
    }

    /// True when some entry has key `k`.
    pub open spec fn contains_spec(self, k: Seq<u8>) -> bool {
        exists|i: int| 0 <= i < self.entries@.len() && self.entries@[i].0@ == k
    }

    /// The value stored under key `k`.
    pub open spec fn at(self, k: Seq<u8>) -> V {
        self.entries@[choose|i: int|
            0 <= i < self.entries@.len() && self.entries@[i].0@ == k].1
    }

    /// The table, seen as a map from key bytes to values.
    pub open spec fn as_map(self) -> Map<Seq<u8>, V> {
        Map::new(|k: Seq<u8>| self.contains_spec(k), |k: Seq<u8>| self.at(k))
    }

    /// The first value whose key equals `k` up to ASCII case.
    pub open spec fn ci_spec(self, k: Seq<u8>) -> Option<V> {
        ci_lookup_seq(self.entries@, k)
    }

    proof fn lemma_at_entry(self, k: Seq<u8>, i: int)
        requires
            self.wf(),
            0 <= i < self.entries@.len(),
            self.entries@[i].0@ == k,
        ensures
            self.contains_spec(k),
            self.at(k) == self.entries@[i].1,
    {
        let j = choose|j: int| 0 <= j < self.entries@.len() && self.entries@[j].0@ == k;
        if j != i {
            assert(self.entries@[i].0@ != self.entries@[j].0@);
        }
    }

    /// A new, empty table.
    pub fn new() -> (r: Self)
        ensures
            r.wf(),
            r.as_map() == Map::<Seq<u8>, V>::empty(),
            r.entries@.len() == 0,
    {
        let r = Dict { entries: Vec::new() };
        proof {
            assert(r.as_map() =~= Map::<Seq<u8>, V>::empty());
        }
        r
    }

    /// True when the table holds no entry.
    pub fn is_empty(&self) -> (r: bool)
        ensures
            r <==> self.as_map().dom() == Set::<Seq<u8>>::empty(),
            r <==> self.entries@.len() == 0,
    {
        let r = self.entries.len() == 0;
        proof {
            if r {
                assert(self.as_map().dom() =~= Set::<Seq<u8>>::empty());
            } else {
                assert(self.contains_spec(self.entries@[0].0@));
                assert(self.as_map().dom().contains(self.entries@[0].0@));
            }
        }
        r
    }

    /// The number of entries.
    pub fn len(&self) -> (r: usize)
        ensures
            r == self.entries@.len(),
    {
        self.entries.len()
    }

    /// Looks a key up.
    pub fn get(&self, k: &Vec<u8>) -> (r: Option<&V>)
        requires
            self.wf(),
        ensures
            r is Some <==> self.as_map().contains_key(k@),
            r matches Some(v) ==> *v == self.as_map()[k@],
    {
        let n = self.entries.len();
        let mut i: usize = 0;
        while i < n
            invariant
                self.wf(),
                n == self.entries@.len(),
                i <= n,
                forall|j: int| 0 <= j < i ==> self.entries@[j].0@ != k@,
            decreases n - i,
        {
            let pair = &self.entries[i];
            if bytes_eq(&pair.0, k) {
                proof {
                    self.lemma_at_entry(k@, i as int);
                }
                return Some(&pair.1);
            }
            i = i + 1;
        }
        None
    }

    /// Looks a key up, comparing keys up to ASCII case; the first entry in
    /// order wins.
    pub fn get_ci(&self, k: &Vec<u8>) -> (r: Option<&V>)
        ensures
            match r {
                Some(v) => self.ci_spec(k@) == Some(*v),
                None => self.ci_spec(k@) is None,
            },
    {
        let n = self.entries.len();
        let mut i: usize = 0;
        proof {
            assert(self.entries@.skip(0) =~= self.entries@);
        }
        while i < n
            invariant
                n == self.entries@.len(),
                i <= n,
                ci_lookup_seq(self.entries@, k@) == ci_lookup_seq(self.entries@.skip(i as int), k@),
            decreases n - i,
        {
            let pair = &self.entries[i];
            proof {
                assert(self.entries@.skip(i as int)[0] == self.entries@[i as int]);
                assert(self.entries@.skip(i as int).drop_first() =~= self.entries@.skip(
                    i as int + 1));
            }
            if bytes_eq_ci(&pair.0, k) {
                return Some(&pair.1);
            }
            i = i + 1;
        }
        proof {
            assert(self.entries@.skip(n as int).len() == 0);
        }
        None
    }

    /// Inserts a value under a key, replacing any entry with that key.
    pub fn insert(&mut self, k: Vec<u8>, v: V)
        requires
            old(self).wf(),
        ensures
            final(self).wf(),
            final(self).as_map() == old(self).as_map().insert(k@, v),
    {
        let n = self.entries.len();
        let mut i: usize = 0;
        while i < n
            invariant
                self.wf(),
                self == old(self),
                n == self.entries@.len(),
                i <= n,
                forall|j: int| 0 <= j < i ==> self.entries@[j].0@ != k@,
            decreases n - i,
        {
            if bytes_eq(&self.entries[i].0, &k) {
                self.entries[i] = (k, v);
                proof {
                    assert forall|k2: Seq<u8>|
                        self.contains_spec(k2) <==> old(self).as_map().insert(k@, v).dom().contains(
                            k2,
                        ) by {
                        if self.contains_spec(k2) {
                            let w = choose|w: int|
                                0 <= w < self.entries@.len() && self.entries@[w].0@ == k2;
                            if w != i {
                                assert(old(self).entries@[w].0@ == k2);
                            }
                        }
                        if k2 != k@ && old(self).contains_spec(k2) {
                            let w = choose|w: int|
                                0 <= w < old(self).entries@.len() && old(
                                    self,
                                ).entries@[w].0@ == k2;
                            assert(self.entries@[w].0@ == k2);
                        }
                    }
                    assert forall|k2: Seq<u8>| #[trigger]
                        self.contains_spec(k2) implies self.at(k2) == old(self).as_map().insert(
                        k@,
                        v,
                    )[k2] by {
                        let w = choose|w: int|
                            0 <= w < self.entries@.len() && self.entries@[w].0@ == k2;
                        self.lemma_at_entry(k2, w);
                        if k2 == k@ {
                            if w != i {
                                assert(old(self).entries@[w].0@ == k@);
                            }
                        } else {
                            assert(old(self).entries@[w].0@ == k2);
                            old(self).lemma_at_entry(k2, w);
                        }
                    }
                    assert(self.as_map() =~= old(self).as_map().insert(k@, v));
                }
                return ;
            }
            i = i + 1;
        }
        self.entries.push((k, v));
        proof {
            let m = self.entries@.len() - 1;
            assert forall|k2: Seq<u8>| #[trigger]
                self.contains_spec(k2) implies self.at(k2) == old(self).as_map().insert(
                k@,
                v,
            )[k2] by {
                let w = choose|w: int| 0 <= w < self.entries@.len() && self.entries@[w].0@ == k2;
                self.lemma_at_entry(k2, w);
                if w != m {
                    assert(old(self).entries@[w].0@ == k2);
                    old(self).lemma_at_entry(k2, w);
                }
            }
            assert forall|k2: Seq<u8>|
                old(self).as_map().insert(k@, v).dom().contains(k2) implies self.contains_spec(
                k2,
            ) by {
                if k2 == k@ {
                    assert(self.entries@[m].0@ == k2);
                } else {
                    let w = choose|w: int|
                        0 <= w < old(self).entries@.len() && old(self).entries@[w].0@ == k2;
                    assert(self.entries@[w].0@ == k2);
                }
            }
            assert(self.as_map() =~= old(self).as_map().insert(k@, v));
        }
    }

    /// Removes the entry with the given key, if any.
    pub fn remove(&mut self, k: &Vec<u8>)
        requires
            old(self).wf(),
        ensures
            final(self).wf(),
            final(self).as_map() == old(self).as_map().remove(k@),
    {
        let n = self.entries.len();
        let mut i: usize = 0;
        while i < n
            invariant
                self.wf(),
                self == old(self),
                n == self.entries@.len(),
                i <= n,
                forall|j: int| 0 <= j < i ==> self.entries@[j].0@ != k@,
            decreases n - i,
        {
            if bytes_eq(&self.entries[i].0, k) {
                self.entries.remove(i);
                proof {
                    let oe = old(self).entries@;
                    assert(self.entries@ =~= oe.subrange(0, i as int) + oe.subrange(
                        i as int + 1,
                        oe.len() as int,
                    ));
                    assert forall|a: int, b: int|
                        0 <= a < b < self.entries@.len() implies self.entries@[a].0@
                        != self.entries@[b].0@ by {
                        let a0 = if a < i { a } else { a + 1 };
                        let b0 = if b < i { b } else { b + 1 };
                        assert(self.entries@[a] == oe[a0]);
                        assert(self.entries@[b] == oe[b0]);
                    }
                    assert forall|k2: Seq<u8>| #[trigger]
                        self.contains_spec(k2) implies old(self).as_map().remove(
                        k@,
                    ).dom().contains(k2) && self.at(k2) == old(self).as_map().remove(k@)[k2] by {
                        let w = choose|w: int|
                            0 <= w < self.entries@.len() && self.entries@[w].0@ == k2;
                        self.lemma_at_entry(k2, w);
                        let w0 = if w < i { w } else { w + 1 };
                        assert(self.entries@[w] == oe[w0]);
                        old(self).lemma_at_entry(k2, w0);
                        if k2 == k@ {
                            assert(oe[w0].0@ != oe[i as int].0@);
                        }
                    }
                    assert forall|k2: Seq<u8>|
                        old(self).as_map().remove(k@).dom().contains(k2) implies self.contains_spec(
                        k2,
                    ) by {
                        let w = choose|w: int| 0 <= w < oe.len() && oe[w].0@ == k2;
                        if w < i {
                            assert(self.entries@[w] == oe[w]);
                        } else {
                            assert(w > i);
                            assert(self.entries@[w - 1] == oe[w]);
                        }
                    }
                    assert(self.as_map() =~= old(self).as_map().remove(k@));
                }
                return ;
            }
            i = i + 1;
        }
        proof {
            if old(self).as_map().dom().contains(k@) {
                assert(false);
            }
            assert(self.as_map() =~= old(self).as_map().remove(k@));
        }
    }

    /// Removes every entry.
    pub fn clear(&mut self)
        ensures
            final(self).wf(),
            final(self).as_map() == Map::<Seq<u8>, V>::empty(),
            final(self).entries@.len() == 0,
    {
        self.entries.clear();
        proof {
            assert(self.as_map() =~= Map::<Seq<u8>, V>::empty());
        }
    }
}

impl Dict<Vec<u8>> {
    /// The table, seen as a map from key bytes to value bytes.
    pub open spec fn as_bmap(self) -> Map<Seq<u8>, Seq<u8>> {
        Map::new(|k: Seq<u8>| self.contains_spec(k), |k: Seq<u8>| self.at(k)@)
    }

    /// The first value whose key matches up to ASCII case, as bytes.
    pub open spec fn ci_bytes(self, k: Seq<u8>) -> Option<Seq<u8>> {
        match self.ci_spec(k) {
            Some(v) => Some(v@),
            None => None,
        }
    }

    /// An insertion seen through `as_map` is the same insertion seen
    /// through `as_bmap`.
    pub proof fn lemma_bmap_insert(pre: Self, post: Self, k: Seq<u8>, v: Vec<u8>)
        requires
            post.as_map() == pre.as_map().insert(k, v),
        ensures
            post.as_bmap() == pre.as_bmap().insert(k, v@),
    {
        assert forall|k2: Seq<u8>|
            post.as_bmap().dom().contains(k2) <==> pre.as_bmap().insert(k, v@).dom().contains(
                k2,
            ) by {
            assert(post.as_bmap().dom().contains(k2) == post.contains_spec(k2));
            assert(post.as_map().dom().contains(k2) == post.contains_spec(k2));
            assert(pre.as_bmap().dom().contains(k2) == pre.contains_spec(k2));
            assert(pre.as_map().dom().contains(k2) == pre.contains_spec(k2));
            assert(pre.as_bmap().insert(k, v@).dom().contains(k2) == (k2 == k
                || pre.as_bmap().dom().contains(k2)));
            assert(pre.as_map().insert(k, v).dom().contains(k2) == (k2 == k
                || pre.as_map().dom().contains(k2)));
            assert(post.as_map().dom().contains(k2) == pre.as_map().insert(k, v).dom().contains(
                k2,
            ));
        }
        assert(post.as_bmap().dom() =~= pre.as_bmap().insert(k, v@).dom());
        assert forall|k2: Seq<u8>| #[trigger] post.as_bmap().dom().contains(k2)
            implies post.as_bmap()[k2] == pre.as_bmap().insert(k, v@)[k2] by {
            assert(post.as_map().dom().contains(k2));
            assert(post.as_bmap()[k2] == post.as_map()[k2]@);
            if k2 != k {
                assert(pre.as_bmap()[k2] == pre.as_map()[k2]@);
            }
        }
        assert(post.as_bmap() =~= pre.as_bmap().insert(k, v@));
    }

    /// A removal seen through `as_map` is the same removal seen through
    /// `as_bmap`.
    pub proof fn lemma_bmap_remove(pre: Self, post: Self, k: Seq<u8>)
        requires
            post.as_map() == pre.as_map().remove(k),
        ensures
            post.as_bmap() == pre.as_bmap().remove(k),
    {
        assert forall|k2: Seq<u8>|
            post.as_bmap().dom().contains(k2) <==> pre.as_bmap().remove(k).dom().contains(k2) by {
            assert(post.as_bmap().dom().contains(k2) == post.contains_spec(k2));
            assert(post.as_map().dom().contains(k2) == post.contains_spec(k2));
            assert(pre.as_bmap().dom().contains(k2) == pre.contains_spec(k2));
            assert(pre.as_map().dom().contains(k2) == pre.contains_spec(k2));
            assert(pre.as_bmap().remove(k).dom().contains(k2) == (k2 != k
                && pre.as_bmap().dom().contains(k2)));
            assert(pre.as_map().remove(k).dom().contains(k2) == (k2 != k
                && pre.as_map().dom().contains(k2)));
            assert(post.as_map().dom().contains(k2) == pre.as_map().remove(k).dom().contains(k2));
        }
        assert(post.as_bmap().dom() =~= pre.as_bmap().remove(k).dom());
        assert forall|k2: Seq<u8>| #[trigger] post.as_bmap().dom().contains(k2)
            implies post.as_bmap()[k2] == pre.as_bmap().remove(k)[k2] by {
            assert(post.as_map().dom().contains(k2));
            assert(post.as_bmap()[k2] == post.as_map()[k2]@);
            assert(pre.as_bmap()[k2] == pre.as_map()[k2]@);
        }
        assert(post.as_bmap() =~= pre.as_bmap().remove(k));
    }
}

} // verus!
