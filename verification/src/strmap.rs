//! A verified map from strings to values, kept as parallel vectors in
//! insertion order.  Lookups compare keys character-wise, so every operation
//! is specified against the `Seq<char>` views of the keys.

use vstd::prelude::*;

use crate::text::str_eq;

verus! {

/// Index of the first element of `ks` equal to `k`, or -1.
pub open spec fn seq_index_of(ks: Seq<Seq<char>>, k: Seq<char>) -> int
    decreases ks.len(),
{
    if ks.len() == 0 {
        -1
    } else if ks[0] == k {
        0
    } else {
        let r = seq_index_of(ks.drop_first(), k);
        if r < 0 {
            -1
        } else {
            r + 1
        }
    }
}

pub proof fn lemma_seq_index_of_at(ks: Seq<Seq<char>>, k: Seq<char>, i: int)
    requires
        0 <= i < ks.len(),
        ks[i] == k,
        forall|j: int| 0 <= j < i ==> ks[j] != k,
    ensures
        seq_index_of(ks, k) == i,
    decreases i,
{
    if i > 0 {
        lemma_seq_index_of_at(ks.drop_first(), k, i - 1);
    }
}

pub proof fn lemma_seq_index_of_none(ks: Seq<Seq<char>>, k: Seq<char>)
    requires
        forall|j: int| 0 <= j < ks.len() ==> ks[j] != k,
    ensures
        seq_index_of(ks, k) == -1,
    decreases ks.len(),
{
    if ks.len() > 0 {
        lemma_seq_index_of_none(ks.drop_first(), k);
    }
}

pub proof fn lemma_seq_index_of_props(ks: Seq<Seq<char>>, k: Seq<char>)
    ensures
        seq_index_of(ks, k) >= 0 ==> seq_index_of(ks, k) < ks.len() && ks[seq_index_of(ks, k)]
            == k && forall|j: int| 0 <= j < seq_index_of(ks, k) ==> ks[j] != k,
        seq_index_of(ks, k) < 0 ==> seq_index_of(ks, k) == -1 && forall|j: int|
            0 <= j < ks.len() ==> ks[j] != k,
    decreases ks.len(),
{
    if ks.len() > 0 && ks[0] != k {
        lemma_seq_index_of_props(ks.drop_first(), k);
        let r = seq_index_of(ks.drop_first(), k);
        if r >= 0 {
            assert forall|j: int| 0 <= j < r + 1 implies ks[j] != k by {
                if j >= 1 {
                    assert(ks.drop_first()[j - 1] == ks[j]);
                }
            }
        } else {
            assert forall|j: int| 0 <= j < ks.len() implies ks[j] != k by {
                if j >= 1 {
                    assert(ks.drop_first()[j - 1] == ks[j]);
                }
            }
        }
    }
}

pub proof fn lemma_seq_index_of_push(ks: Seq<Seq<char>>, k: Seq<char>, k2: Seq<char>)
    ensures
        k2 != k ==> seq_index_of(ks.push(k), k2) == seq_index_of(ks, k2),
        k2 == k && seq_index_of(ks, k) < 0 ==> seq_index_of(ks.push(k), k2) == ks.len(),
    decreases ks.len(),
{
    lemma_seq_index_of_props(ks, k2);
    lemma_seq_index_of_props(ks.push(k), k2);
    let r = seq_index_of(ks, k2);
    if k2 != k {
        if r >= 0 {
            lemma_seq_index_of_at(ks.push(k), k2, r);
        } else {
            assert forall|j: int| 0 <= j < ks.push(k).len() implies ks.push(k)[j] != k2 by {
                if j < ks.len() {
                    assert(ks.push(k)[j] == ks[j]);
                } else {
                    assert(ks.push(k)[j] == k);
                }
            }
            lemma_seq_index_of_none(ks.push(k), k2);
        }
    } else if r < 0 {
        assert(ks.push(k)[ks.len() as int] == k);
        lemma_seq_index_of_at(ks.push(k), k2, ks.len() as int);
    }
}

/// A map from strings to values of type `V`, in insertion order.
pub struct StrMap<V> {
    keys: Vec<String>,
    vals: Vec<V>,
}

impl<V> StrMap<V> {
    /// The keys, as character sequences, in insertion order.
    pub closed spec fn key_seq(self) -> Seq<Seq<char>> {
        self.keys.deep_view()
    }

    /// The values, in insertion order.
    pub closed spec fn val_seq(self) -> Seq<V> {
        self.vals@
    }

    /// Keys and values are aligned, and no key repeats.
    pub open spec fn wf(self) -> bool {
        self.key_seq().len() == self.val_seq().len() && forall|i: int, j: int|
            0 <= i < j < self.key_seq().len() ==> self.key_seq()[i] != self.key_seq()[j]
    }

    /// Whether the map holds the key `k`.
    pub open spec fn spec_contains_key(self, k: Seq<char>) -> bool {
        seq_index_of(self.key_seq(), k) >= 0
    }

    /// The value bound to `k`, if any.
    pub open spec fn spec_get(self, k: Seq<char>) -> Option<V> {
        let i = seq_index_of(self.key_seq(), k);
        if 0 <= i && i < self.val_seq().len() {
            Some(self.val_seq()[i])
        } else {
            None
        }
    }

    /// Create an empty map.
    pub fn new() -> (r: StrMap<V>)
        ensures
            r.wf(),
            r.key_seq() == Seq::<Seq<char>>::empty(),
            r.val_seq() == Seq::<V>::empty(),
    {
        let r = StrMap { keys: Vec::new(), vals: Vec::new() };
        proof {
            assert(r.key_seq() =~= Seq::<Seq<char>>::empty());
        }
        r
    }

    /// The number of entries.
    pub fn len(&self) -> (r: usize)
        ensures
            r == self.key_seq().len(),
    {
        self.keys.len()
    }

    /// Whether the map has no entries.
    pub fn is_empty(&self) -> (r: bool)
        ensures
            r == (self.key_seq().len() == 0),
    {
        self.keys.is_empty()
    }

    /// Position of `k` among the keys, if present.
    fn index_of(&self, k: &str) -> (r: Option<usize>)
        ensures
            match r {
                Some(i) => i < self.key_seq().len() && seq_index_of(self.key_seq(), k@)
                    == i as int,
                None => seq_index_of(self.key_seq(), k@) == -1,
            },
    {
        let n = self.keys.len();
        let mut i: usize = 0;
        while i < n
            invariant
                n == self.key_seq().len(),
                self.key_seq().len() == self.keys.deep_view().len(),
                i <= n,
                forall|j: int| 0 <= j < i ==> self.key_seq()[j] != k@,
            decreases n - i,
        {
            if str_eq(self.keys[i].as_str(), k) {
                proof {
                    assert(self.key_seq()[i as int] == self.keys@[i as int]@);
                    lemma_seq_index_of_at(self.key_seq(), k@, i as int);
                }
                return Some(i);
            }
            proof {
                assert(self.key_seq()[i as int] == self.keys@[i as int]@);
            }
            i += 1;
        }
        proof {
            lemma_seq_index_of_none(self.key_seq(), k@);
        }
        None
    }

    /// Whether the map holds the key `k`.
    pub fn contains_key(&self, k: &str) -> (r: bool)
        ensures
            r == self.spec_contains_key(k@),
    {
        match self.index_of(k) {
            Some(_) => true,
            None => false,
        }
    }

    /// Look up the value bound to `k`.
    pub fn get(&self, k: &str) -> (r: Option<&V>)
        requires
            self.wf(),
        ensures
            match r {
                Some(v) => self.spec_get(k@) == Some(*v) && self.spec_contains_key(k@),
                None => self.spec_get(k@) is None && !self.spec_contains_key(k@),
            },
    {
        match self.index_of(k) {
            Some(i) => Some(&self.vals[i]),
            None => None,
        }
    }

    /// Bind `k` to `v`, replacing any earlier binding.
    pub fn insert(&mut self, k: &str, v: V)
        requires
            old(self).wf(),
        ensures
            final(self).wf(),
            final(self).spec_contains_key(k@),
            forall|k2: Seq<char>| #![auto] final(self).spec_get(k2) == if k2 == k@ {
                Some(v)
            } else {
                old(self).spec_get(k2)
            },
            forall|k2: Seq<char>| #![auto] final(self).spec_contains_key(k2) == (k2 == k@
                || old(self).spec_contains_key(k2)),
            old(self).spec_contains_key(k@) ==> final(self).key_seq() == old(self).key_seq()
                && final(self).val_seq() == old(self).val_seq().update(
                seq_index_of(old(self).key_seq(), k@),
                v,
            ),
            !old(self).spec_contains_key(k@) ==> final(self).key_seq() == old(
                self,
            ).key_seq().push(k@) && final(self).val_seq() == old(self).val_seq().push(v),
    {
        let ghost oldks = self.key_seq();
        let ghost oldvs = self.val_seq();
        match self.index_of(k) {
            Some(i) => {
                self.vals.remove(i);
                self.vals.insert(i, v);
                proof {
                    assert(self.val_seq() =~= oldvs.update(i as int, v));
                    assert(self.key_seq() == oldks);
                    lemma_seq_index_of_props(oldks, k@);
                    assert forall|k2: Seq<char>| #![auto] self.spec_get(k2) == (if k2 == k@ {
                        Some(v)
                    } else {
                        old(self).spec_get(k2)
                    }) by {
                        lemma_seq_index_of_props(oldks, k2);
                        if k2 == k@ {
                        } else {
                            let r2 = seq_index_of(oldks, k2);
                            if r2 >= 0 {
                                assert(oldks[r2] == k2);
                                assert(r2 != i as int);
                            }
                        }
                    }
                }
            },
            None => {
                let ks = String::from_str(k);
                self.keys.push(ks);
                self.vals.push(v);
                proof {
                    assert(self.key_seq() =~~= oldks.push(k@));
                    assert(self.val_seq() =~= oldvs.push(v));
                    lemma_seq_index_of_props(oldks, k@);
                    assert(self.wf()) by {
                        assert forall|i: int, j: int|
                            0 <= i < j < self.key_seq().len() implies self.key_seq()[i]
                            != self.key_seq()[j] by {
                            if j < oldks.len() {
                                assert(self.key_seq()[i] == oldks[i]);
                                assert(self.key_seq()[j] == oldks[j]);
                            } else {
                                assert(self.key_seq()[j] == k@);
                                assert(self.key_seq()[i] == oldks[i]);
                                assert(oldks[i] != k@);
                            }
                        }
                    }
                    lemma_seq_index_of_push(oldks, k@, k@);
                    assert forall|k2: Seq<char>| #![auto] self.spec_get(k2) == (if k2 == k@ {
                        Some(v)
                    } else {
                        old(self).spec_get(k2)
                    }) by {
                        lemma_seq_index_of_push(oldks, k@, k2);
                        lemma_seq_index_of_props(oldks, k2);
                        lemma_seq_index_of_props(oldks.push(k@), k2);
                        if k2 == k@ {
                            assert(seq_index_of(self.key_seq(), k2) == oldks.len());
                            assert(self.val_seq()[oldks.len() as int] == v);
                        }
                    }
                    assert forall|k2: Seq<char>| #![auto] self.spec_contains_key(k2) == (k2
                        == k@ || old(self).spec_contains_key(k2)) by {
                        lemma_seq_index_of_push(oldks, k@, k2);
                        lemma_seq_index_of_props(oldks.push(k@), k2);
                    }
                }
            },
        }
    }

    /// The keys, cloned, in insertion order.
    pub fn keys_vec(&self) -> (r: Vec<String>)
        ensures
            r.deep_view() == self.key_seq(),
    {
        let n = self.keys.len();
        let mut r: Vec<String> = Vec::new();
        let mut i: usize = 0;
        while i < n
            invariant
                n == self.keys@.len(),
                i <= n,
                r.deep_view() =~= self.key_seq().subrange(0, i as int),
            decreases n - i,
        {
            let ghost oldr = r.deep_view();
            let x = self.keys[i].clone();
            proof {
                assert(x@ == self.keys@[i as int]@);
            }
            r.push(x);
            i += 1;
            proof {
                assert(r.deep_view() =~~= oldr.push(self.keys@[i - 1]@));
                assert(self.key_seq()[i - 1] == self.keys@[i - 1]@);
                assert(oldr.push(self.keys@[i - 1]@) =~~= self.key_seq().subrange(0, i as int));
            }
        }
        proof {
            assert(self.key_seq().subrange(0, n as int) =~= self.key_seq());
        }
        r
    }

    /// The key at position `i`.
    pub fn key_at(&self, i: usize) -> (r: &String)
        requires
            i < self.key_seq().len(),
        ensures
            r@ == self.key_seq()[i as int],
    {
        proof {
            assert(self.key_seq()[i as int] == self.keys@[i as int]@);
        }
        &self.keys[i]
    }

    /// The value at position `i`.
    pub fn val_at(&self, i: usize) -> (r: &V)
        requires
            self.wf(),
            i < self.key_seq().len(),
        ensures
            *r == self.val_seq()[i as int],
            self.spec_get(self.key_seq()[i as int]) == Some(*r),
    {
        proof {
            lemma_seq_index_of_props(self.key_seq(), self.key_seq()[i as int]);
            let r = seq_index_of(self.key_seq(), self.key_seq()[i as int]);
            if r >= 0 && r != i as int {
                assert(self.key_seq()[r] == self.key_seq()[i as int]);
            }
            if r < 0 {
                assert(self.key_seq()[i as int] != self.key_seq()[i as int]);
            }
        }
        &self.vals[i]
    }

    /// Remove every entry.
    pub fn clear(&mut self)
        ensures
            final(self).wf(),
            final(self).key_seq() == Seq::<Seq<char>>::empty(),
            final(self).val_seq() == Seq::<V>::empty(),
    {
        self.keys.clear();
        self.vals.clear();
        proof {
            assert(self.key_seq() =~= Seq::<Seq<char>>::empty());
        }
    }
}

impl StrMap<String> {
    /// A copy of a map of strings, equal entry by entry.
    pub fn duplicate(&self) -> (r: StrMap<String>)
        requires
            self.wf(),
        ensures
            r.wf(),
            r.key_seq() == self.key_seq(),
            r.val_seq().len() == self.val_seq().len(),
            forall|i: int|
                0 <= i < r.val_seq().len() ==> (#[trigger] r.val_seq()[i])@
                    == self.val_seq()[i]@,
            forall|k: Seq<char>| #![auto] crate::text::opt_view(r.spec_get(k))
                == crate::text::opt_view(self.spec_get(k)),
    {
        let mut keys2: Vec<String> = Vec::new();
        let mut vals2: Vec<String> = Vec::new();
        let n = self.keys.len();
        let mut i: usize = 0;
        let nv = self.vals.len();
        while i < n && i < nv
            invariant
                n == self.keys@.len(),
                nv == self.vals@.len(),
                n == nv,
                i <= n,
                i <= nv,
                keys2@.len() == i,
                vals2@.len() == i,
                forall|j: int| 0 <= j < i ==> keys2@[j] == self.keys@[j],
                forall|j: int| 0 <= j < i ==> (#[trigger] vals2@[j])@ == self.vals@[j]@,
            decreases n - i,
        {
            keys2.push(self.keys[i].clone());
            vals2.push(self.vals[i].clone());
            i += 1;
        }
        let r = StrMap { keys: keys2, vals: vals2 };
        proof {
            assert(r.key_seq() =~~= self.key_seq());
            assert forall|k: Seq<char>| #![auto] crate::text::opt_view(r.spec_get(k))
                == crate::text::opt_view(self.spec_get(k)) by {
                lemma_seq_index_of_props(r.key_seq(), k);
                lemma_seq_index_of_props(self.key_seq(), k);
            }
        }
        r
    }

}

} // verus!
