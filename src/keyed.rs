use vstd::prelude::*;

verus! {

/// A key type whose equality can be decided on its view.
pub trait ExactKey: View + Sized {
    fn same_key(&self, o: &Self) -> (r: bool)
        ensures
            r == (self@ == o@),
    ;

    fn copy_key(&self) -> (r: Self)
        ensures
            r@ == self@,
    ;
}

impl<A: ExactKey, B: ExactKey> ExactKey for (A, B) {
    fn same_key(&self, o: &Self) -> (r: bool) {
        self.0.same_key(&o.0) && self.1.same_key(&o.1)
    }

    fn copy_key(&self) -> (r: Self) {
        (self.0.copy_key(), self.1.copy_key())
    }
}

impl<A: ExactKey, B: ExactKey, C: ExactKey> ExactKey for (A, B, C) {
    fn same_key(&self, o: &Self) -> (r: bool) {
        self.0.same_key(&o.0) && self.1.same_key(&o.1) && self.2.same_key(&o.2)
    }

    fn copy_key(&self) -> (r: Self) {
        (self.0.copy_key(), self.1.copy_key(), self.2.copy_key())
    }
}

/// A finite map kept as a list of entries with pairwise distinct keys.
/// Entries keep their relative order: a new key goes to the end, and removing a
/// key closes the gap.
pub struct KeyedList<K: View, V: View> {
    entries: Vec<(K, V)>,
    contents: Ghost<Map<K::V, V::V>>,
}

impl<K: ExactKey, V: View> KeyedList<K, V> {
    /// What the list maps each key to.
    pub closed spec fn map(&self) -> Map<K::V, V::V> {
        self.contents@
    }

    /// The entries, in their order, as views.
    pub closed spec fn entries(&self) -> Seq<(K::V, V::V)> {
        self.entries@.map_values(|e: (K, V)| (e.0@, e.1@))
    }

    pub closed spec fn wf(&self) -> bool {
        &&& forall|i: int, j: int|
            0 <= i < j < self.entries@.len() ==> #[trigger] self.entries@[i].0@
                != #[trigger] self.entries@[j].0@
        &&& forall|i: int|
            0 <= i < self.entries@.len() ==> self.contents@.contains_key(
                #[trigger] self.entries@[i].0@,
            ) && self.contents@[self.entries@[i].0@] == self.entries@[i].1@
        &&& forall|k: K::V|
            #[trigger] self.contents@.contains_key(k) ==> exists|i: int|
                0 <= i < self.entries@.len() && #[trigger] self.entries@[i].0@ == k
    }

    /// The map agrees with the entries, whose keys are distinct.
    pub proof fn lemma_entries(&self)
        requires
            self.wf(),
        ensures
            forall|i: int, j: int|
                0 <= i < j < self.entries().len() ==> #[trigger] self.entries()[i].0
                    != #[trigger] self.entries()[j].0,
            forall|i: int|
                0 <= i < self.entries().len() ==> self.map().contains_key(
                    #[trigger] self.entries()[i].0,
                ) && self.map()[self.entries()[i].0] == self.entries()[i].1,
            forall|k: K::V|
                #[trigger] self.map().contains_key(k) ==> exists|i: int|
                    0 <= i < self.entries().len() && #[trigger] self.entries()[i].0 == k,
    {
        assert forall|k: K::V| #[trigger] self.map().contains_key(k) implies exists|i: int|
            0 <= i < self.entries().len() && #[trigger] self.entries()[i].0 == k by {
            let i = choose|i: int| 0 <= i < self.entries@.len() && #[trigger] self.entries@[i].0@ == k;
            assert(self.entries()[i].0 == k);
        }
    }

    pub fn new() -> (r: Self)
        ensures
            r.wf(),
            r.map() == Map::<K::V, V::V>::empty(),
            r.entries() == Seq::<(K::V, V::V)>::empty(),
    {
        let r = KeyedList { entries: Vec::new(), contents: Ghost(Map::empty()) };
        assert(r.entries() =~= Seq::<(K::V, V::V)>::empty());
        r
    }

    pub fn len(&self) -> (r: usize)
        ensures
            r == self.entries().len(),
    {
        self.entries.len()
    }

    pub fn key_at(&self, i: usize) -> (r: &K)
        requires
            i < self.entries().len(),
        ensures
            r@ == self.entries()[i as int].0,
    {
        &self.entries[i].0
    }

    pub fn value_at(&self, i: usize) -> (r: &V)
        requires
            i < self.entries().len(),
        ensures
            r@ == self.entries()[i as int].1,
    {
        &self.entries[i].1
    }

    /// Position of the entry with key `k`, if there is one.
    pub fn find(&self, k: &K) -> (r: Option<usize>)
        requires
            self.wf(),
        ensures
            r is None <==> !self.map().contains_key(k@),
            r matches Some(i) ==> i < self.entries().len() && self.entries()[i as int].0 == k@,
    {
        let mut i: usize = 0;
        while i < self.entries.len()
            invariant
                self.wf(),
                i <= self.entries@.len(),
                forall|j: int| 0 <= j < i ==> #[trigger] self.entries@[j].0@ != k@,
            decreases self.entries@.len() - i,
        {
            if self.entries[i].0.same_key(k) {
                return Some(i);
            }
            i = i + 1;
        }
        None
    }

    pub fn get(&self, k: &K) -> (r: Option<&V>)
        requires
            self.wf(),
        ensures
            r is Some <==> self.map().contains_key(k@),
            r matches Some(v) ==> v@ == self.map()[k@],
    {
        match self.find(k) {
            Some(i) => Some(&self.entries[i].1),
            None => None,
        }
    }

    /// Replaces the value of the entry at position `i`.
    pub fn set_value_at(&mut self, i: usize, v: V)
        requires
            old(self).wf(),
            i < old(self).entries().len(),
        ensures
            final(self).wf(),
            final(self).map() == old(self).map().insert(old(self).entries()[i as int].0, v@),
            final(self).entries() == old(self).entries().update(
                i as int,
                (old(self).entries()[i as int].0, v@),
            ),
    {
        let ghost k = self.entries@[i as int].0@;
        let ghost vv = v@;
        let ghost old_map = self.contents@;
        let ghost old_entries = self.entries@;
        let (key, _old_value) = self.entries.remove(i);
        self.entries.insert(i, (key, v));
        self.contents = Ghost(old_map.insert(k, vv));
        assert(self.entries@ =~= old_entries.update(i as int, self.entries@[i as int]));
        assert forall|kk: K::V| #[trigger] self.contents@.contains_key(kk) implies exists|j: int|
            0 <= j < self.entries@.len() && #[trigger] self.entries@[j].0@ == kk by {
            if kk != k {
                let j = choose|j: int| 0 <= j < old_entries.len() && #[trigger] old_entries[j].0@ == kk;
                assert(self.entries@[j].0@ == kk);
            } else {
                assert(self.entries@[i as int].0@ == kk);
            }
        }
        assert(self.entries() =~= old(self).entries().update(
            i as int,
            (old(self).entries()[i as int].0, v@),
        ));
    }

    /// Maps `k` to `v`: overwrites the entry of `k` in place, or adds one at the end.
    pub fn insert(&mut self, k: K, v: V)
        requires
            old(self).wf(),
        ensures
            final(self).wf(),
            final(self).map() == old(self).map().insert(k@, v@),
            old(self).map().contains_key(k@) ==> exists|i: int|
                0 <= i < old(self).entries().len() && old(self).entries()[i].0 == k@
                    && final(self).entries() == old(self).entries().update(i, (k@, v@)),
            !old(self).map().contains_key(k@) ==> final(self).entries() == old(
                self,
            ).entries().push((k@, v@)),
    {
        match self.find(&k) {
            Some(i) => {
                self.set_value_at(i, v);
            },
            None => {
                let ghost kk = k@;
                let ghost vv = v@;
                let ghost old_map = self.contents@;
                let ghost old_entries = self.entries@;
                self.entries.push((k, v));
                self.contents = Ghost(old_map.insert(kk, vv));
                assert forall|q: K::V| #[trigger] self.contents@.contains_key(q) implies exists|j: int|
                    0 <= j < self.entries@.len() && #[trigger] self.entries@[j].0@ == q by {
                    if q != kk {
                        let j = choose|j: int|
                            0 <= j < old_entries.len() && #[trigger] old_entries[j].0@ == q;
                        assert(self.entries@[j].0@ == q);
                    } else {
                        assert(self.entries@[old_entries.len() as int].0@ == q);
                    }
                }
                assert forall|a: int, b: int|
                    0 <= a < b < self.entries@.len() implies #[trigger] self.entries@[a].0@
                    != #[trigger] self.entries@[b].0@ by {
                    if b == old_entries.len() {
                        assert(old_map.contains_key(old_entries[a].0@));
                    }
                }
                assert(self.entries() =~= old(self).entries().push((kk, vv)));
            },
        }
    }

    /// Removes the entry at position `i` and hands it back.
    pub fn remove_at(&mut self, i: usize) -> (r: (K, V))
        requires
            old(self).wf(),
            i < old(self).entries().len(),
        ensures
            final(self).wf(),
            (r.0@, r.1@) == old(self).entries()[i as int],
            final(self).map() == old(self).map().remove(old(self).entries()[i as int].0),
            final(self).entries() == old(self).entries().remove(i as int),
    {
        let ghost k = self.entries@[i as int].0@;
        let ghost old_map = self.contents@;
        let ghost old_entries = self.entries@;
        let r = self.entries.remove(i);
        self.contents = Ghost(old_map.remove(k));
        assert forall|j: int| 0 <= j < self.entries@.len() implies self.contents@.contains_key(
            #[trigger] self.entries@[j].0@,
        ) && self.contents@[self.entries@[j].0@] == self.entries@[j].1@ by {
            if j < i {
                assert(self.entries@[j] == old_entries[j]);
            } else {
                assert(self.entries@[j] == old_entries[j + 1]);
            }
        }
        assert forall|q: K::V| #[trigger] self.contents@.contains_key(q) implies exists|j: int|
            0 <= j < self.entries@.len() && #[trigger] self.entries@[j].0@ == q by {
            let j = choose|j: int| 0 <= j < old_entries.len() && #[trigger] old_entries[j].0@ == q;
            if j < i {
                assert(self.entries@[j].0@ == q);
            } else {
                assert(j != i);
                assert(self.entries@[j - 1].0@ == q);
            }
        }
        assert forall|a: int, b: int|
            0 <= a < b < self.entries@.len() implies #[trigger] self.entries@[a].0@
            != #[trigger] self.entries@[b].0@ by {
            let oa = if a < i { a } else { a + 1 };
            let ob = if b < i { b } else { b + 1 };
            assert(self.entries@[a] == old_entries[oa]);
            assert(self.entries@[b] == old_entries[ob]);
        }
        assert(self.entries() =~= old(self).entries().remove(i as int));
        r
    }

    /// Removes the entry of `k`, if there is one, and hands back its value.
    pub fn remove(&mut self, k: &K) -> (r: Option<V>)
        requires
            old(self).wf(),
        ensures
            final(self).wf(),
            final(self).map() == old(self).map().remove(k@),
            r is Some <==> old(self).map().contains_key(k@),
            r matches Some(v) ==> v@ == old(self).map()[k@],
    {
        match self.find(k) {
            Some(i) => {
                proof {
                    self.lemma_entries();
                }
                let (_key, v) = self.remove_at(i);
                Some(v)
            },
            None => {
                assert(self.map().remove(k@) =~= self.map());
                None
            },
        }
    }
}

} // verus!
