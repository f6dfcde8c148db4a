//! Small keyed collections: a set and an association list whose keys are
//! compared by their mathematical view.
use vstd::prelude::*;

verus! {

/// A key whose executable equality agrees with equality of its view.
pub trait KeyEq: View + Sized {
    fn key_eq(&self, other: &Self) -> (r: bool)
        ensures
            r == (self@ == other@),
    ;
}

impl KeyEq for String {
    fn key_eq(&self, other: &Self) -> (r: bool) {
        *self == *other
    }
}

/// Does some element of `s` have view `k`?
pub open spec fn seq_has_key<K: View>(s: Seq<K>, k: K::V) -> bool {
    exists|i: int| 0 <= i < s.len() && #[trigger] s[i]@ == k
}

/// A set of keys, kept as a vector.
pub struct KeySet<K> {
    items: Vec<K>,
}

impl<K: KeyEq> View for KeySet<K> {
    type V = Set<K::V>;

    closed spec fn view(&self) -> Set<K::V> {
        Set::new(|k: K::V| seq_has_key(self.items@, k))
    }
}

impl<K: KeyEq> KeySet<K> {
    pub fn new() -> (s: Self)
        ensures
            s@ == Set::<K::V>::empty(),
    {
        let s = KeySet { items: Vec::new() };
        assert(s@ =~= Set::<K::V>::empty());
        s
    }

    pub fn contains(&self, k: &K) -> (r: bool)
        ensures
            r == self@.contains(k@),
    {
        let mut i: usize = 0;
        while i < self.items.len()
            invariant
                0 <= i <= self.items.len(),
                forall|j: int| 0 <= j < i ==> self.items@[j]@ != k@,
            decreases self.items.len() - i,
        {
            if self.items[i].key_eq(k) {
                return true;
            }
            i = i + 1;
        }
        false
    }

    /// Adds `k`; returns whether it was absent before.
    pub fn insert(&mut self, k: K) -> (r: bool)
        ensures
            final(self)@ == old(self)@.insert(k@),
            r == !old(self)@.contains(k@),
    {
        if self.contains(&k) {
            assert(self@ =~= old(self)@.insert(k@));
            false
        } else {
            let ghost kv = k@;
            self.items.push(k);
            assert forall|x: K::V| #[trigger] self@.contains(x) == old(self)@.insert(kv).contains(x) by {
                if x == kv {
                    assert(self.items@[self.items@.len() - 1]@ == x);
                }
                if old(self)@.contains(x) {
                    let j = choose|j: int| 0 <= j < old(self).items@.len() && #[trigger] old(self).items@[j]@ == x;
                    assert(self.items@[j] == old(self).items@[j]);
                }
                if self@.contains(x) && x != kv {
                    let j = choose|j: int| 0 <= j < self.items@.len() && #[trigger] self.items@[j]@ == x;
                    assert(old(self).items@[j] == self.items@[j]);
                }
            }
            assert(self@ =~= old(self)@.insert(kv));
            true
        }
    }

    pub fn remove(&mut self, k: &K)
        ensures
            final(self)@ == old(self)@.remove(k@),
    {
        let ghost old_items = self.items@;
        let mut kept: Vec<K> = Vec::new();
        let mut rest: Vec<K> = Vec::new();
        std::mem::swap(&mut rest, &mut self.items);
        let ghost all = rest@;
        // Move the items out one by one, keeping those that differ from `k`.
        while rest.len() > 0
            invariant
                all == old_items,
                rest@.len() <= all.len(),
                rest@ == all.subrange(all.len() - rest@.len(), all.len() as int),
                forall|j: int| 0 <= j < kept@.len() ==> #[trigger] kept@[j]@ != k@,
                forall|x: K::V| seq_has_key(kept@, x) <==>
                    (x != k@ && exists|j: int| 0 <= j < all.len() - rest@.len() && #[trigger] all[j]@ == x),
            decreases rest.len(),
        {
            let ghost before = rest@;
            let ghost kept_before = kept@;
            let item = rest.remove(0);
            let ghost pos = all.len() - before.len();
            assert(item == all[pos]);
            let keep = !item.key_eq(k);
            if keep {
                kept.push(item);
            }
            assert forall|x: K::V| seq_has_key(kept@, x) <==>
                (x != k@ && exists|j: int| 0 <= j < all.len() - rest@.len() && #[trigger] all[j]@ == x) by {
                if seq_has_key(kept@, x) {
                    let j = choose|j: int| 0 <= j < kept@.len() && #[trigger] kept@[j]@ == x;
                    if j < kept_before.len() {
                        assert(kept_before[j]@ == x);
                        assert(seq_has_key(kept_before, x));
                        let jj = choose|jj: int| 0 <= jj < all.len() - before.len() && #[trigger] all[jj]@ == x;
                        assert(0 <= jj < all.len() - rest@.len());
                    } else {
                        assert(keep);
                        assert(all[pos]@ == x);
                    }
                }
                if x != k@ && exists|j: int| 0 <= j < all.len() - rest@.len() && #[trigger] all[j]@ == x {
                    let j = choose|j: int| 0 <= j < all.len() - rest@.len() && #[trigger] all[j]@ == x;
                    if j == pos {
                        assert(keep);
                        assert(kept@[kept@.len() - 1]@ == x);
                    } else {
                        assert(exists|jj: int| 0 <= jj < all.len() - before.len() && #[trigger] all[jj]@ == x);
                        assert(seq_has_key(kept_before, x));
                        let i = choose|i: int| 0 <= i < kept_before.len() && #[trigger] kept_before[i]@ == x;
                        assert(kept@[i] == kept_before[i]);
                    }
                }
            }
        }
        self.items = kept;
        assert(self@ =~= old(self)@.remove(k@));
    }

    /// The number of stored keys.
    pub closed spec fn count(&self) -> nat {
        self.items@.len()
    }

    /// A set holding two different keys stores at least two.
    pub proof fn lemma_count_two(&self, a: K::V, b: K::V)
        requires
            self@.contains(a),
            self@.contains(b),
            a != b,
        ensures
            self.count() >= 2,
    {
        assert(seq_has_key(self.items@, a));
        assert(seq_has_key(self.items@, b));
        let i = choose|i: int| 0 <= i < self.items@.len() && #[trigger] self.items@[i]@ == a;
        let j = choose|j: int| 0 <= j < self.items@.len() && #[trigger] self.items@[j]@ == b;
        assert(i != j);
    }

    pub fn len(&self) -> (n: usize)
        ensures
            n == self.count(),
    {
        self.items.len()
    }

    pub fn clear(&mut self)
        ensures
            final(self)@ == Set::<K::V>::empty(),
    {
        self.items.clear();
        assert(self@ =~= Set::<K::V>::empty());
    }
}

/// No two entries share a key.
pub open spec fn distinct_keys<K: View, V>(s: Seq<(K, V)>) -> bool {
    forall|i: int, j: int| 0 <= i < s.len() && 0 <= j < s.len() && i != j
        ==> #[trigger] s[i].0@ != #[trigger] s[j].0@
}

/// A map from keys to values, kept as a vector of entries with distinct keys.
pub struct AssocList<K, V> {
    entries: Vec<(K, V)>,
}

impl<K: KeyEq, V> View for AssocList<K, V> {
    type V = Map<K::V, V>;

    closed spec fn view(&self) -> Map<K::V, V> {
        Map::new(
            |k: K::V| exists|i: int| 0 <= i < self.entries@.len() && #[trigger] self.entries@[i].0@ == k,
            |k: K::V| self.entries@[choose|i: int| 0 <= i < self.entries@.len() && #[trigger] self.entries@[i].0@ == k].1,
        )
    }
}

impl<K: KeyEq, V> AssocList<K, V> {
    /// Keys are pairwise distinct.
    pub closed spec fn wf(&self) -> bool {
        distinct_keys(self.entries@)
    }

    proof fn lemma_lookup(&self, i: int)
        requires
            self.wf(),
            0 <= i < self.entries@.len(),
        ensures
            self@.contains_key(self.entries@[i].0@),
            self@[self.entries@[i].0@] == self.entries@[i].1,
    {
        let k = self.entries@[i].0@;
        assert(self@.contains_key(k));
        let c = choose|c: int| 0 <= c < self.entries@.len() && #[trigger] self.entries@[c].0@ == k;
        assert(c == i);
    }

    pub fn new() -> (m: Self)
        ensures
            m.wf(),
            m@ == Map::<K::V, V>::empty(),
    {
        let m = AssocList { entries: Vec::new() };
        assert(m@ =~= Map::<K::V, V>::empty());
        m
    }

    fn find(&self, k: &K) -> (r: Option<usize>)
        ensures
            match r {
                Some(i) => i < self.entries@.len() && self.entries@[i as int].0@ == k@,
                None => forall|j: int| 0 <= j < self.entries@.len() ==> #[trigger] self.entries@[j].0@ != k@,
            },
    {
        let mut i: usize = 0;
        while i < self.entries.len()
            invariant
                0 <= i <= self.entries.len(),
                forall|j: int| 0 <= j < i ==> #[trigger] self.entries@[j].0@ != k@,
            decreases self.entries.len() - i,
        {
            if self.entries[i].0.key_eq(k) {
                return Some(i);
            }
            i = i + 1;
        }
        None
    }

    /// The entries, each key once.
    pub fn entries(&self) -> (r: &Vec<(K, V)>)
        requires
            self.wf(),
        ensures
            distinct_keys(r@),
            forall|i: int| 0 <= i < r@.len() ==> self@.contains_key(#[trigger] r@[i].0@) && self@[r@[i].0@] == r@[i].1,
            forall|k: K::V| self@.contains_key(k) ==> exists|i: int| 0 <= i < r@.len() && #[trigger] r@[i].0@ == k,
    {
        proof {
            assert forall|i: int| 0 <= i < self.entries@.len() implies self@.contains_key(#[trigger] self.entries@[i].0@)
                && self@[self.entries@[i].0@] == self.entries@[i].1 by {
                self.lemma_lookup(i);
            }
        }
        &self.entries
    }

    pub fn contains_key(&self, k: &K) -> (r: bool)
        ensures
            r == self@.contains_key(k@),
    {
        self.find(k).is_some()
    }

    pub fn get(&self, k: &K) -> (r: Option<&V>)
        requires
            self.wf(),
        ensures
            r is Some == self@.contains_key(k@),
            r is Some ==> *r->0 == self@[k@],
    {
        match self.find(k) {
            Some(i) => {
                proof {
                    self.lemma_lookup(i as int);
                }
                Some(&self.entries[i].1)
            },
            None => None,
        }
    }

    pub fn insert(&mut self, k: K, v: V)
        requires
            old(self).wf(),
        ensures
            final(self).wf(),
            final(self)@ == old(self)@.insert(k@, v),
    {
        let ghost kv = k@;
        match self.find(&k) {
            Some(i) => {
                self.entries.set(i, (k, v));
                assert forall|a: int, b: int| 0 <= a < self.entries@.len() && 0 <= b < self.entries@.len() && a != b
                    implies #[trigger] self.entries@[a].0@ != #[trigger] self.entries@[b].0@ by {
                    assert(old(self).entries@[a].0@ != old(self).entries@[b].0@);
                }
                assert forall|x: K::V| #[trigger] self@.contains_key(x) == old(self)@.insert(kv, v).contains_key(x) by {
                    if self@.contains_key(x) {
                        let j = choose|j: int| 0 <= j < self.entries@.len() && #[trigger] self.entries@[j].0@ == x;
                        if j != i {
                            assert(old(self).entries@[j] == self.entries@[j]);
                        }
                    }
                    if old(self)@.contains_key(x) {
                        let j = choose|j: int| 0 <= j < old(self).entries@.len() && #[trigger] old(self).entries@[j].0@ == x;
                        assert(self.entries@[j].0@ == x);
                    }
                    if x == kv {
                        assert(self.entries@[i as int].0@ == x);
                    }
                }
                assert forall|x: K::V| #[trigger] self@.contains_key(x) implies self@[x] == old(self)@.insert(kv, v)[x] by {
                    let j = choose|j: int| 0 <= j < self.entries@.len() && #[trigger] self.entries@[j].0@ == x;
                    self.lemma_lookup(j);
                    if j != i {
                        old(self).lemma_lookup(j);
                    }
                }
                assert(self@ =~= old(self)@.insert(kv, v));
            },
            None => {
                self.entries.push((k, v));
                let ghost n = self.entries@.len() - 1;
                assert forall|a: int, b: int| 0 <= a < self.entries@.len() && 0 <= b < self.entries@.len() && a != b
                    implies #[trigger] self.entries@[a].0@ != #[trigger] self.entries@[b].0@ by {
                    if a < n && b < n {
                        assert(old(self).entries@[a].0@ != old(self).entries@[b].0@);
                    } else if a == n {
                        assert(old(self).entries@[b].0@ != kv);
                    } else {
                        assert(old(self).entries@[a].0@ != kv);
                    }
                }
                assert forall|x: K::V| #[trigger] self@.contains_key(x) == old(self)@.insert(kv, v).contains_key(x) by {
                    if self@.contains_key(x) {
                        let j = choose|j: int| 0 <= j < self.entries@.len() && #[trigger] self.entries@[j].0@ == x;
                        if j != n {
                            assert(old(self).entries@[j] == self.entries@[j]);
                        }
                    }
                    if old(self)@.contains_key(x) {
                        let j = choose|j: int| 0 <= j < old(self).entries@.len() && #[trigger] old(self).entries@[j].0@ == x;
                        assert(self.entries@[j].0@ == x);
                    }
                    if x == kv {
                        assert(self.entries@[n].0@ == x);
                    }
                }
                assert forall|x: K::V| #[trigger] self@.contains_key(x) implies self@[x] == old(self)@.insert(kv, v)[x] by {
                    let j = choose|j: int| 0 <= j < self.entries@.len() && #[trigger] self.entries@[j].0@ == x;
                    self.lemma_lookup(j);
                    if j != n {
                        assert(old(self).entries@[j] == self.entries@[j]);
                        old(self).lemma_lookup(j);
                    }
                }
                assert(self@ =~= old(self)@.insert(kv, v));
            },
        }
    }

    pub fn remove(&mut self, k: &K)
        requires
            old(self).wf(),
        ensures
            final(self).wf(),
            final(self)@ == old(self)@.remove(k@),
    {
        match self.find(k) {
            Some(i) => {
                let last = self.entries.len() - 1;
                let _ = self.entries.swap_remove(i);
                assert forall|a: int, b: int| 0 <= a < self.entries@.len() && 0 <= b < self.entries@.len() && a != b
                    implies #[trigger] self.entries@[a].0@ != #[trigger] self.entries@[b].0@ by {
                    let oa = if a == i { last as int } else { a };
                    let ob = if b == i { last as int } else { b };
                    assert(self.entries@[a] == old(self).entries@[oa]);
                    assert(self.entries@[b] == old(self).entries@[ob]);
                    assert(old(self).entries@[oa].0@ != old(self).entries@[ob].0@);
                }
                assert forall|x: K::V| #[trigger] self@.contains_key(x) == old(self)@.remove(k@).contains_key(x) by {
                    if self@.contains_key(x) {
                        let j = choose|j: int| 0 <= j < self.entries@.len() && #[trigger] self.entries@[j].0@ == x;
                        let oj = if j == i { last as int } else { j };
                        assert(self.entries@[j] == old(self).entries@[oj]);
                        assert(oj != i);
                        assert(old(self).entries@[oj].0@ != old(self).entries@[i as int].0@);
                    }
                    if old(self)@.contains_key(x) && x != k@ {
                        let j = choose|j: int| 0 <= j < old(self).entries@.len() && #[trigger] old(self).entries@[j].0@ == x;
                        assert(j != i);
                        if j == last {
                            assert(self.entries@[i as int].0@ == x);
                        } else {
                            assert(self.entries@[j].0@ == x);
                        }
                    }
                }
                assert forall|x: K::V| #[trigger] self@.contains_key(x) implies self@[x] == old(self)@.remove(k@)[x] by {
                    let j = choose|j: int| 0 <= j < self.entries@.len() && #[trigger] self.entries@[j].0@ == x;
                    self.lemma_lookup(j);
                    let oj = if j == i { last as int } else { j };
                    assert(self.entries@[j] == old(self).entries@[oj]);
                    old(self).lemma_lookup(oj);
                }
                assert(self@ =~= old(self)@.remove(k@));
            },
            None => {
                assert(self@ =~= old(self)@.remove(k@));
            },
        }
    }

    pub fn clear(&mut self)
        ensures
            final(self).wf(),
            final(self)@ == Map::<K::V, V>::empty(),
    {
        self.entries.clear();
        assert(self@ =~= Map::<K::V, V>::empty());
    }
}

} // verus!
