//! Small keyed maps over text keys, kept as vectors of entries with distinct
//! keys and viewed as mathematical maps.
use vstd::prelude::*;

verus! {

/// A key that compares by content.
pub trait MapKey: Sized {
    type KeyView;

    spec fn key_view(&self) -> Self::KeyView;

    fn same_key(&self, other: &Self) -> (r: bool)
        ensures
            r == (self.key_view() == other.key_view()),
    ;

    fn copy_key(&self) -> (r: Self)
        ensures
            r.key_view() == self.key_view(),
    ;
}

impl MapKey for String {
    type KeyView = Seq<char>;

    open spec fn key_view(&self) -> Seq<char> {
        self@
    }

    fn same_key(&self, other: &Self) -> (r: bool) {
        self.eq(other)
    }

    fn copy_key(&self) -> (r: Self) {
        self.clone()
    }
}

impl MapKey for (String, String) {
    type KeyView = (Seq<char>, Seq<char>);

    open spec fn key_view(&self) -> (Seq<char>, Seq<char>) {
        (self.0@, self.1@)
    }

    fn same_key(&self, other: &Self) -> (r: bool) {
        self.0.eq(&other.0) && self.1.eq(&other.1)
    }

    fn copy_key(&self) -> (r: Self) {
        (self.0.clone(), self.1.clone())
    }
}

/// The map an entry list stands for: later entries win.
pub open spec fn entries_map<K: MapKey, V>(s: Seq<(K, V)>) -> Map<K::KeyView, V>
    decreases s.len(),
{
    if s.len() == 0 {
        Map::empty()
    } else {
        entries_map(s.drop_last()).insert(s.last().0.key_view(), s.last().1)
    }
}

/// Entry keys are distinct.
pub open spec fn distinct_keys<K: MapKey, V>(s: Seq<(K, V)>) -> bool {
    forall|a: int, b: int| 0 <= a < b < s.len() ==> #[trigger] s[a].0.key_view() != #[trigger] s[b].0.key_view()
}

proof fn lemma_distinct_drop_last<K: MapKey, V>(s: Seq<(K, V)>)
    requires
        distinct_keys(s),
        s.len() > 0,
    ensures
        distinct_keys(s.drop_last()),
{
    let d = s.drop_last();
    assert forall|a: int, b: int| 0 <= a < b < d.len() implies #[trigger] d[a].0.key_view()
        != #[trigger] d[b].0.key_view() by {
        assert(d[a] == s[a]);
        assert(d[b] == s[b]);
    }
}

/// With distinct keys, the map holds exactly the entries.
proof fn lemma_entries_map<K: MapKey, V>(s: Seq<(K, V)>)
    requires
        distinct_keys(s),
    ensures
        forall|i: int| 0 <= i < s.len() ==> #[trigger] entries_map(s).contains_key(s[i].0.key_view())
            && entries_map(s)[s[i].0.key_view()] == s[i].1,
        forall|k: K::KeyView| #[trigger] entries_map(s).contains_key(k) ==> exists|i: int|
            0 <= i < s.len() && #[trigger] s[i].0.key_view() == k,
    decreases s.len(),
{
    if s.len() > 0 {
        let d = s.drop_last();
        lemma_distinct_drop_last(s);
        lemma_entries_map(d);
        assert(entries_map(s) == entries_map(d).insert(s.last().0.key_view(), s.last().1));
        assert forall|i: int| 0 <= i < s.len() implies #[trigger] entries_map(s).contains_key(
            s[i].0.key_view(),
        ) && entries_map(s)[s[i].0.key_view()] == s[i].1 by {
            if i < s.len() - 1 {
                assert(d[i] == s[i]);
                assert(s[i].0.key_view() != s[s.len() - 1].0.key_view());
                assert(entries_map(d).contains_key(d[i].0.key_view()));
            } else {
                assert(s[i] == s.last());
            }
        }
        assert forall|k: K::KeyView| #[trigger] entries_map(s).contains_key(k) implies exists|i: int|
            0 <= i < s.len() && #[trigger] s[i].0.key_view() == k by {
            if k != s.last().0.key_view() {
                assert(entries_map(d).contains_key(k));
                let i = choose|i: int| 0 <= i < d.len() && #[trigger] d[i].0.key_view() == k;
                assert(s[i] == d[i]);
            } else {
                assert(s[s.len() - 1].0.key_view() == k);
            }
        }
    }
}

/// A map from keys to values with distinct keys.
pub struct KeyedMap<K, V> {
    entries: Vec<(K, V)>,
}

impl<K: MapKey, V> KeyedMap<K, V> {
    pub closed spec fn view(&self) -> Map<K::KeyView, V> {
        entries_map(self.entries@)
    }

    pub closed spec fn wf(&self) -> bool {
        distinct_keys(self.entries@)
    }

    /// An empty map.
    pub fn new() -> (r: Self)
        ensures
            r.wf(),
            r.view() == Map::<K::KeyView, V>::empty(),
    {
        KeyedMap { entries: Vec::new() }
    }

    /// The entries, each key once.
    pub fn entries(&self) -> (r: &Vec<(K, V)>)
        requires
            self.wf(),
        ensures
            entries_map(r@) == self.view(),
            distinct_keys(r@),
    {
        &self.entries
    }

    fn position(&self, key: &K) -> (r: Option<usize>)
        requires
            self.wf(),
        ensures
            match r {
                Some(i) => i < self.entries@.len() && self.entries@[i as int].0.key_view() == key.key_view(),
                None => !self.view().contains_key(key.key_view()),
            },
    {
        proof {
            lemma_entries_map(self.entries@);
        }
        for i in 0..self.entries.len()
            invariant
                distinct_keys(self.entries@),
                forall|j: int| 0 <= j < i ==> #[trigger] self.entries@[j].0.key_view() != key.key_view(),
        {
            if self.entries[i].0.same_key(key) {
                return Some(i);
            }
        }
        None
    }

    /// Whether `key` has a value.
    pub fn contains(&self, key: &K) -> (r: bool)
        requires
            self.wf(),
        ensures
            r == self.view().contains_key(key.key_view()),
    {
        proof {
            lemma_entries_map(self.entries@);
        }
        self.position(key).is_some()
    }

    /// The value of `key`.
    pub fn get(&self, key: &K) -> (r: Option<&V>)
        requires
            self.wf(),
        ensures
            match r {
                Some(v) => self.view().contains_key(key.key_view()) && *v == self.view()[key.key_view()],
                None => !self.view().contains_key(key.key_view()),
            },
    {
        proof {
            lemma_entries_map(self.entries@);
        }
        match self.position(key) {
            Some(i) => {
                assert(entries_map(self.entries@).contains_key(self.entries@[i as int].0.key_view()));
                Some(&self.entries[i].1)
            },
            None => None,
        }
    }

    /// Set the value of `key`.
    pub fn insert(&mut self, key: K, value: V)
        requires
            old(self).wf(),
        ensures
            final(self).wf(),
            final(self).view() == old(self).view().insert(key.key_view(), value),
    {
        let ghost before = self.entries@;
        let ghost kv = key.key_view();
        proof {
            lemma_entries_map(before);
        }
        match self.position(&key) {
            Some(i) => {
                self.entries.remove(i);
                self.entries.insert(i, (key, value));
                proof {
                    let after = self.entries@;
                    assert(after =~= before.update(i as int, after[i as int]));
                    assert forall|a: int, b: int| 0 <= a < b < after.len() implies #[trigger] after[a].0.key_view()
                        != #[trigger] after[b].0.key_view() by {
                        if a != i {
                            assert(after[a] == before[a]);
                        }
                        if b != i {
                            assert(after[b] == before[b]);
                        }
                    }
                    lemma_entries_map(after);
                    assert(after[i as int].0.key_view() == kv);
                    assert(self.view().contains_key(after[i as int].0.key_view()));
                    assert(self.view() =~= before_map(before).insert(kv, value)) by {
                        assert forall|k: K::KeyView| #[trigger] self.view().contains_key(k)
                            <==> before_map(before).insert(kv, value).contains_key(k) by {
                            if self.view().contains_key(k) {
                                let j = choose|j: int| 0 <= j < after.len() && #[trigger] after[j].0.key_view() == k;
                                if j != i {
                                    assert(after[j] == before[j]);
                                }
                            }
                            if before_map(before).contains_key(k) && k != kv {
                                let j = choose|j: int| 0 <= j < before.len() && #[trigger] before[j].0.key_view() == k;
                                assert(after[j] == before[j]);
                            }
                        }
                        assert forall|k: K::KeyView| #[trigger] self.view().contains_key(k) implies self.view()[k]
                            == before_map(before).insert(kv, value)[k] by {
                            let j = choose|j: int| 0 <= j < after.len() && #[trigger] after[j].0.key_view() == k;
                            if j != i {
                                assert(after[j] == before[j]);
                            }
                        }
                    }
                }
            },
            None => {
                self.entries.push((key, value));
                proof {
                    let after = self.entries@;
                    assert(after.drop_last() =~= before);
                    assert forall|a: int, b: int| 0 <= a < b < after.len() implies #[trigger] after[a].0.key_view()
                        != #[trigger] after[b].0.key_view() by {
                        assert(after[a] == before[a]);
                        if b < before.len() {
                            assert(after[b] == before[b]);
                        } else {
                            assert(before_map(before).contains_key(before[a].0.key_view()));
                        }
                    }
                }
            },
        }
    }

    /// Remove the value of `key`; whether there was one.
    pub fn remove(&mut self, key: &K) -> (r: bool)
        requires
            old(self).wf(),
        ensures
            final(self).wf(),
            r == old(self).view().contains_key(key.key_view()),
            final(self).view() == old(self).view().remove(key.key_view()),
    {
        self.take(key).is_some()
    }

    /// Remove the value of `key` and hand it out.
    pub fn take(&mut self, key: &K) -> (r: Option<V>)
        requires
            old(self).wf(),
        ensures
            final(self).wf(),
            final(self).view() == old(self).view().remove(key.key_view()),
            match r {
                Some(v) => old(self).view().contains_key(key.key_view()) && v == old(self).view()[key.key_view()],
                None => !old(self).view().contains_key(key.key_view()),
            },
    {
        let ghost before = self.entries@;
        let ghost kv = key.key_view();
        proof {
            lemma_entries_map(before);
        }
        match self.position(key) {
            Some(i) => {
                assert(entries_map(before).contains_key(before[i as int].0.key_view()));
                let (_, value) = self.entries.remove(i);
                proof {
                    let after = self.entries@;
                    assert(after =~= before.remove(i as int));
                    assert forall|a: int, b: int| 0 <= a < b < after.len() implies #[trigger] after[a].0.key_view()
                        != #[trigger] after[b].0.key_view() by {
                        let a0 = if a < i { a } else { a + 1 };
                        let b0 = if b < i { b } else { b + 1 };
                        assert(after[a] == before[a0]);
                        assert(after[b] == before[b0]);
                    }
                    lemma_entries_map(after);
                    assert(self.view() =~= before_map(before).remove(kv)) by {
                        assert forall|k: K::KeyView| #[trigger] self.view().contains_key(k)
                            <==> before_map(before).remove(kv).contains_key(k) by {
                            if self.view().contains_key(k) {
                                let j = choose|j: int| 0 <= j < after.len() && #[trigger] after[j].0.key_view() == k;
                                let j0 = if j < i { j } else { j + 1 };
                                assert(after[j] == before[j0]);
                            }
                            if before_map(before).contains_key(k) && k != kv {
                                let j = choose|j: int| 0 <= j < before.len() && #[trigger] before[j].0.key_view() == k;
                                let j1 = if j < i { j } else { j - 1 };
                                assert(after[j1] == before[j]);
                            }
                        }
                        assert forall|k: K::KeyView| #[trigger] self.view().contains_key(k) implies self.view()[k]
                            == before_map(before).remove(kv)[k] by {
                            let j = choose|j: int| 0 <= j < after.len() && #[trigger] after[j].0.key_view() == k;
                            let j0 = if j < i { j } else { j + 1 };
                            assert(after[j] == before[j0]);
                        }
                    }
                }
                Some(value)
            },
            None => {
                assert(before_map(before).remove(kv) =~= before_map(before));
                None
            },
        }
    }

    /// Remove every value.
    pub fn clear(&mut self)
        ensures
            final(self).wf(),
            final(self).view() == Map::<K::KeyView, V>::empty(),
    {
        self.entries = Vec::new();
    }
}

/// The keys listed in `allowed`.
pub open spec fn key_set<K: MapKey>(allowed: Seq<K>) -> Set<K::KeyView> {
    Set::new(|k: K::KeyView| exists|i: int| 0 <= i < allowed.len() && #[trigger] allowed[i].key_view() == k)
}

fn listed_key<K: MapKey>(allowed: &Vec<K>, key: &K) -> (r: bool)
    ensures
        r == key_set(allowed@).contains(key.key_view()),
{
    for i in 0..allowed.len()
        invariant
            forall|j: int| 0 <= j < i ==> #[trigger] allowed@[j].key_view() != key.key_view(),
    {
        if allowed[i].same_key(key) {
            return true;
        }
    }
    false
}

impl<K: MapKey, V> KeyedMap<K, V> {
    /// Keep only the values of keys listed in `allowed`.
    pub fn retain_keys(&mut self, allowed: &Vec<K>)
        requires
            old(self).wf(),
        ensures
            final(self).wf(),
            final(self).view() == old(self).view().restrict(key_set(allowed@)),
    {
        let ghost before = self.entries@;
        proof {
            lemma_entries_map(before);
        }
        let mut all: Vec<(K, V)> = Vec::new();
        std::mem::swap(&mut all, &mut self.entries);
        let mut kept: Vec<(K, V)> = Vec::new();
        let ghost mut picked: Seq<int> = Seq::empty();
        while all.len() > 0
            invariant
                distinct_keys(before),
                all@ =~= before.subrange(before.len() - all@.len(), before.len() as int),
                all@.len() <= before.len(),
                picked.len() == kept@.len(),
                forall|a: int| 0 <= a < picked.len() ==> 0 <= #[trigger] picked[a] < before.len() - all@.len(),
                forall|a: int, b: int| 0 <= a < b < picked.len() ==> #[trigger] picked[a] < #[trigger] picked[b],
                forall|a: int| 0 <= a < picked.len() ==> before[#[trigger] picked[a]] == kept@[a],
                forall|a: int| 0 <= a < kept@.len() ==> key_set(allowed@).contains((#[trigger] kept@[a]).0.key_view()),
                forall|j: int|
                    0 <= j < before.len() - all@.len() && #[trigger] key_set(allowed@).contains(before[j].0.key_view())
                        ==> exists|a: int| 0 <= a < picked.len() && picked[a] == j,
            decreases all@.len(),
        {
            let ghost n = before.len() - all@.len();
            let ghost old_picked = picked;
            let entry = all.remove(0);
            assert(before[n] == entry);
            let listed = listed_key(allowed, &entry.0);
            if listed {
                kept.push(entry);
                proof {
                    picked = picked.push(n);
                    assert(picked[picked.len() - 1] == n);
                }
            }
            assert(all@ =~= before.subrange(before.len() - all@.len(), before.len() as int));
            assert forall|j: int|
                0 <= j < before.len() - all@.len() && #[trigger] key_set(allowed@).contains(before[j].0.key_view())
                    implies exists|a: int| 0 <= a < picked.len() && picked[a] == j by {
                if j < n {
                    let a = choose|a: int| 0 <= a < old_picked.len() && old_picked[a] == j;
                    assert(picked[a] == j);
                } else {
                    assert(picked[picked.len() - 1] == n);
                }
            }
        }
        proof {
            let kv = kept@;
            assert forall|a: int, b: int| 0 <= a < b < kv.len() implies #[trigger] kv[a].0.key_view()
                != #[trigger] kv[b].0.key_view() by {
                assert(before[picked[a]] == kv[a]);
                assert(before[picked[b]] == kv[b]);
            }
            lemma_entries_map(kv);
            let m = entries_map(kv);
            let want = entries_map(before).restrict(key_set(allowed@));
            assert forall|k: K::KeyView| #[trigger] m.contains_key(k) <==> want.contains_key(k) by {
                if m.contains_key(k) {
                    let a = choose|a: int| 0 <= a < kv.len() && #[trigger] kv[a].0.key_view() == k;
                    assert(before[picked[a]] == kv[a]);
                    assert(entries_map(before).contains_key(before[picked[a]].0.key_view()));
                }
                if want.contains_key(k) {
                    let j = choose|j: int| 0 <= j < before.len() && #[trigger] before[j].0.key_view() == k;
                    let a = choose|a: int| 0 <= a < picked.len() && picked[a] == j;
                    assert(kv[a] == before[j]);
                    assert(m.contains_key(kv[a].0.key_view()));
                }
            }
            assert forall|k: K::KeyView| #[trigger] m.contains_key(k) implies m[k] == want[k] by {
                let a = choose|a: int| 0 <= a < kv.len() && #[trigger] kv[a].0.key_view() == k;
                assert(before[picked[a]] == kv[a]);
                assert(entries_map(before).contains_key(before[picked[a]].0.key_view()));
            }
            assert(m =~= want);
        }
        self.entries = kept;
    }
}

pub open spec fn before_map<K: MapKey, V>(s: Seq<(K, V)>) -> Map<K::KeyView, V> {
    entries_map(s)
}

} // verus!
