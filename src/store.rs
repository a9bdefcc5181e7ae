use vstd::prelude::*;

verus! {

/// A key of a name-resolution table, compared by its textual parts.
pub trait EntryKey: Sized {
    spec fn key_view(&self) -> Seq<Seq<char>>;

    fn same_key(&self, other: &Self) -> (r: bool)
        ensures
            r == (self.key_view() == other.key_view()),
    ;
}

impl EntryKey for String {
    open spec fn key_view(&self) -> Seq<Seq<char>> {
        seq![self@]
    }

    fn same_key(&self, other: &String) -> (r: bool) {
        let r = *self == *other;
        proof {
            if !r {
                assert(self.key_view()[0] != other.key_view()[0]);
            } else {
                assert(self.key_view() =~= other.key_view());
            }
        }
        r
    }
}

/// Upserts `adds` into `m` in order; a later pair for the same key wins.
pub open spec fn with_added<K: EntryKey, V>(m: Map<Seq<Seq<char>>, V>, adds: Seq<(K, V)>) -> Map<
    Seq<Seq<char>>,
    V,
>
    decreases adds.len(),
{
    if adds.len() == 0 {
        m
    } else {
        with_added(m.insert(adds[0].0.key_view(), adds[0].1), adds.drop_first())
    }
}

/// Deletes each of `keys` from `m`, where present.
pub open spec fn with_removed<K: EntryKey, V>(m: Map<Seq<Seq<char>>, V>, keys: Seq<K>) -> Map<
    Seq<Seq<char>>,
    V,
>
    decreases keys.len(),
{
    if keys.len() == 0 {
        m
    } else {
        with_removed(m.remove(keys[0].key_view()), keys.drop_first())
    }
}

/// The table after one reconciliation: upserts first, then removals.
pub open spec fn reconciled<K: EntryKey, V>(
    m: Map<Seq<Seq<char>>, V>,
    adds: Seq<(K, V)>,
    removes: Seq<K>,
) -> Map<Seq<Seq<char>>, V> {
    with_removed(with_added(m, adds), removes)
}

/// The set of keys that a removal list names.
pub open spec fn key_set<K: EntryKey>(keys: Seq<K>) -> Set<Seq<Seq<char>>> {
    Set::new(|k: Seq<Seq<char>>| exists|i: int| 0 <= i < keys.len() && #[trigger] keys[i].key_view() == k)
}

/// Upserting a list overrides `m` with the map that the list alone builds.
pub proof fn lemma_with_added_union<K: EntryKey, V>(m: Map<Seq<Seq<char>>, V>, adds: Seq<(K, V)>)
    ensures
        with_added(m, adds) == m.union_prefer_right(with_added(Map::empty(), adds)),
    decreases adds.len(),
{
    if adds.len() > 0 {
        let k = adds[0].0.key_view();
        let v = adds[0].1;
        let rest = adds.drop_first();
        lemma_with_added_union(m.insert(k, v), rest);
        lemma_with_added_union(Map::<Seq<Seq<char>>, V>::empty().insert(k, v), rest);
        assert(with_added(m, adds) =~= m.union_prefer_right(with_added(Map::empty(), adds)));
    }
}

/// Removing a list of keys removes exactly the set of those keys.
pub proof fn lemma_with_removed_keys<K: EntryKey, V>(m: Map<Seq<Seq<char>>, V>, keys: Seq<K>)
    ensures
        with_removed(m, keys) == m.remove_keys(key_set(keys)),
    decreases keys.len(),
{
    if keys.len() > 0 {
        let rest = keys.drop_first();
        lemma_with_removed_keys(m.remove(keys[0].key_view()), rest);
        assert forall|k: Seq<Seq<char>>| #[trigger] key_set(keys).contains(k) <==> (k
            == keys[0].key_view() || key_set(rest).contains(k)) by {
            if key_set(rest).contains(k) {
                let i = choose|i: int| 0 <= i < rest.len() && #[trigger] rest[i].key_view() == k;
                assert(keys[i + 1] == rest[i]);
            }
            if key_set(keys).contains(k) && k != keys[0].key_view() {
                let i = choose|i: int| 0 <= i < keys.len() && #[trigger] keys[i].key_view() == k;
                assert(rest[i - 1] == keys[i]);
            }
        }
        assert(with_removed(m, keys) =~= m.remove_keys(key_set(keys)));
    }
}

/// Applying the same reconciliation twice leaves the table as applying it once.
pub proof fn reconcile_idempotent<K: EntryKey, V>(
    m: Map<Seq<Seq<char>>, V>,
    adds: Seq<(K, V)>,
    removes: Seq<K>,
)
    ensures
        reconciled(reconciled(m, adds, removes), adds, removes) == reconciled(m, adds, removes),
{
    let once = reconciled(m, adds, removes);
    let a = with_added(Map::<Seq<Seq<char>>, V>::empty(), adds);
    lemma_with_added_union(m, adds);
    lemma_with_removed_keys(with_added(m, adds), removes);
    lemma_with_added_union(once, adds);
    lemma_with_removed_keys(with_added(once, adds), removes);
    assert(reconciled(once, adds, removes) =~= once);
}

/// A name-resolution table: unique keys, each mapped to one value.
pub struct NameStore<K, V> {
    entries: Vec<(K, V)>,
    contents: Ghost<Map<Seq<Seq<char>>, V>>,
}

impl<K: EntryKey, V> View for NameStore<K, V> {
    type V = Map<Seq<Seq<char>>, V>;

    closed spec fn view(&self) -> Map<Seq<Seq<char>>, V> {
        self.contents@
    }
}

impl<K: EntryKey, V> NameStore<K, V> {
    pub closed spec fn wf(&self) -> bool {
        &&& forall|i: int, j: int|
            0 <= i < j < self.entries@.len() ==> #[trigger] self.entries@[i].0.key_view()
                != #[trigger] self.entries@[j].0.key_view()
        &&& forall|i: int|
            0 <= i < self.entries@.len() ==> self.contents@.contains_key(
                #[trigger] self.entries@[i].0.key_view(),
            ) && self.contents@[self.entries@[i].0.key_view()] == self.entries@[i].1
        &&& forall|k: Seq<Seq<char>>|
            #[trigger] self.contents@.contains_key(k) ==> exists|i: int|
                0 <= i < self.entries@.len() && #[trigger] self.entries@[i].0.key_view() == k
    }

    pub fn new() -> (r: NameStore<K, V>)
        ensures
            r.wf(),
            r@ == Map::<Seq<Seq<char>>, V>::empty(),
    {
        NameStore { entries: Vec::new(), contents: Ghost(Map::empty()) }
    }

    fn find(&self, key: &K) -> (r: Option<usize>)
        requires
            self.wf(),
        ensures
            r matches Some(i) ==> i < self.entries@.len() && self.entries@[i as int].0.key_view()
                == key.key_view(),
            r is None ==> !self@.contains_key(key.key_view()),
    {
        let mut i: usize = 0;
        while i < self.entries.len()
            invariant
                self.wf(),
                i <= self.entries@.len(),
                forall|j: int| 0 <= j < i ==> self.entries@[j].0.key_view() != key.key_view(),
            decreases self.entries@.len() - i,
        {
            if self.entries[i].0.same_key(key) {
                return Some(i);
            }
            i = i + 1;
        }
        None
    }

    /// The value stored under `key`.
    pub fn get(&self, key: &K) -> (r: Option<&V>)
        requires
            self.wf(),
        ensures
            r is Some == self@.contains_key(key.key_view()),
            r matches Some(v) ==> *v == self@[key.key_view()],
    {
        match self.find(key) {
            Some(i) => Some(&self.entries[i].1),
            None => None,
        }
    }

    /// Writes `value` under `key`, replacing any earlier value.
    pub fn upsert(&mut self, key: K, value: V)
        requires
            old(self).wf(),
        ensures
            final(self).wf(),
            final(self)@ == old(self)@.insert(key.key_view(), value),
    {
        let ghost k = key.key_view();
        let ghost prev = self.entries@;
        let found = self.find(&key);
        self.contents = Ghost(self.contents@.insert(k, value));
        match found {
            Some(i) => {
                self.entries.set(i, (key, value));
                assert(forall|j: int| 0 <= j < prev.len() && j != i ==> self.entries@[j] == prev[j]);
                assert forall|kk: Seq<Seq<char>>| #[trigger]
                    self.contents@.contains_key(kk) implies exists|j: int|
                    0 <= j < self.entries@.len() && #[trigger] self.entries@[j].0.key_view()
                        == kk by {
                    if kk == k {
                        assert(self.entries@[i as int].0.key_view() == kk);
                    } else {
                        assert(old(self).contents@.contains_key(kk));
                        let j = choose|j: int|
                            0 <= j < prev.len() && #[trigger] prev[j].0.key_view() == kk;
                        assert(self.entries@[j].0.key_view() == kk);
                    }
                }
            },
            None => {
                self.entries.push((key, value));
                assert(forall|j: int| 0 <= j < prev.len() ==> self.entries@[j] == prev[j]);
                assert forall|kk: Seq<Seq<char>>| #[trigger]
                    self.contents@.contains_key(kk) implies exists|j: int|
                    0 <= j < self.entries@.len() && #[trigger] self.entries@[j].0.key_view()
                        == kk by {
                    if kk == k {
                        assert(self.entries@[prev.len() as int].0.key_view() == kk);
                    } else {
                        assert(old(self).contents@.contains_key(kk));
                        let j = choose|j: int|
                            0 <= j < prev.len() && #[trigger] prev[j].0.key_view() == kk;
                        assert(self.entries@[j].0.key_view() == kk);
                    }
                }
            },
        }
    }

    /// Deletes the entry under `key`; a missing key is no error.
    pub fn remove(&mut self, key: &K)
        requires
            old(self).wf(),
        ensures
            final(self).wf(),
            final(self)@ == old(self)@.remove(key.key_view()),
    {
        let ghost k = key.key_view();
        match self.find(key) {
            Some(i) => {
                let ghost prev = self.entries@;
                let ghost last = prev.len() - 1;
                self.contents = Ghost(self.contents@.remove(k));
                let _ = self.entries.swap_remove(i);
                assert forall|j: int| 0 <= j < self.entries@.len() implies #[trigger]
                    self.entries@[j] == (if j == i {
                    prev[last]
                } else {
                    prev[j]
                }) by {}
                assert forall|kk: Seq<Seq<char>>| #[trigger]
                    self.contents@.contains_key(kk) implies exists|j: int|
                    0 <= j < self.entries@.len() && #[trigger] self.entries@[j].0.key_view()
                        == kk by {
                    assert(old(self).contents@.contains_key(kk));
                    let j = choose|j: int|
                        0 <= j < prev.len() && #[trigger] prev[j].0.key_view() == kk;
                    if j == last {
                        assert(self.entries@[i as int].0.key_view() == kk);
                    } else {
                        assert(self.entries@[j].0.key_view() == kk);
                    }
                }
            },
            None => {
                assert(self.contents@.remove(k) =~= self.contents@);
            },
        }
    }

    /// Upserts every pair of `to_add` in order, then deletes every key of `to_remove`.
    pub fn reconcile(&mut self, to_add: Vec<(K, V)>, to_remove: &Vec<K>)
        requires
            old(self).wf(),
        ensures
            final(self).wf(),
            final(self)@ == reconciled(old(self)@, to_add@, to_remove@),
    {
        let mut adds = to_add;
        while adds.len() > 0
            invariant
                self.wf(),
                with_added(self@, adds@) == with_added(old(self)@, to_add@),
            decreases adds@.len(),
        {
            let ghost before = adds@;
            let (k, v) = adds.remove(0);
            assert(adds@ =~= before.drop_first());
            self.upsert(k, v);
        }
        let mut i: usize = 0;
        assert(to_remove@.subrange(0, to_remove@.len() as int) =~= to_remove@);
        while i < to_remove.len()
            invariant
                self.wf(),
                i <= to_remove@.len(),
                with_removed(self@, to_remove@.subrange(i as int, to_remove@.len() as int))
                    == reconciled(old(self)@, to_add@, to_remove@),
            decreases to_remove@.len() - i,
        {
            let ghost rest = to_remove@.subrange(i as int, to_remove@.len() as int);
            assert(rest.drop_first() =~= to_remove@.subrange(i + 1, to_remove@.len() as int));
            self.remove(&to_remove[i]);
            i = i + 1;
        }
    }
}

} // verus!
