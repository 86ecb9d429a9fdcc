use std::sync::Arc;
use vstd::prelude::*;

verus! {

/// A named collaboration session. The registry never looks inside a workspace:
/// it only files it under a key.
#[derive(Debug)]
pub struct Workspace {
    pub id: String,
    pub name: String,
}

/// Mathematical value of a [`Workspace`].
pub ghost struct WorkspaceModel {
    pub id: Seq<char>,
    pub name: Seq<char>,
}

impl View for Workspace {
    type V = WorkspaceModel;

    open spec fn view(&self) -> WorkspaceModel {
        WorkspaceModel { id: self.id@, name: self.name@ }
    }
}

impl Clone for Workspace {
    fn clone(&self) -> (r: Self)
        ensures
            r == *self,
    {
        Workspace { id: self.id.clone(), name: self.name.clone() }
    }
}

/// Mathematical value of a [`Registry`]: which workspace each key holds.
pub type RegistryModel = Map<Seq<char>, WorkspaceModel>;

/// One registered workspace: the key it is filed under and the shared handle.
struct Entry {
    key: String,
    handle: Arc<Workspace>,
}

/// The keys of a list of entries, in list order.
spec fn key_seq(entries: Seq<Entry>) -> Seq<Seq<char>> {
    entries.map_values(|e: Entry| e.key@)
}

/// The mapping that a list of entries stands for.
spec fn model_of(entries: Seq<Entry>) -> RegistryModel {
    Map::new(
        |k: Seq<char>| key_seq(entries).contains(k),
        |k: Seq<char>| entries[key_seq(entries).index_of(k)].handle@,
    )
}

/// With distinct keys, every entry is found under its own key, and every key of
/// the mapping belongs to some entry.
proof fn lemma_model_of(entries: Seq<Entry>)
    requires
        key_seq(entries).no_duplicates(),
    ensures
        forall|i: int|
            0 <= i < entries.len() ==> model_of(entries).contains_key(#[trigger] entries[i].key@)
                && model_of(entries)[entries[i].key@] == entries[i].handle@,
        forall|k: Seq<char>| #[trigger]
            model_of(entries).contains_key(k) ==> exists|i: int|
                0 <= i < entries.len() && (#[trigger] entries[i]).key@ == k,
        model_of(entries).dom().finite(),
        model_of(entries).len() == entries.len(),
{
    let keys = key_seq(entries);
    assert forall|i: int| 0 <= i < entries.len() implies model_of(entries).contains_key(
        #[trigger] entries[i].key@,
    ) && model_of(entries)[entries[i].key@] == entries[i].handle@ by {
        assert(keys[i] == entries[i].key@);
        let j = keys.index_of(entries[i].key@);
        assert(0 <= j < keys.len() && keys[j] == keys[i]);
    }
    assert forall|k: Seq<char>| #[trigger] model_of(entries).contains_key(k) implies exists|i: int|
        0 <= i < entries.len() && (#[trigger] entries[i]).key@ == k by {
        let j = keys.index_of(k);
        assert(0 <= j < keys.len() && keys[j] == k);
        assert(entries[j].key@ == k);
    }
    assert(model_of(entries).dom() =~= keys.to_set());
    keys.unique_seq_to_set();
}

/// The authoritative mapping from workspace key to shared workspace handle.
///
/// No key is held twice. Entries keep the order in which their keys were first
/// added; a lookup walks them in that order.
pub struct Registry {
    entries: Vec<Entry>,
}

impl View for Registry {
    type V = RegistryModel;

    closed spec fn view(&self) -> Self::V {
        model_of(self.entries@)
    }
}

impl Registry {
    #[verifier::type_invariant]
    spec fn distinct_keys(&self) -> bool {
        key_seq(self.entries@).no_duplicates()
    }

    /// An empty registry.
    pub fn new() -> (r: Self)
        ensures
            r@ == RegistryModel::empty(),
    {
        let r = Registry { entries: Vec::new() };
        assert(r@ =~= RegistryModel::empty());
        r
    }

    /// Moves the entries out, leaving the registry empty for the moment.
    fn take_entries(&mut self) -> (entries: Vec<Entry>)
        ensures
            entries@ == old(self).entries@,
            final(self).entries@.len() == 0,
    {
        let mut taken = Registry { entries: Vec::new() };
        core::mem::swap(self, &mut taken);
        taken.entries
    }

    /// Index of the entry filed under `key`, if there is one.
    fn position(&self, key: &String) -> (r: Option<usize>)
        ensures
            match r {
                Some(i) => i < self.entries@.len() && self.entries@[i as int].key@ == key@,
                None => forall|j: int| 0 <= j < self.entries@.len() ==> self.entries@[j].key@ != key@,
            },
    {
        let mut i: usize = 0;
        while i < self.entries.len()
            invariant
                i <= self.entries@.len(),
                forall|j: int| 0 <= j < i ==> self.entries@[j].key@ != key@,
            decreases self.entries@.len() - i,
        {
            if self.entries[i].key == *key {
                return Some(i);
            }
            i += 1;
        }
        None
    }

    /// Number of registered workspaces.
    pub fn len(&self) -> (r: usize)
        ensures
            self@.dom().finite(),
            r == self@.len(),
    {
        proof {
            use_type_invariant(self);
            lemma_model_of(self.entries@);
        }
        self.entries.len()
    }

    /// Whether no workspace is registered.
    pub fn is_empty(&self) -> (r: bool)
        ensures
            r == (self@ == RegistryModel::empty()),
            r == (self@.len() == 0),
    {
        proof {
            use_type_invariant(self);
            lemma_model_of(self.entries@);
            if self.entries@.len() == 0 {
                assert(self@ =~= RegistryModel::empty());
            } else {
                assert(self@.contains_key(self.entries@[0].key@));
            }
        }
        self.entries.len() == 0
    }

    /// Whether a workspace is registered under `key`.
    pub fn contains_key(&self, key: &String) -> (r: bool)
        ensures
            r == self@.contains_key(key@),
    {
        proof {
            use_type_invariant(self);
            lemma_model_of(self.entries@);
        }
        self.position(key).is_some()
    }

    /// The handle registered under `key`; `None` when the key is absent, which is
    /// an ordinary answer and not a failure.
    pub fn get(&self, key: &String) -> (r: Option<Arc<Workspace>>)
        ensures
            match r {
                Some(handle) => self@.contains_key(key@) && handle@ == self@[key@],
                None => !self@.contains_key(key@),
            },
    {
        proof {
            use_type_invariant(self);
            lemma_model_of(self.entries@);
        }
        match self.position(key) {
            Some(i) => Some(self.entries[i].handle.clone()),
            None => None,
        }
    }

    /// Files `handle` under `key`. A workspace already held under that key is
    /// replaced: the last writer wins.
    pub fn insert(&mut self, key: String, handle: Arc<Workspace>)
        ensures
            final(self)@ == old(self)@.insert(key@, handle@),
    {
        proof {
            use_type_invariant(&*self);
            lemma_model_of(self.entries@);
        }
        let ghost before = self.entries@;
        let ghost k = key@;
        let ghost h = handle@;
        let found = self.position(&key);
        let mut entries = self.take_entries();
        match found {
            Some(i) => {
                entries.set(i, Entry { key, handle });
                proof {
                    let after = entries@;
                    assert(key_seq(after) =~= key_seq(before));
                    lemma_model_of(after);
                    assert forall|q: Seq<char>| #[trigger]
                        model_of(after).contains_key(q) <==> model_of(before).insert(
                            k,
                            h,
                        ).contains_key(q) by {
                        assert(key_seq(after).contains(q) == key_seq(before).contains(q));
                    }
                    assert forall|q: Seq<char>| #[trigger]
                        model_of(after).contains_key(q) implies model_of(after)[q] == model_of(
                        before,
                    ).insert(k, h)[q] by {
                        let j = choose|j: int|
                            0 <= j < after.len() && (#[trigger] after[j]).key@ == q;
                        assert(model_of(after)[after[j].key@] == after[j].handle@);
                        if j != i as int {
                            assert(after[j] == before[j]);
                            assert(key_seq(before)[j] == q && key_seq(before)[i as int] == k);
                            assert(model_of(before)[before[j].key@] == before[j].handle@);
                        }
                    }
                    assert(model_of(after) =~= model_of(before).insert(k, h));
                }
            },
            None => {
                entries.push(Entry { key, handle });
                proof {
                    let after = entries@;
                    assert(key_seq(after) =~= key_seq(before).push(k));
                    assert(!key_seq(before).contains(k));
                    lemma_model_of(after);
                    assert forall|q: Seq<char>| #[trigger]
                        model_of(after).contains_key(q) <==> model_of(before).insert(
                            k,
                            h,
                        ).contains_key(q) by {
                        if model_of(after).contains_key(q) {
                            let j = choose|j: int|
                                0 <= j < after.len() && (#[trigger] after[j]).key@ == q;
                            if j < before.len() {
                                assert(after[j] == before[j]);
                            }
                        }
                        if model_of(before).contains_key(q) {
                            let j = choose|j: int|
                                0 <= j < before.len() && (#[trigger] before[j]).key@ == q;
                            assert(after[j] == before[j]);
                        }
                        if q == k {
                            assert(after[before.len() as int].key@ == k);
                        }
                    }
                    assert forall|q: Seq<char>| #[trigger]
                        model_of(after).contains_key(q) implies model_of(after)[q] == model_of(
                        before,
                    ).insert(k, h)[q] by {
                        let j = choose|j: int|
                            0 <= j < after.len() && (#[trigger] after[j]).key@ == q;
                        if j < before.len() {
                            assert(after[j] == before[j]);
                        }
                    }
                    assert(model_of(after) =~= model_of(before).insert(k, h));
                }
            },
        }
        *self = Registry { entries };
    }

    /// Drops the workspace held under `key`. Removing a key that is not there
    /// changes nothing.
    pub fn remove(&mut self, key: &String)
        ensures
            final(self)@ == old(self)@.remove(key@),
    {
        proof {
            use_type_invariant(&*self);
            lemma_model_of(self.entries@);
        }
        let ghost before = self.entries@;
        let ghost k = key@;
        let found = self.position(key);
        let mut entries = self.take_entries();
        match found {
            Some(i) => {
                entries.remove(i);
                proof {
                    let after = entries@;
                    assert(key_seq(after) =~= key_seq(before).remove(i as int));
                    assert(key_seq(after).no_duplicates()) by {
                        assert forall|a: int, b: int|
                            0 <= a < after.len() && 0 <= b < after.len() && a != b implies key_seq(
                            after,
                        )[a] != key_seq(after)[b] by {
                            let a0 = if a < i { a } else { a + 1 };
                            let b0 = if b < i { b } else { b + 1 };
                            assert(key_seq(after)[a] == key_seq(before)[a0]);
                            assert(key_seq(after)[b] == key_seq(before)[b0]);
                        }
                    }
                    lemma_model_of(after);
                    assert forall|q: Seq<char>| #[trigger]
                        model_of(after).contains_key(q) <==> model_of(before).remove(
                            k,
                        ).contains_key(q) by {
                        if model_of(after).contains_key(q) {
                            let j = choose|j: int|
                                0 <= j < after.len() && (#[trigger] after[j]).key@ == q;
                            let j0 = if j < i { j } else { j + 1 };
                            assert(after[j] == before[j0]);
                            assert(key_seq(before)[j0] == q);
                            assert(key_seq(before)[i as int] == k);
                        }
                        if model_of(before).contains_key(q) && q != k {
                            let j = choose|j: int|
                                0 <= j < before.len() && (#[trigger] before[j]).key@ == q;
                            let j1 = if j < i { j } else { j - 1 };
                            assert(after[j1] == before[j]);
                        }
                    }
                    assert forall|q: Seq<char>| #[trigger]
                        model_of(after).contains_key(q) implies model_of(after)[q] == model_of(
                        before,
                    ).remove(k)[q] by {
                        let j = choose|j: int|
                            0 <= j < after.len() && (#[trigger] after[j]).key@ == q;
                        let j0 = if j < i { j } else { j + 1 };
                        assert(after[j] == before[j0]);
                    }
                    assert(model_of(after) =~= model_of(before).remove(k));
                }
            },
            None => {
                assert(!model_of(before).contains_key(k));
                assert(model_of(before) =~= model_of(before).remove(k));
            },
        }
        *self = Registry { entries };
    }
}

impl Clone for Registry {
    /// A snapshot: an independent registry holding the same handles under the
    /// same keys.
    fn clone(&self) -> (r: Self)
        ensures
            r@ == self@,
    {
        proof {
            use_type_invariant(self);
        }
        let mut entries: Vec<Entry> = Vec::new();
        let mut i: usize = 0;
        while i < self.entries.len()
            invariant
                i <= self.entries@.len(),
                entries@.len() == i,
                forall|j: int|
                    0 <= j < i ==> (#[trigger] entries@[j]).key@ == self.entries@[j].key@
                        && entries@[j].handle@ == self.entries@[j].handle@,
            decreases self.entries@.len() - i,
        {
            let key = self.entries[i].key.clone();
            let handle = self.entries[i].handle.clone();
            entries.push(Entry { key, handle });
            i += 1;
        }
        proof {
            assert(key_seq(entries@) =~= key_seq(self.entries@));
            lemma_model_of(entries@);
            lemma_model_of(self.entries@);
            assert forall|q: Seq<char>| #[trigger]
                model_of(entries@).contains_key(q) implies model_of(entries@)[q] == model_of(
                self.entries@,
            )[q] by {
                let j = choose|j: int|
                    0 <= j < entries@.len() && (#[trigger] entries@[j]).key@ == q;
            }
            assert(model_of(entries@) =~= model_of(self.entries@));
        }
        Registry { entries }
    }
}

} // verus!
