//! The table of recorded endpoints: at most one for each owner key, listed in key order.

use vstd::prelude::*;

use crate::identity::{HerdrSpawnSnapshot, SnapshotModel};
use crate::text::{precedes, same_text, stands_before};

verus! {

/// One recorded endpoint under its owner key.
#[derive(Debug, PartialEq, Eq)]
pub struct AgentEntry {
    pub key: String,
    pub snapshot: HerdrSpawnSnapshot,
}

impl View for AgentEntry {
    type V = (Seq<char>, SnapshotModel);

    open spec fn view(&self) -> (Seq<char>, SnapshotModel) {
        (self.key@, self.snapshot@)
    }
}

impl Clone for AgentEntry {
    fn clone(&self) -> (r: Self)
        ensures
            r@ == self@,
    {
        AgentEntry { key: self.key.clone(), snapshot: self.snapshot.clone() }
    }
}

/// The keys and endpoints of a list of entries.
pub open spec fn entry_models(list: Seq<AgentEntry>) -> Seq<(Seq<char>, SnapshotModel)> {
    list.map_values(|entry: AgentEntry| (entry.key@, entry.snapshot@))
}

/// The keys stand in dictionary order, none of them twice.
pub open spec fn in_key_order(list: Seq<(Seq<char>, SnapshotModel)>) -> bool {
    forall|i: int, j: int|
        0 <= i < j < list.len() ==> precedes((#[trigger] list[i]).0, (#[trigger] list[j]).0)
}

/// Whether a list holds an entry under `key`.
pub open spec fn lists_key(list: Seq<(Seq<char>, SnapshotModel)>, key: Seq<char>) -> bool {
    exists|i: int| 0 <= i < list.len() && (#[trigger] list[i]).0 == key
}

/// A place where a list holds an entry under `key`, if there is one.
pub open spec fn key_place(list: Seq<(Seq<char>, SnapshotModel)>, key: Seq<char>) -> int {
    choose|i: int| 0 <= i < list.len() && (#[trigger] list[i]).0 == key
}

/// What a list says of each key.
pub open spec fn entry_map(list: Seq<(Seq<char>, SnapshotModel)>) -> Map<Seq<char>, SnapshotModel> {
    Map::new(
        |key: Seq<char>| lists_key(list, key),
        |key: Seq<char>| list[key_place(list, key)].1,
    )
}

/// Recorded endpoints by owner key.
#[derive(Debug, PartialEq, Eq)]
pub struct AgentTable {
    entries: Vec<AgentEntry>,
}

impl View for AgentTable {
    type V = Map<Seq<char>, SnapshotModel>;

    open spec fn view(&self) -> Map<Seq<char>, SnapshotModel> {
        entry_map(self.listed())
    }
}

proof fn lemma_order_is_strict(list: Seq<(Seq<char>, SnapshotModel)>, i: int, j: int)
    requires
        in_key_order(list),
        0 <= i < list.len(),
        0 <= j < list.len(),
        list[i].0 == list[j].0,
    ensures
        i == j,
{
    crate::text::precedes_is_irreflexive(list[i].0);
    if i < j {
        assert(precedes(list[i].0, list[j].0));
    } else if j < i {
        assert(precedes(list[j].0, list[i].0));
    }
}

/// In a list in key order, what the map says of a key is what stands beside it in the list.
pub proof fn listed_entry_is_mapped(list: Seq<(Seq<char>, SnapshotModel)>, i: int)
    requires
        in_key_order(list),
        0 <= i < list.len(),
    ensures
        entry_map(list).contains_key(list[i].0),
        entry_map(list)[list[i].0] == list[i].1,
{
    let key = list[i].0;
    assert(lists_key(list, key));
    lemma_order_is_strict(list, i, key_place(list, key));
}

/// A list in key order holds as many entries as its map holds keys.
proof fn lemma_map_size(list: Seq<(Seq<char>, SnapshotModel)>)
    requires
        in_key_order(list),
    ensures
        entry_map(list).dom().len() == list.len(),
{
    let keys = list.map_values(|entry: (Seq<char>, SnapshotModel)| entry.0);
    assert forall|i: int, j: int| 0 <= i < keys.len() && 0 <= j < keys.len() && i != j implies keys[i]
        != keys[j] by {
        if keys[i] == keys[j] {
            lemma_order_is_strict(list, i, j);
        }
    }
    keys.unique_seq_to_set();
    assert(entry_map(list).dom() =~= keys.to_set()) by {
        assert forall|key: Seq<char>| lists_key(list, key) == keys.to_set().contains(key) by {
            if lists_key(list, key) {
                let i = key_place(list, key);
                assert(keys[i] == key);
            }
            if keys.to_set().contains(key) {
                let i = choose|i: int| 0 <= i < keys.len() && keys[i] == key;
                assert(list[i].0 == key);
            }
        }
    }
}

/// `list` with an entry put in at its place in key order.
proof fn lemma_insert(
    list: Seq<(Seq<char>, SnapshotModel)>,
    at: int,
    key: Seq<char>,
    snapshot: SnapshotModel,
)
    requires
        in_key_order(list),
        0 <= at <= list.len(),
        forall|i: int| 0 <= i < at ==> precedes((#[trigger] list[i]).0, key),
        at < list.len() ==> precedes(key, list[at].0),
    ensures
        in_key_order(list.insert(at, (key, snapshot))),
        entry_map(list.insert(at, (key, snapshot))) == entry_map(list).insert(key, snapshot),
{
    let grown = list.insert(at, (key, snapshot));
    assert forall|i: int, j: int| 0 <= i < j < grown.len() implies precedes(
        (#[trigger] grown[i]).0,
        (#[trigger] grown[j]).0,
    ) by {
        if j == at {
            assert(grown[i] == list[i]);
        } else if i == at {
            assert(grown[j] == list[j - 1]);
            if j - 1 > at {
                assert(precedes(list[at].0, list[j - 1].0));
                crate::text::precedes_is_transitive(key, list[at].0, list[j - 1].0);
            }
        } else {
            let a = if i < at {
                i
            } else {
                i - 1
            };
            let b = if j < at {
                j
            } else {
                j - 1
            };
            assert(grown[i] == list[a]);
            assert(grown[j] == list[b]);
        }
    }
    let before = entry_map(list);
    let after = entry_map(grown);
    assert(grown[at] == (key, snapshot));
    listed_entry_is_mapped(grown, at);
    assert forall|k: Seq<char>|
        #![trigger after.dom().contains(k)]
        #![trigger after[k]]
        k != key implies (after.dom().contains(k) <==> before.dom().contains(k)) && (
    after.dom().contains(k) ==> after[k] == before[k]) by {
        if after.contains_key(k) {
            let i = choose|i: int| 0 <= i < grown.len() && (#[trigger] grown[i]).0 == k;
            let a = if i < at {
                i
            } else {
                i - 1
            };
            assert(grown[i] == list[a]);
            listed_entry_is_mapped(list, a);
            listed_entry_is_mapped(grown, i);
        }
        if before.contains_key(k) {
            let a = choose|a: int| 0 <= a < list.len() && (#[trigger] list[a]).0 == k;
            let i = if a < at {
                a
            } else {
                a + 1
            };
            assert(grown[i] == list[a]);
            assert(lists_key(grown, k));
        }
    }
    assert(after =~= before.insert(key, snapshot));
}

proof fn lemma_replace(
    list: Seq<(Seq<char>, SnapshotModel)>,
    at: int,
    snapshot: SnapshotModel,
)
    requires
        in_key_order(list),
        0 <= at < list.len(),
    ensures
        in_key_order(list.update(at, (list[at].0, snapshot))),
        entry_map(list.update(at, (list[at].0, snapshot))) == entry_map(list).insert(
            list[at].0,
            snapshot,
        ),
{
    let key = list[at].0;
    let changed = list.update(at, (key, snapshot));
    assert forall|i: int| 0 <= i < list.len() implies (#[trigger] changed[i]).0 == list[i].0 by {}
    assert forall|i: int, j: int| 0 <= i < j < changed.len() implies precedes(
        (#[trigger] changed[i]).0,
        (#[trigger] changed[j]).0,
    ) by {
        assert(precedes(list[i].0, list[j].0));
    }
    let before = entry_map(list);
    let after = entry_map(changed);
    assert(changed[at] == (key, snapshot));
    listed_entry_is_mapped(changed, at);
    assert forall|k: Seq<char>|
        #![trigger after.dom().contains(k)]
        #![trigger after[k]]
        k != key implies (after.dom().contains(k) <==> before.dom().contains(k)) && (
    after.dom().contains(k) ==> after[k] == before[k]) by {
        if after.contains_key(k) {
            let i = choose|i: int| 0 <= i < changed.len() && (#[trigger] changed[i]).0 == k;
            assert(list[i].0 == k);
            listed_entry_is_mapped(list, i);
            listed_entry_is_mapped(changed, i);
        }
        if before.contains_key(k) {
            let i = choose|i: int| 0 <= i < list.len() && (#[trigger] list[i]).0 == k;
            assert(changed[i].0 == k);
            assert(lists_key(changed, k));
        }
    }
    assert(after =~= before.insert(key, snapshot));
}

proof fn lemma_remove(list: Seq<(Seq<char>, SnapshotModel)>, at: int)
    requires
        in_key_order(list),
        0 <= at < list.len(),
    ensures
        in_key_order(list.remove(at)),
        entry_map(list.remove(at)) == entry_map(list).remove(list[at].0),
{
    let key = list[at].0;
    let left = list.remove(at);
    assert forall|i: int, j: int| 0 <= i < j < left.len() implies precedes(
        (#[trigger] left[i]).0,
        (#[trigger] left[j]).0,
    ) by {
        let a = if i < at {
            i
        } else {
            i + 1
        };
        let b = if j < at {
            j
        } else {
            j + 1
        };
        assert(left[i] == list[a]);
        assert(left[j] == list[b]);
    }
    let before = entry_map(list);
    let after = entry_map(left);
    assert forall|k: Seq<char>|
        #![trigger after.dom().contains(k)]
        #![trigger after[k]]
        (after.dom().contains(k) <==> before.dom().contains(k) && k != key) && (
        after.dom().contains(k) ==> after[k] == before[k]) by {
        if after.contains_key(k) {
            let i = choose|i: int| 0 <= i < left.len() && (#[trigger] left[i]).0 == k;
            let a = if i < at {
                i
            } else {
                i + 1
            };
            assert(left[i] == list[a]);
            listed_entry_is_mapped(list, a);
            listed_entry_is_mapped(left, i);
            if k == key {
                lemma_order_is_strict(list, a, at);
            }
        }
        if before.contains_key(k) && k != key {
            let a = choose|a: int| 0 <= a < list.len() && (#[trigger] list[a]).0 == k;
            let i = if a < at {
                a
            } else {
                a - 1
            };
            assert(left[i] == list[a]);
            assert(lists_key(left, k));
        }
    }
    assert(after =~= before.remove(key));
}

impl AgentTable {
    /// The keys and endpoints in the order in which they are listed.
    pub closed spec fn listed(self) -> Seq<(Seq<char>, SnapshotModel)> {
        entry_models(self.entries@)
    }

    #[verifier::type_invariant]
    spec fn ordered(self) -> bool {
        in_key_order(self.listed())
    }

    /// A table without endpoints.
    pub fn new() -> (r: Self)
        ensures
            r@ == Map::<Seq<char>, SnapshotModel>::empty(),
            r.listed().len() == 0,
    {
        let table = AgentTable { entries: Vec::new() };
        assert(table@ =~= Map::<Seq<char>, SnapshotModel>::empty());
        table
    }

    /// The entries in key order.
    pub fn entries(&self) -> (r: &Vec<AgentEntry>)
        ensures
            entry_models(r@) == self.listed(),
            in_key_order(self.listed()),
    {
        proof {
            use_type_invariant(self);
        }
        &self.entries
    }

    /// How many endpoints are recorded.
    pub fn len(&self) -> (r: usize)
        ensures
            r == self.listed().len(),
            r == self@.dom().len(),
    {
        proof {
            use_type_invariant(self);
            lemma_map_size(self.listed());
        }
        self.entries.len()
    }

    /// Whether no endpoint is recorded.
    pub fn is_empty(&self) -> (r: bool)
        ensures
            r == self@.dom().is_empty(),
    {
        proof {
            use_type_invariant(self);
            if self.entries@.len() > 0 {
                listed_entry_is_mapped(self.listed(), 0);
                assert(!self@.dom().is_empty());
            } else {
                assert(self@.dom() =~= Set::empty());
            }
        }
        self.entries.len() == 0
    }

    /// Whether there is exactly one endpoint and it is recorded under `key`.
    pub fn holds_only(&self, key: &str) -> (r: bool)
        ensures
            r == (self@.dom() == set![key@]),
    {
        proof {
            use_type_invariant(self);
            let list = self.listed();
            if list.len() == 1 {
                listed_entry_is_mapped(list, 0);
                if list[0].0 == key@ {
                    assert(self@.dom() =~= set![key@]);
                }
                assert(self@.dom().contains(list[0].0));
            } else if self@.dom() == set![key@] {
                assert(self@.contains_key(key@));
                assert(list.len() > 0);
                listed_entry_is_mapped(list, 0);
                listed_entry_is_mapped(list, 1);
                assert(self@.dom().contains(list[0].0));
                assert(self@.dom().contains(list[1].0));
                lemma_order_is_strict(list, 0, 1);
            }
        }
        self.entries.len() == 1 && same_text(self.entries[0].key.as_str(), key)
    }

    /// The place of the first entry that does not stand before `key`.
    fn place_of(&self, key: &str) -> (r: usize)
        ensures
            r <= self.listed().len(),
            forall|i: int| 0 <= i < r ==> precedes((#[trigger] self.listed()[i]).0, key@),
            r < self.listed().len() ==> !precedes(self.listed()[r as int].0, key@),
    {
        let mut i: usize = 0;
        while i < self.entries.len() && stands_before(self.entries[i].key.as_str(), key)
            invariant
                i <= self.entries@.len(),
                forall|j: int| 0 <= j < i ==> precedes((#[trigger] self.listed()[j]).0, key@),
            decreases self.entries@.len() - i,
        {
            i += 1;
        }
        i
    }

    /// The place of the entry under `key`, or the number of entries.
    fn find(&self, key: &str) -> (r: usize)
        ensures
            r <= self.listed().len(),
            r < self.listed().len() <==> self@.contains_key(key@),
            r < self.listed().len() ==> self.listed()[r as int].0 == key@,
    {
        let at = self.place_of(key);
        if at < self.entries.len() && same_text(self.entries[at].key.as_str(), key) {
            assert(lists_key(self.listed(), key@)) by {
                assert(self.listed()[at as int].0 == key@);
            }
            at
        } else {
            proof {
                use_type_invariant(self);
                let list = self.listed();
                if self@.contains_key(key@) {
                    let i = choose|i: int| 0 <= i < list.len() && (#[trigger] list[i]).0 == key@;
                    crate::text::precedes_is_irreflexive(key@);
                    assert(i > at);
                    assert(precedes(list[at as int].0, list[i].0));
                }
            }
            self.entries.len()
        }
    }

    /// The endpoint under `key`, if one is recorded.
    pub fn get(&self, key: &str) -> (r: Option<&HerdrSpawnSnapshot>)
        ensures
            match r {
                Some(snapshot) => self@.contains_key(key@) && self@[key@] == snapshot@,
                None => !self@.contains_key(key@),
            },
    {
        let at = self.find(key);
        if at < self.entries.len() {
            proof {
                use_type_invariant(self);
                listed_entry_is_mapped(self.listed(), at as int);
            }
            Some(&self.entries[at].snapshot)
        } else {
            None
        }
    }

    /// Whether an endpoint is recorded under `key`.
    pub fn contains_key(&self, key: &str) -> (r: bool)
        ensures
            r == self@.contains_key(key@),
    {
        self.find(key) < self.entries.len()
    }

    /// Records an endpoint under `key`, in place of one that was there.
    pub fn insert(&mut self, key: String, snapshot: HerdrSpawnSnapshot)
        ensures
            final(self)@ == old(self)@.insert(key@, snapshot@),
    {
        let at = self.place_of(key.as_str());
        let there = at < self.entries.len() && same_text(
            self.entries[at].key.as_str(),
            key.as_str(),
        );
        let ghost list = self.listed();
        proof {
            use_type_invariant(&*self);
            if there {
                lemma_replace(list, at as int, snapshot@);
            } else {
                if at < list.len() {
                    crate::text::precedes_is_total(list[at as int].0, key@);
                }
                lemma_insert(list, at as int, key@, snapshot@);
            }
        }
        let mut entries: Vec<AgentEntry> = Vec::new();
        std::mem::swap(&mut entries, &mut self.entries);
        let ghost held = entries@;
        let entry = AgentEntry { key, snapshot };
        if there {
            entries.set(at, entry);
            assert(entry_models(entries@) =~= list.update(at as int, (key@, snapshot@)));
        } else {
            entries.insert(at, entry);
            assert(entry_models(entries@) =~= list.insert(at as int, (key@, snapshot@)));
        }
        self.entries = entries;
    }

    /// Forgets the endpoint under `key`.
    pub fn remove(&mut self, key: &str)
        ensures
            final(self)@ == old(self)@.remove(key@),
    {
        let at = self.find(key);
        let ghost list = self.listed();
        if at < self.entries.len() {
            proof {
                use_type_invariant(&*self);
                lemma_remove(list, at as int);
            }
            let mut entries: Vec<AgentEntry> = Vec::new();
            std::mem::swap(&mut entries, &mut self.entries);
            let _ = entries.remove(at);
            assert(entry_models(entries@) =~= list.remove(at as int));
            self.entries = entries;
        } else {
            assert(self@ =~= old(self)@.remove(key@));
        }
    }
}

impl Clone for AgentTable {
    fn clone(&self) -> (r: Self)
        ensures
            r@ == self@,
            r.listed() == self.listed(),
    {
        proof {
            use_type_invariant(self);
        }
        let mut entries: Vec<AgentEntry> = Vec::new();
        let mut i: usize = 0;
        while i < self.entries.len()
            invariant
                i <= self.entries@.len(),
                entry_models(entries@) == self.listed().take(i as int),
            decreases self.entries@.len() - i,
        {
            let ghost before = entries@;
            let entry = self.entries[i].clone();
            entries.push(entry);
            i += 1;
            assert(entry_models(entries@) =~= entry_models(before).push(entry@));
            assert(self.listed().take(i as int) =~= self.listed().take(i - 1).push(entry@));
        }
        assert(self.listed().take(i as int) =~= self.listed());
        AgentTable { entries }
    }
}

} // verus!
