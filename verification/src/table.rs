//! The table of pending loads.
//!
//! Every identity in the table stands in exactly one state. A load enters the
//! table as `Loading`, the worker writes `Completed` or `Failed` over it, and a
//! drain takes each load that has ended out again. A request for an identity
//! that is already in the table starts the load over, whatever state it was
//! in.

use vstd::prelude::*;
use crate::identity::LoaderId;
use crate::identity::LoaderKey;
use crate::resource::LoadError;
use crate::resource::LoadStatus;
use crate::resource::LoadableResource;

verus! {

/// The hash map under the table: `hashbrown::HashMap` keyed by identity. The
/// map's type is bound by an allocator trait that the verifier does not know,
/// so the map lies in a field that the verifier does not look into. The
/// methods of this type are the only way in, and each is one method of the map
/// with a contract taken on trust. The contracts rest on `LoaderId` comparing
/// and hashing by its view, as its derived `Eq` and `Hash` do.
#[verifier::external_body]
pub struct StatusMap {
    map: hashbrown::HashMap<LoaderId, LoadStatus>,
}

/// The entries that a `StatusMap` holds, each identity by its view.
pub uninterp spec fn stored_loads(loads: StatusMap) -> Map<LoaderKey, LoadStatus>;

impl StatusMap {
    /// `HashMap::new`: a map without entries.
    #[verifier::external_body]
    fn new() -> (loads: StatusMap)
        ensures
            stored_loads(loads) == (Map::<LoaderKey, LoadStatus>::empty()),
    {
        StatusMap { map: hashbrown::HashMap::new() }
    }

    /// `HashMap::insert`: the entry for `id` becomes `status`, the other
    /// entries stay, and the state that `id` had before comes back.
    #[verifier::external_body]
    fn insert(&mut self, id: LoaderId, status: LoadStatus) -> (previous: Option<LoadStatus>)
        ensures
            stored_loads(*final(self)) == stored_loads(*old(self)).insert(id@, status),
            previous == (if stored_loads(*old(self)).contains_key(id@) {
                Some(stored_loads(*old(self))[id@])
            } else {
                None
            }),
    {
        self.map.insert(id, status)
    }

    /// `HashMap::contains_key`: whether `id` has an entry.
    #[verifier::external_body]
    fn contains_key(&self, id: &LoaderId) -> (present: bool)
        ensures
            present == stored_loads(*self).contains_key(id@),
    {
        self.map.contains_key(id)
    }

    /// `HashMap::get`: the state stored for `id`, if it has an entry.
    #[verifier::external_body]
    fn get(&self, id: &LoaderId) -> (status: Option<&LoadStatus>)
        ensures
            status == (if stored_loads(*self).contains_key(id@) {
                Some(&stored_loads(*self)[id@])
            } else {
                None
            }),
    {
        self.map.get(id)
    }

    /// `HashMap::remove`: the entry for `id` leaves, the other entries stay,
    /// and the state that `id` had comes back.
    #[verifier::external_body]
    fn remove(&mut self, id: &LoaderId) -> (removed: Option<LoadStatus>)
        ensures
            stored_loads(*final(self)) == stored_loads(*old(self)).remove(id@),
            removed == (if stored_loads(*old(self)).contains_key(id@) {
                Some(stored_loads(*old(self))[id@])
            } else {
                None
            }),
    {
        self.map.remove(id)
    }

    /// `HashMap::keys`, collected: every identity with an entry, once each,
    /// in an order that the map chooses.
    #[verifier::external_body]
    fn keys(&self) -> (ids: Vec<&LoaderId>)
        ensures
            id_keys(ids@).to_set() == stored_loads(*self).dom(),
            id_keys(ids@).no_duplicates(),
    {
        self.map.keys().collect()
    }
}

/// The views of a run of identities.
pub open spec fn id_keys(ids: Seq<&LoaderId>) -> Seq<LoaderKey> {
    ids.map_values(|id: &LoaderId| id@)
}

/// What a listing of a map's identities tells of the map: it is finite, the
/// listing is as long as the map has entries, each listed identity has an
/// entry, and each entry is listed.
proof fn lemma_listing(ids: Seq<&LoaderId>, loads: Map<LoaderKey, LoadStatus>)
    requires
        id_keys(ids).to_set() == loads.dom(),
        id_keys(ids).no_duplicates(),
    ensures
        loads.dom().finite(),
        ids.len() == loads.dom().len(),
        forall|i: int| 0 <= i < ids.len() ==> loads.contains_key((#[trigger] ids[i])@),
        forall|key: LoaderKey|
            loads.contains_key(key) ==> exists|i: int| 0 <= i < ids.len() && (#[trigger] ids[i])@ == key,
{
    let keys = id_keys(ids);
    vstd::seq_lib::seq_to_set_is_finite(keys);
    keys.unique_seq_to_set();
    assert forall|i: int| 0 <= i < ids.len() implies loads.contains_key((#[trigger] ids[i])@) by {
        assert(keys[i] == ids[i]@);
        assert(keys.contains(keys[i]));
        assert(keys.to_set().contains(keys[i]));
    }
    assert forall|key: LoaderKey| loads.contains_key(key) implies exists|i: int|
        0 <= i < ids.len() && (#[trigger] ids[i])@ == key by {
        assert(keys.to_set().contains(key));
        assert(keys.contains(key));
        let i = choose|i: int| 0 <= i < keys.len() && keys[i] == key;
        assert(ids[i]@ == key);
    }
}

/// True when some load in `loads` has ended and waits for a drain.
pub open spec fn has_ended_load(loads: Map<LoaderKey, LoadStatus>) -> bool {
    exists|key: LoaderKey| loads.contains_key(key) && (#[trigger] loads[key]).terminal()
}

/// The table after a load is requested under `key`: `key` is `Loading`,
/// whatever stood there, and nothing else changed.
pub open spec fn after_request(loads: Map<LoaderKey, LoadStatus>, key: LoaderKey) -> Map<LoaderKey, LoadStatus> {
    loads.insert(key, LoadStatus::Loading)
}

/// The table after the worker writes back the result of a job for `key`: the
/// result replaces whatever state `key` is in; where `key` has no entry the
/// result is dropped.
pub open spec fn after_write_back(
    loads: Map<LoaderKey, LoadStatus>,
    key: LoaderKey,
    result: Result<LoadableResource, LoadError>,
) -> Map<LoaderKey, LoadStatus> {
    if loads.contains_key(key) {
        loads.insert(key, LoadStatus::from_result(result))
    } else {
        loads
    }
}

/// The table after a drain: the loads that have not ended, unchanged.
pub open spec fn after_drain(loads: Map<LoaderKey, LoadStatus>) -> Map<LoaderKey, LoadStatus> {
    Map::new(|key: LoaderKey| loads.contains_key(key) && !loads[key].terminal(), |key: LoaderKey| loads[key])
}

/// What one step of a drain did.
#[derive(Debug)]
pub enum DrainStep {
    /// A load had completed: its entry left the table and its resource is
    /// handed over.
    Yielded(LoaderId, LoadableResource),
    /// A load had failed: its entry left the table and nothing is handed over
    /// but the reason, for whoever keeps a log.
    Discarded(LoaderId, LoadError),
    /// No load in the table had ended: the table is as it was.
    Idle,
}

/// `step` is what a step of a drain may do to the table `before`, leaving
/// `after`. Which ended load a step takes is not fixed.
pub open spec fn is_drain_step(
    before: Map<LoaderKey, LoadStatus>,
    after: Map<LoaderKey, LoadStatus>,
    step: DrainStep,
) -> bool {
    match step {
        DrainStep::Yielded(id, resource) => {
            &&& before.contains_key(id@)
            &&& before[id@] == LoadStatus::Completed(resource)
            &&& after == before.remove(id@)
        },
        DrainStep::Discarded(id, error) => {
            &&& before.contains_key(id@)
            &&& before[id@] == LoadStatus::Failed(error)
            &&& after == before.remove(id@)
        },
        DrainStep::Idle => !has_ended_load(before) && after == before,
    }
}

/// `yielded` is what a drain of the table `before` hands over: every load
/// that had completed, once, with its resource, and nothing else. The order
/// is not fixed.
pub open spec fn is_drain_yield(
    before: Map<LoaderKey, LoadStatus>,
    yielded: Seq<(LoaderId, LoadableResource)>,
) -> bool {
    &&& forall|i: int|
        0 <= i < yielded.len() ==> {
            &&& before.contains_key((#[trigger] yielded[i]).0@)
            &&& before[yielded[i].0@] == LoadStatus::Completed(yielded[i].1)
        }
    &&& forall|i: int, j: int|
        0 <= i < j < yielded.len() ==> (#[trigger] yielded[i]).0@ != (#[trigger] yielded[j]).0@
    &&& forall|key: LoaderKey|
        before.contains_key(key) && (#[trigger] before[key]) is Completed ==> exists|i: int|
            0 <= i < yielded.len() && (#[trigger] yielded[i]).0@ == key
}

/// The table of pending loads: from each identity with a load under way or
/// ended and not yet drained to the state of that load.
pub struct PendingTable {
    loads: StatusMap,
}

impl View for PendingTable {
    type V = Map<LoaderKey, LoadStatus>;

    closed spec fn view(&self) -> Map<LoaderKey, LoadStatus> {
        stored_loads(self.loads)
    }
}

impl PendingTable {
    /// A table without entries.
    pub fn new() -> (table: PendingTable)
        ensures
            table@ == (Map::<LoaderKey, LoadStatus>::empty()),
    {
        PendingTable { loads: StatusMap::new() }
    }

    /// Number of identities in the table.
    pub fn len(&self) -> (count: usize)
        ensures
            self@.dom().finite(),
            count == self@.dom().len(),
    {
        let ids = self.loads.keys();
        proof {
            lemma_listing(ids@, self@);
        }
        ids.len()
    }

    /// Whether `id` is in the table, in whatever state.
    pub fn contains(&self, id: &LoaderId) -> (present: bool)
        ensures
            present == self@.contains_key(id@),
    {
        self.loads.contains_key(id)
    }

    /// The state of the load under `id`, if it is in the table.
    pub fn status(&self, id: &LoaderId) -> (status: Option<&LoadStatus>)
        ensures
            status == (if self@.contains_key(id@) {
                Some(&self@[id@])
            } else {
                None
            }),
    {
        self.loads.get(id)
    }

    /// Whether the load under `id` has been requested and not yet ended.
    pub fn is_loading(&self, id: &LoaderId) -> (loading: bool)
        ensures
            loading == (self@.contains_key(id@) && self@[id@] is Loading),
    {
        match self.loads.get(id) {
            Some(status) => *status == LoadStatus::Loading,
            None => false,
        }
    }

    /// Records that a load under `id` was requested: `id` is `Loading` from
    /// here on, and a state that it was in before is given up.
    pub fn mark_loading(&mut self, id: LoaderId)
        ensures
            final(self)@ == after_request(old(self)@, id@),
            final(self)@.contains_key(id@) && final(self)@[id@] is Loading,
    {
        let _ = self.loads.insert(id, LoadStatus::Loading);
    }

    /// Writes the result of a job for `id` into the table, over whatever
    /// state `id` is in. Where `id` has left the table, the result is dropped
    /// and the table stays as it is. Returns whether the result was stored.
    pub fn write_back(&mut self, id: LoaderId, result: Result<LoadableResource, LoadError>) -> (stored: bool)
        ensures
            final(self)@ == after_write_back(old(self)@, id@, result),
            stored == old(self)@.contains_key(id@),
    {
        if !self.loads.contains_key(&id) {
            return false;
        }
        let status = LoadStatus::of_result(result);
        let _ = self.loads.insert(id, status);
        true
    }

    /// Finds an identity whose load has ended. `None` means that no load in
    /// the table has ended; where several have, the hash map's order decides
    /// which comes back.
    pub fn next_ended(&self) -> (found: Option<LoaderId>)
        ensures
            self@.dom().finite(),
            match found {
                Some(id) => self@.contains_key(id@) && self@[id@].terminal(),
                None => !has_ended_load(self@),
            },
    {
        let ids = self.loads.keys();
        proof {
            lemma_listing(ids@, self@);
        }
        let mut index: usize = 0;
        while index < ids.len()
            invariant
                index <= ids@.len(),
                self@.dom().finite(),
                forall|i: int| 0 <= i < ids@.len() ==> self@.contains_key((#[trigger] ids@[i])@),
                forall|i: int| 0 <= i < index ==> !self@[(#[trigger] ids@[i])@].terminal(),
            decreases ids@.len() - index,
        {
            let id = ids[index];
            match self.loads.get(id) {
                Some(status) => {
                    if status.is_terminal() {
                        return Some(id.clone());
                    }
                },
                None => {},
            }
            index = index + 1;
        }
        assert(!has_ended_load(self@)) by {
            assert forall|key: LoaderKey| self@.contains_key(key) implies !(#[trigger] self@[key]).terminal() by {
                let i = choose|i: int| 0 <= i < ids@.len() && (#[trigger] ids@[i])@ == key;
                assert(!self@[ids@[i]@].terminal());
            }
        }
        None
    }

    /// One step of a drain. Takes one load that has ended out of the table:
    /// a completed one is handed over with its resource, a failed one is
    /// dropped and named with its error. `Idle` when no load has ended.
    pub fn take_next(&mut self) -> (step: DrainStep)
        ensures
            old(self)@.dom().finite(),
            is_drain_step(old(self)@, final(self)@, step),
    {
        match self.next_ended() {
            Some(id) => {
                match self.loads.remove(&id) {
                    Some(LoadStatus::Completed(resource)) => DrainStep::Yielded(id, resource),
                    Some(LoadStatus::Failed(error)) => DrainStep::Discarded(id, error),
                    _ => DrainStep::Idle,
                }
            },
            None => DrainStep::Idle,
        }
    }

    /// Takes every load that has ended out of the table and hands over the
    /// resources of those that completed. The failed ones are dropped without
    /// a trace; the loads still under way stay as they are. A table in which
    /// no load has ended gives an empty result.
    pub fn drain(&mut self) -> (yielded: Vec<(LoaderId, LoadableResource)>)
        ensures
            final(self)@ == after_drain(old(self)@),
            is_drain_yield(old(self)@, yielded@),
    {
        let mut yielded: Vec<(LoaderId, LoadableResource)> = Vec::new();
        let mut idle = false;
        while !idle
            invariant
                forall|key: LoaderKey|
                    #![trigger self@.contains_key(key)]
                    self@.contains_key(key) ==> old(self)@.contains_key(key) && self@[key] == old(self)@[key],
                forall|key: LoaderKey|
                    #![trigger old(self)@.contains_key(key)]
                    old(self)@.contains_key(key) && !self@.contains_key(key) ==> old(self)@[key].terminal(),
                forall|key: LoaderKey|
                    old(self)@.contains_key(key) && (#[trigger] old(self)@[key]) is Completed && !self@.contains_key(key)
                        ==> exists|i: int| 0 <= i < yielded@.len() && (#[trigger] yielded@[i]).0@ == key,
                forall|i: int|
                    0 <= i < yielded@.len() ==> {
                        &&& old(self)@.contains_key((#[trigger] yielded@[i]).0@)
                        &&& old(self)@[yielded@[i].0@] == LoadStatus::Completed(yielded@[i].1)
                        &&& !self@.contains_key(yielded@[i].0@)
                    },
                forall|i: int, j: int|
                    0 <= i < j < yielded@.len() ==> (#[trigger] yielded@[i]).0@ != (#[trigger] yielded@[j]).0@,
                idle ==> !has_ended_load(self@),
            decreases
                (if idle { 0 } else { self@.dom().len() + 1 }),
        {
            let ghost before = self@;
            let ghost taken = yielded@;
            match self.take_next() {
                DrainStep::Yielded(id, resource) => {
                    proof {
                        before.lemma_remove_key_len(id@);
                    }
                    yielded.push((id, resource));
                    proof {
                        assert forall|key: LoaderKey|
                            old(self)@.contains_key(key) && (#[trigger] old(self)@[key]) is Completed
                                && !self@.contains_key(key) implies exists|i: int|
                            0 <= i < yielded@.len() && (#[trigger] yielded@[i]).0@ == key by {
                            if before.contains_key(key) {
                                assert(yielded@[taken.len() as int].0@ == key);
                            } else {
                                let i = choose|i: int| 0 <= i < taken.len() && (#[trigger] taken[i]).0@ == key;
                                assert(yielded@[i].0@ == key);
                            }
                        }
                    }
                },
                DrainStep::Discarded(id, _) => {
                    proof {
                        before.lemma_remove_key_len(id@);
                    }
                },
                DrainStep::Idle => {
                    idle = true;
                },
            }
        }
        assert forall|key: LoaderKey| self@.contains_key(key) implies !self@[key].terminal() by {
            if self@[key].terminal() {
                assert(has_ended_load(self@));
            }
        }
        assert(self@ =~= after_drain(old(self)@));
        yielded
    }
}

} // verus!
