//! What holds of the table of pending loads whatever the requests, results
//! and drains are: the life of a load from request to drain.

use vstd::prelude::*;
use crate::identity::LoaderId;
use crate::identity::LoaderKey;
use crate::resource::LoadError;
use crate::resource::LoadStatus;
use crate::resource::LoadableResource;
use crate::table::after_drain;
use crate::table::after_request;
use crate::table::after_write_back;
use crate::table::is_drain_yield;

verus! {

/// Right after a load is requested under `key`, the table holds `key` as
/// `Loading`, whatever it held for `key` before; every other identity is as
/// it was.
pub proof fn law_request_marks_loading(loads: Map<LoaderKey, LoadStatus>, key: LoaderKey)
    ensures
        after_request(loads, key).contains_key(key),
        after_request(loads, key)[key] is Loading,
        forall|other: LoaderKey|
            other != key ==> after_request(loads, key).contains_key(other) == loads.contains_key(other),
        forall|other: LoaderKey|
            other != key && loads.contains_key(other) ==> after_request(loads, key)[other] == loads[other],
{
}

/// A load that is under way stays in the table, under way, through a drain
/// and through whatever happens to other identities. Only its own result or
/// a new request under its identity touches it.
pub proof fn law_loading_stays_until_written(
    loads: Map<LoaderKey, LoadStatus>,
    key: LoaderKey,
    other: LoaderKey,
    result: Result<LoadableResource, LoadError>,
)
    requires
        loads.contains_key(key),
        loads[key] is Loading,
        other != key,
    ensures
        after_drain(loads).contains_key(key) && after_drain(loads)[key] is Loading,
        after_request(loads, other).contains_key(key) && after_request(loads, other)[key] is Loading,
        after_write_back(loads, other, result).contains_key(key) && after_write_back(loads, other, result)[key]
            is Loading,
{
}

/// A result that arrives for an identity that has left the table is dropped:
/// the table stays as it is.
pub proof fn law_late_result_is_dropped(
    loads: Map<LoaderKey, LoadStatus>,
    key: LoaderKey,
    result: Result<LoadableResource, LoadError>,
)
    requires
        !loads.contains_key(key),
    ensures
        after_write_back(loads, key, result) == loads,
{
}

/// Of two results written for one identity the later one stands, and a new
/// request under the identity gives up a result that was not collected.
pub proof fn law_last_write_stands(
    loads: Map<LoaderKey, LoadStatus>,
    key: LoaderKey,
    first: Result<LoadableResource, LoadError>,
    second: Result<LoadableResource, LoadError>,
)
    ensures
        after_write_back(after_write_back(loads, key, first), key, second) == after_write_back(loads, key, second),
        after_request(after_write_back(loads, key, first), key) == after_request(loads, key),
{
    assert(after_write_back(after_write_back(loads, key, first), key, second) =~= after_write_back(
        loads,
        key,
        second,
    ));
    assert(after_request(after_write_back(loads, key, first), key) =~= after_request(loads, key));
}

/// The result that the worker writes for a load that is still in the table
/// stands there as the state of that load, and stays through whatever
/// happens to other identities. No other identity changes with it.
pub proof fn law_written_result_waits(
    loads: Map<LoaderKey, LoadStatus>,
    key: LoaderKey,
    result: Result<LoadableResource, LoadError>,
    other: LoaderKey,
    other_result: Result<LoadableResource, LoadError>,
)
    requires
        loads.contains_key(key),
        other != key,
    ensures
        after_write_back(loads, key, result).contains_key(key),
        after_write_back(loads, key, result)[key] == LoadStatus::from_result(result),
        after_write_back(loads, key, result).contains_key(other) == loads.contains_key(other),
        loads.contains_key(other) ==> after_write_back(loads, key, result)[other] == loads[other],
        after_request(after_write_back(loads, key, result), other)[key] == LoadStatus::from_result(result),
        after_write_back(after_write_back(loads, key, result), other, other_result)[key] == LoadStatus::from_result(
            result,
        ),
{
}

/// A load whose job returned `resource` is handed over by the next drain
/// exactly once, with that resource, and is gone from the table after it; a
/// drain after that hands over nothing under its identity.
///
/// `loads` is the table when the worker writes the result: the load is still
/// in it. `at_drain` is the table when the next drain starts: nothing has
/// touched the load since. `yielded` is what that drain hands over, `later`
/// what a drain right after it does.
pub proof fn law_completed_load_is_yielded_once(
    loads: Map<LoaderKey, LoadStatus>,
    key: LoaderKey,
    resource: LoadableResource,
    at_drain: Map<LoaderKey, LoadStatus>,
    yielded: Seq<(LoaderId, LoadableResource)>,
    later: Seq<(LoaderId, LoadableResource)>,
)
    requires
        loads.contains_key(key),
        at_drain.contains_key(key),
        at_drain[key] == after_write_back(loads, key, Ok(resource))[key],
        is_drain_yield(at_drain, yielded),
        is_drain_yield(after_drain(at_drain), later),
    ensures
        exists|i: int|
            {
                &&& 0 <= i < yielded.len()
                &&& (#[trigger] yielded[i]).0@ == key
                &&& yielded[i].1 == resource
                &&& forall|j: int| 0 <= j < yielded.len() && (#[trigger] yielded[j]).0@ == key ==> j == i
            },
        !after_drain(at_drain).contains_key(key),
        forall|j: int| 0 <= j < later.len() ==> (#[trigger] later[j]).0@ != key,
{
    assert(at_drain[key] is Completed);
    let i = choose|i: int| 0 <= i < yielded.len() && (#[trigger] yielded[i]).0@ == key;
    assert(at_drain[yielded[i].0@] == LoadStatus::Completed(yielded[i].1));
    assert forall|j: int| 0 <= j < yielded.len() && (#[trigger] yielded[j]).0@ == key implies j == i by {
        if j < i {
            assert(yielded[j].0@ != yielded[i].0@);
        } else if i < j {
            assert(yielded[i].0@ != yielded[j].0@);
        }
    }
}

/// A load whose job returned an error is never handed over by a drain, and
/// is gone from the table after the next one.
///
/// `loads` is the table when the worker writes the result: the load is still
/// in it. `at_drain` is the table when the next drain starts: nothing has
/// touched the load since. `yielded` is what that drain hands over, `later`
/// what a drain right after it does.
pub proof fn law_failed_load_is_never_yielded(
    loads: Map<LoaderKey, LoadStatus>,
    key: LoaderKey,
    error: LoadError,
    at_drain: Map<LoaderKey, LoadStatus>,
    yielded: Seq<(LoaderId, LoadableResource)>,
    later: Seq<(LoaderId, LoadableResource)>,
)
    requires
        loads.contains_key(key),
        at_drain.contains_key(key),
        at_drain[key] == after_write_back(loads, key, Err(error))[key],
        is_drain_yield(at_drain, yielded),
        is_drain_yield(after_drain(at_drain), later),
    ensures
        forall|i: int| 0 <= i < yielded.len() ==> (#[trigger] yielded[i]).0@ != key,
        !after_drain(at_drain).contains_key(key),
        forall|j: int| 0 <= j < later.len() ==> (#[trigger] later[j]).0@ != key,
{
    assert(at_drain[key] is Failed);
    assert forall|i: int| 0 <= i < yielded.len() implies (#[trigger] yielded[i]).0@ != key by {
        if yielded[i].0@ == key {
            assert(at_drain[yielded[i].0@] == LoadStatus::Completed(yielded[i].1));
        }
    }
}

/// A drain leaves nothing for the next one: what a drain of a drained table
/// hands over is empty, and the table does not change again.
pub proof fn law_second_drain_is_empty(loads: Map<LoaderKey, LoadStatus>, yielded: Seq<(LoaderId, LoadableResource)>)
    requires
        is_drain_yield(after_drain(loads), yielded),
    ensures
        yielded.len() == 0,
        after_drain(after_drain(loads)) == after_drain(loads),
{
    if yielded.len() > 0 {
        assert(after_drain(loads).contains_key(yielded[0].0@));
        assert(after_drain(loads)[yielded[0].0@] == LoadStatus::Completed(yielded[0].1));
    }
    assert(after_drain(after_drain(loads)) =~= after_drain(loads));
}

/// A drain hands over as many loads as had completed: none twice and none
/// left out.
pub proof fn law_drain_yields_each_completed_load(
    loads: Map<LoaderKey, LoadStatus>,
    yielded: Seq<(LoaderId, LoadableResource)>,
)
    requires
        loads.dom().finite(),
        is_drain_yield(loads, yielded),
    ensures
        yielded.len() == loads.dom().filter(|key: LoaderKey| loads[key] is Completed).len(),
{
    let completed = loads.dom().filter(|key: LoaderKey| loads[key] is Completed);
    let keys = yielded.map_values(|pair: (LoaderId, LoadableResource)| pair.0@);
    assert(keys.no_duplicates()) by {
        assert forall|i: int, j: int| 0 <= i < keys.len() && 0 <= j < keys.len() && i != j implies keys[i]
            != keys[j] by {
            if i < j {
                assert(yielded[i].0@ != yielded[j].0@);
            } else {
                assert(yielded[j].0@ != yielded[i].0@);
            }
        }
    }
    keys.unique_seq_to_set();
    assert(keys.to_set() =~= completed) by {
        assert forall|key: LoaderKey| keys.to_set().contains(key) implies completed.contains(key) by {
            let i = choose|i: int| 0 <= i < keys.len() && keys[i] == key;
            assert(loads.contains_key(yielded[i].0@));
            assert(loads[yielded[i].0@] == LoadStatus::Completed(yielded[i].1));
        }
        assert forall|key: LoaderKey| completed.contains(key) implies keys.to_set().contains(key) by {
            assert(loads.contains_key(key) && loads[key] is Completed);
            let i = choose|i: int| 0 <= i < yielded.len() && (#[trigger] yielded[i]).0@ == key;
            assert(keys[i] == key);
            assert(keys.contains(key));
        }
    }
}

/// The table after the worker has written back a run of results, one after
/// another in the order given.
pub open spec fn after_write_backs(
    loads: Map<LoaderKey, LoadStatus>,
    results: Seq<(LoaderKey, Result<LoadableResource, LoadError>)>,
) -> Map<LoaderKey, LoadStatus>
    decreases results.len(),
{
    if results.len() == 0 {
        loads
    } else {
        after_write_back(after_write_backs(loads, results.drop_last()), results.last().0, results.last().1)
    }
}

/// Writing results back neither adds an identity to the table nor takes one
/// out of it.
pub proof fn law_write_backs_keep_the_identities(
    loads: Map<LoaderKey, LoadStatus>,
    results: Seq<(LoaderKey, Result<LoadableResource, LoadError>)>,
)
    ensures
        after_write_backs(loads, results).dom() == loads.dom(),
    decreases results.len(),
{
    if results.len() > 0 {
        law_write_backs_keep_the_identities(loads, results.drop_last());
        assert(after_write_backs(loads, results).dom() =~= loads.dom());
    }
}

/// Jobs run in the order in which they were requested, so once all of them
/// have run, the table shows for an identity the result of the job that was
/// requested last under it: `results[last]`, behind which no result for the
/// same identity comes.
pub proof fn law_latest_request_stands(
    loads: Map<LoaderKey, LoadStatus>,
    results: Seq<(LoaderKey, Result<LoadableResource, LoadError>)>,
    last: int,
)
    requires
        0 <= last < results.len(),
        loads.contains_key(results[last].0),
        forall|i: int| last < i < results.len() ==> (#[trigger] results[i]).0 != results[last].0,
    ensures
        after_write_backs(loads, results).contains_key(results[last].0),
        after_write_backs(loads, results)[results[last].0] == LoadStatus::from_result(results[last].1),
    decreases results.len(),
{
    let key = results[last].0;
    law_write_backs_keep_the_identities(loads, results.drop_last());
    if last == results.len() - 1 {
        assert(after_write_backs(loads, results.drop_last()).dom().contains(key));
    } else {
        assert(results.drop_last()[last] == results[last]);
        assert forall|i: int| last < i < results.drop_last().len() implies (#[trigger] results.drop_last()[i]).0
            != results.drop_last()[last].0 by {
            assert(results.drop_last()[i] == results[i]);
        }
        law_latest_request_stands(loads, results.drop_last(), last);
        assert(results.last().0 != key);
    }
}

} // verus!
