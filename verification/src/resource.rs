//! What a load hands over when it ends, and the state of a load in between.

use std::sync::Arc;
use vstd::prelude::*;
use vstd::std_specs::cmp::PartialEqSpecImpl;
use crate::identity::TilePosition;

verus! {

/// Names an animation bundle that the animation loader has decoded and keeps.
#[derive(Debug, PartialEq, Eq)]
pub struct AnimationData {
    pub handle: u64,
}

/// Names a map that the map loader has built and keeps.
#[derive(Debug, PartialEq, Eq)]
pub struct GameMap {
    pub handle: u64,
}

/// The outcome of a load that succeeded. The table carries it from the worker
/// to the frame thread and never looks inside.
#[derive(Debug, PartialEq, Eq)]
pub enum LoadableResource {
    AnimationData(Arc<AnimationData>),
    GameMap { map: Box<GameMap>, player_position: TilePosition },
}

/// Why a load did not produce its resource.
#[derive(Clone, Copy, Debug, PartialEq, Eq)]
pub enum LoadError {
    /// The loader could not find or read what it was asked for.
    FileNotFound,
    /// The loader read its input and could not decode it.
    DecodeFailed,
    /// The job of the load panicked instead of returning.
    Faulted,
}

/// State of one pending load.
#[derive(Debug)]
pub enum LoadStatus {
    /// Requested; the worker has not written a result yet.
    Loading,
    /// The load produced its resource, which waits to be collected.
    Completed(LoadableResource),
    /// The load failed; the entry waits to be discarded.
    Failed(LoadError),
}

impl LoadStatus {
    /// A terminal state is one that the worker wrote: the load has ended.
    pub open spec fn terminal(self) -> bool {
        !(self is Loading)
    }

    /// True when the load has ended, whatever its outcome.
    pub fn is_terminal(&self) -> (ended: bool)
        ensures
            ended == self.terminal(),
    {
        match self {
            LoadStatus::Loading => false,
            LoadStatus::Completed(_) => true,
            LoadStatus::Failed(_) => true,
        }
    }

    /// The state that a job's result leaves in the table.
    pub open spec fn from_result(result: Result<LoadableResource, LoadError>) -> LoadStatus {
        match result {
            Ok(resource) => LoadStatus::Completed(resource),
            Err(error) => LoadStatus::Failed(error),
        }
    }

    /// Turns a job's result into the state to store for it.
    pub fn of_result(result: Result<LoadableResource, LoadError>) -> (status: LoadStatus)
        ensures
            status == LoadStatus::from_result(result),
    {
        match result {
            Ok(resource) => LoadStatus::Completed(resource),
            Err(error) => LoadStatus::Failed(error),
        }
    }
}

/// Two states are equal when they are the same stage of a load; what a
/// `Completed` or `Failed` state carries is not compared.
impl PartialEq for LoadStatus {
    fn eq(&self, other: &Self) -> (same: bool) {
        match (self, other) {
            (LoadStatus::Loading, LoadStatus::Loading) => true,
            (LoadStatus::Completed(_), LoadStatus::Completed(_)) => true,
            (LoadStatus::Failed(_), LoadStatus::Failed(_)) => true,
            _ => false,
        }
    }
}

impl PartialEqSpecImpl for LoadStatus {
    open spec fn obeys_eq_spec() -> bool {
        true
    }

    open spec fn eq_spec(&self, other: &Self) -> bool {
        match (self, other) {
            (LoadStatus::Loading, LoadStatus::Loading) => true,
            (LoadStatus::Completed(_), LoadStatus::Completed(_)) => true,
            (LoadStatus::Failed(_), LoadStatus::Failed(_)) => true,
            _ => false,
        }
    }
}

} // verus!
