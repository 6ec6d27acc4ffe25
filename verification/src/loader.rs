//! The loader: one worker thread, the shared table, and the calls of the
//! frame thread.
//!
//! `request_load` marks an identity as `Loading` and queues its job; the
//! worker runs the jobs one at a time in the order they were queued and writes
//! each result into the table; `take_completed` collects what has ended. The
//! table is locked for one such step at a time and never while a job runs.
//!
//! A job that panics does not take the worker with it: the pool catches the
//! panic and the load ends as failed, with `LoadError::Faulted`.

use std::sync::Arc;
use std::sync::Mutex;
use std::sync::MutexGuard;
use std::sync::PoisonError;
use vstd::prelude::*;
use crate::identity::EntityId;
use crate::identity::EntityType;
use crate::identity::LoaderId;
use crate::identity::LoaderKey;
use crate::identity::TilePosition;
use crate::resource::AnimationData;
use crate::resource::GameMap;
use crate::resource::LoadError;
use crate::resource::LoadStatus;
use crate::resource::LoadableResource;
use crate::table::after_write_back;
use crate::table::DrainStep;
use crate::table::PendingTable;

verus! {

/// `std::sync::Mutex`, carried as it is: the verifier sees nothing inside.
#[verifier::external_type_specification]
#[verifier::external_body]
#[verifier::reject_recursive_types(T)]
pub struct ExMutex<T: ?Sized>(Mutex<T>);

/// `std::sync::MutexGuard`, carried as it is.
#[verifier::external_type_specification]
#[verifier::external_body]
#[verifier::reject_recursive_types(T)]
pub struct ExMutexGuard<'a, T: ?Sized + 'a>(MutexGuard<'a, T>);

/// `std::sync::PoisonError`, carried as it is.
#[verifier::external_type_specification]
#[verifier::external_body]
#[verifier::reject_recursive_types(T)]
pub struct ExPoisonError<T>(PoisonError<T>);

/// `rayon::ThreadPool`, carried as it is.
#[verifier::external_type_specification]
#[verifier::external_body]
pub struct ExThreadPool(rayon::ThreadPool);

/// `rayon::ThreadPoolBuildError`, carried as it is.
#[verifier::external_type_specification]
#[verifier::external_body]
pub struct ExThreadPoolBuildError(rayon::ThreadPoolBuildError);

/// Number of worker threads. The loaders that jobs call keep caches of their
/// own without locks; one worker is what keeps those caches safe.
pub const WORKER_THREADS: usize = 1;

/// Why a loader could not be made.
#[derive(Clone, Copy, Debug, PartialEq, Eq)]
pub enum StartError {
    /// The worker thread could not be started.
    WorkerUnavailable,
}

/// What the two threads share behind the lock: the table, and the identity
/// of the load that the worker is running, so that a job that panics can be
/// written off.
struct SharedLoads {
    table: PendingTable,
    running: Option<LoaderId>,
}

impl SharedLoads {
    /// The table behind the lock.
    spec fn loads(self) -> Map<LoaderKey, LoadStatus> {
        self.table@
    }

    /// The identity of the load that the worker is running, if it runs one.
    spec fn running_load(self) -> Option<LoaderKey> {
        match self.running {
            Some(id) => Some(id@),
            None => None,
        }
    }

    /// An empty table and an idle worker.
    fn new() -> (shared: SharedLoads)
        ensures
            shared.loads() == (Map::<LoaderKey, LoadStatus>::empty()),
            shared.running_load() is None,
    {
        SharedLoads { table: PendingTable::new(), running: None }
    }

    /// The worker takes up the job for `id`. The table stays as it is.
    fn job_started(&mut self, id: LoaderId)
        ensures
            final(self).loads() == old(self).loads(),
            final(self).running_load() == Some(id@),
    {
        self.running = Some(id);
    }

    /// The job for `id` has returned `result`: the result is written into the
    /// table and the worker is idle again.
    fn job_returned(&mut self, id: LoaderId, result: Result<LoadableResource, LoadError>)
        ensures
            final(self).loads() == after_write_back(old(self).loads(), id@, result),
            final(self).running_load() is None,
    {
        let _ = self.table.write_back(id, result);
        self.running = None;
    }

    /// The job that the worker was running has panicked: its load ends as
    /// failed and the worker is idle again. Without a running job nothing
    /// changes.
    fn job_panicked(&mut self)
        ensures
            final(self).loads() == (match old(self).running_load() {
                Some(key) => after_write_back(old(self).loads(), key, Err(LoadError::Faulted)),
                None => old(self).loads(),
            }),
            final(self).running_load() is None,
    {
        let mut running = None;
        std::mem::swap(&mut running, &mut self.running);
        match running {
            Some(id) => {
                let _ = self.table.write_back(id, Err(LoadError::Faulted));
            },
            None => {},
        }
    }
}

/// `Mutex::new`: a lock around `shared`. What a lock holds changes under the
/// hands of other threads, so no contract speaks of what is in it later; what
/// goes in at the start is an empty table and an idle worker.
#[verifier::external_body]
fn new_lock(shared: SharedLoads) -> (lock: Mutex<SharedLoads>)
    requires
        shared.loads() == (Map::<LoaderKey, LoadStatus>::empty()),
        shared.running_load() is None,
{
    Mutex::new(shared)
}

/// `Mutex::lock`: waits until the lock is free and takes it. What is then
/// inside is whatever the other thread left, so nothing is promised of it. The
/// error says that a thread panicked while it held the lock; the guard is in
/// it.
#[verifier::external_body]
fn acquire<'a>(lock: &'a Mutex<SharedLoads>) -> (outcome: Result<
    MutexGuard<'a, SharedLoads>,
    PoisonError<MutexGuard<'a, SharedLoads>>,
>) {
    lock.lock()
}

/// `PoisonError::into_inner`: the guard that a poisoned lock still hands out.
#[verifier::external_body]
fn recover<'a>(poisoned: PoisonError<MutexGuard<'a, SharedLoads>>) -> (guard: MutexGuard<
    'a,
    SharedLoads,
>) {
    poisoned.into_inner()
}

/// `DerefMut::deref_mut` of the guard: what lies behind the lock, for as long
/// as the guard is borrowed.
#[verifier::external_body]
fn shared_of<'a, 'b>(guard: &'a mut MutexGuard<'b, SharedLoads>) -> (shared: &'a mut SharedLoads) {
    &mut **guard
}

/// `rayon::ThreadPoolBuilder`, from `new` over `num_threads`, `thread_name`
/// and `panic_handler` to `build`: a pool of `threads` threads, each named by
/// `worker_thread_name`. Where a job panics, the pool catches the panic,
/// calls `write_off` and goes on to the next job. Whether the threads could
/// be started is the system's answer, so nothing is promised of the result.
#[verifier::external_body]
fn start_worker(threads: usize, pending_loads: Arc<Mutex<SharedLoads>>) -> (pool: Result<
    rayon::ThreadPool,
    rayon::ThreadPoolBuildError,
>)
    requires
        threads == WORKER_THREADS,
{
    rayon::ThreadPoolBuilder::new().num_threads(threads).thread_name(
        |index| worker_thread_name(index),
    ).panic_handler(move |_| write_off(&pending_loads)).build()
}

/// `rayon::ThreadPool::spawn`: queues one call of `run_load` on the pool and
/// returns at once. Nothing is promised here; rayon's pool of one thread runs
/// what is queued from outside it one at a time, in the order queued.
#[verifier::external_body]
fn spawn_load<F>(pool: &rayon::ThreadPool, pending_loads: Arc<Mutex<SharedLoads>>, id: LoaderId, load_function: F) where
    F: FnOnce() -> Result<LoadableResource, LoadError> + Send + 'static,

    requires
        call_requires(load_function, ()),
{
    pool.spawn(move || run_load(pending_loads, id, load_function));
}

/// Name of the worker thread.
pub fn worker_thread_name(index: usize) -> (name: String)
    ensures
        name@ == "async loader"@,
{
    "async loader".to_string()
}

/// The guard that an attempt at the lock ended in. Where the lock was free of
/// poison it is the guard that came back; a lock that a panic has poisoned
/// hands its guard out all the same, since every state of what lies behind it
/// is a valid one.
fn held_guard<'a>(
    outcome: Result<MutexGuard<'a, SharedLoads>, PoisonError<MutexGuard<'a, SharedLoads>>>,
) -> (guard: MutexGuard<'a, SharedLoads>)
    ensures
        outcome matches Ok(held) ==> guard == held,
{
    match outcome {
        Ok(guard) => guard,
        Err(poisoned) => recover(poisoned),
    }
}

/// Takes the lock, poisoned or not. Which guard comes back, and what lies
/// behind it, is for the lock to say.
fn lock_shared<'a>(lock: &'a Mutex<SharedLoads>) -> (guard: MutexGuard<'a, SharedLoads>) {
    held_guard(acquire(lock))
}

/// What the worker does for one request: notes which load it takes up, runs
/// the job, then writes the result into the table. The lock is taken for the
/// note and for the result, and not held while the job runs. The result is
/// dropped where `id` has left the table in the meantime.
fn run_load<F>(pending_loads: Arc<Mutex<SharedLoads>>, id: LoaderId, load_function: F) where
    F: FnOnce() -> Result<LoadableResource, LoadError> + Send + 'static,

    requires
        call_requires(load_function, ()),
{
    {
        let mut guard = lock_shared(&pending_loads);
        let shared = shared_of(&mut guard);
        shared.job_started(id.clone());
    }
    let result = load_function();
    let mut guard = lock_shared(&pending_loads);
    let shared = shared_of(&mut guard);
    shared.job_returned(id, result);
}

/// What the worker does when a job has panicked: the load that it was running
/// ends as failed.
fn write_off(pending_loads: &Arc<Mutex<SharedLoads>>) {
    let mut guard = lock_shared(pending_loads);
    let shared = shared_of(&mut guard);
    shared.job_panicked();
}

/// The resource that an animation bundle makes, or the error in its place.
pub open spec fn animation_outcome(loaded: Result<Arc<AnimationData>, LoadError>) -> Result<
    LoadableResource,
    LoadError,
> {
    match loaded {
        Ok(animation_data) => Ok(LoadableResource::AnimationData(animation_data)),
        Err(error) => Err(error),
    }
}

/// The resource that a map and the tile the player stands on make, or the
/// error in their place.
pub open spec fn map_outcome(loaded: Result<Box<GameMap>, LoadError>, player_position: TilePosition) -> Result<
    LoadableResource,
    LoadError,
> {
    match loaded {
        Ok(map) => Ok(LoadableResource::GameMap { map, player_position }),
        Err(error) => Err(error),
    }
}

/// Wraps what the animation loader returned as the result of a job.
pub fn animation_result(loaded: Result<Arc<AnimationData>, LoadError>) -> (result: Result<
    LoadableResource,
    LoadError,
>)
    ensures
        result == animation_outcome(loaded),
{
    match loaded {
        Ok(animation_data) => Ok(LoadableResource::AnimationData(animation_data)),
        Err(error) => Err(error),
    }
}

/// Wraps what the map loader returned as the result of a job.
pub fn map_result(loaded: Result<Box<GameMap>, LoadError>, player_position: TilePosition) -> (result: Result<
    LoadableResource,
    LoadError,
>)
    ensures
        result == map_outcome(loaded, player_position),
{
    match loaded {
        Ok(map) => Ok(LoadableResource::GameMap { map, player_position }),
        Err(error) => Err(error),
    }
}

/// The job behind a request for an animation bundle: the bundle that the
/// animation loader has in its cache for these files, else the one it loads
/// now.
pub fn load_animation_data<C, L>(
    entity_type: EntityType,
    entity_part_files: Vec<String>,
    cached: C,
    load: L,
) -> (result: Result<LoadableResource, LoadError>) where
    C: FnOnce(&Vec<String>) -> Option<Arc<AnimationData>>,
    L: FnOnce(EntityType, &Vec<String>) -> Result<Arc<AnimationData>, LoadError>,

    requires
        call_requires(cached, (&entity_part_files,)),
        call_requires(load, (entity_type, &entity_part_files)),
    ensures
        exists|hit: Option<Arc<AnimationData>>|
            call_ensures(cached, (&entity_part_files,), hit) && match hit {
                Some(animation_data) => result == Ok::<LoadableResource, LoadError>(
                    LoadableResource::AnimationData(animation_data),
                ),
                None => exists|loaded: Result<Arc<AnimationData>, LoadError>|
                    call_ensures(load, (entity_type, &entity_part_files), loaded) && result
                        == animation_outcome(loaded),
            },
{
    match cached(&entity_part_files) {
        Some(animation_data) => Ok(LoadableResource::AnimationData(animation_data)),
        None => animation_result(load(entity_type, &entity_part_files)),
    }
}

/// The job behind a request for a map: what the map loader makes of the name,
/// together with the tile the player will stand on.
pub fn load_map<L>(map_name: String, player_position: TilePosition, load: L) -> (result: Result<
    LoadableResource,
    LoadError,
>) where L: FnOnce(String) -> Result<Box<GameMap>, LoadError>
    requires
        call_requires(load, (map_name,)),
    ensures
        exists|loaded: Result<Box<GameMap>, LoadError>|
            call_ensures(load, (map_name,), loaded) && result == map_outcome(loaded, player_position),
{
    map_result(load(map_name), player_position)
}

/// Loads resources in the background. The frame thread owns the loader and is
/// the only one to call it.
pub struct AsyncLoader {
    pending_loads: Arc<Mutex<SharedLoads>>,
    thread_pool: rayon::ThreadPool,
}

impl AsyncLoader {
    /// The loader that an attempt to start the worker ended in: one around
    /// the pool that was started and the lock `pending_loads`, or the error
    /// where no pool was started.
    fn from_worker(
        started: Result<rayon::ThreadPool, rayon::ThreadPoolBuildError>,
        pending_loads: Arc<Mutex<SharedLoads>>,
    ) -> (made: Result<AsyncLoader, StartError>)
        ensures
            match started {
                Ok(thread_pool) => {
                    &&& made matches Ok(loader)
                    &&& loader.thread_pool == thread_pool
                    &&& loader.pending_loads == pending_loads
                },
                Err(_) => made == Err::<AsyncLoader, StartError>(StartError::WorkerUnavailable),
            },
    {
        match started {
            Ok(thread_pool) => Ok(AsyncLoader { pending_loads, thread_pool }),
            Err(_) => Err(StartError::WorkerUnavailable),
        }
    }

    /// A loader with an empty table and its one worker thread started.
    /// Whether the thread could be started is for the system to say.
    pub fn new() -> (made: Result<AsyncLoader, StartError>) {
        let pending_loads = Arc::new(new_lock(SharedLoads::new()));
        let started = start_worker(WORKER_THREADS, Arc::clone(&pending_loads));
        AsyncLoader::from_worker(started, pending_loads)
    }

    /// Asks for the animation bundle of an entity. `cached` and `load` are
    /// the animation loader's two operations; they run on the worker.
    pub fn request_animation_data_load<C, L>(
        &self,
        entity_id: EntityId,
        entity_type: EntityType,
        entity_part_files: Vec<String>,
        cached: C,
        load: L,
    ) where
        C: FnOnce(&Vec<String>) -> Option<Arc<AnimationData>> + Send + 'static,
        L: FnOnce(EntityType, &Vec<String>) -> Result<Arc<AnimationData>, LoadError> + Send + 'static,

        requires
            call_requires(cached, (&entity_part_files,)),
            call_requires(load, (entity_type, &entity_part_files)),
    {
        let job = move || -> (result: Result<LoadableResource, LoadError>)
            requires
                call_requires(cached, (&entity_part_files,)),
                call_requires(load, (entity_type, &entity_part_files)),
            { load_animation_data(entity_type, entity_part_files, cached, load) };
        self.request_load(LoaderId::AnimationData(entity_id), job);
    }

    /// Asks for the map of the given name. `load` is the map loader's
    /// operation; it runs on the worker.
    pub fn request_map_load<L>(&self, map_name: String, player_position: TilePosition, load: L) where
        L: FnOnce(String) -> Result<Box<GameMap>, LoadError> + Send + 'static,

        requires
            call_requires(load, (map_name,)),
    {
        let id = LoaderId::GameMap(map_name.clone());
        let job = move || -> (result: Result<LoadableResource, LoadError>)
            requires
                call_requires(load, (map_name,)),
            { load_map(map_name, player_position, load) };
        self.request_load(id, job);
    }

    /// Asks for a load under `id`. Before this returns `id` is `Loading` in
    /// the table, in place of whatever state it was in, and `load_function` is
    /// queued behind the jobs queued before it. Nothing comes back: how the
    /// job ends shows in the table.
    pub fn request_load<F>(&self, id: LoaderId, load_function: F) where
        F: FnOnce() -> Result<LoadableResource, LoadError> + Send + 'static,

        requires
            call_requires(load_function, ()),
    {
        let pending_loads = Arc::clone(&self.pending_loads);
        {
            let mut guard = lock_shared(&pending_loads);
            let shared = shared_of(&mut guard);
            shared.table.mark_loading(id.clone());
        }
        spawn_load(&self.thread_pool, pending_loads, id, load_function);
    }

    /// Takes one load that has ended out of the table, if there is one, and
    /// says what became of it. Does not wait. What a step does to the table
    /// it works on is stated with `PendingTable::take_next`; here the table is
    /// whatever the worker has made of it by the time the lock is taken.
    pub fn take_next(&self) -> (step: DrainStep) {
        let mut guard = lock_shared(&self.pending_loads);
        let shared = shared_of(&mut guard);
        shared.table.take_next()
    }

    /// Collects the loads that have ended. Each completed load is handed
    /// over once with its resource and leaves the table; each failed load
    /// leaves the table and is not handed over. Does not wait: where no load
    /// has ended the result is empty. The table is locked once for the whole
    /// of it, so what is handed over is a drain of the table as it was at that
    /// moment, as stated with `PendingTable::drain`; whatever that table was,
    /// no identity is handed over twice.
    pub fn take_completed(&self) -> (completed: Vec<(LoaderId, LoadableResource)>)
        ensures
            forall|i: int, j: int|
                0 <= i < j < completed@.len() ==> (#[trigger] completed@[i]).0@ != (#[trigger] completed@[j]).0@,
    {
        let mut guard = lock_shared(&self.pending_loads);
        let shared = shared_of(&mut guard);
        shared.table.drain()
    }

    /// Whether a load under `id` is in the table and has not ended, at the
    /// moment of the call.
    pub fn is_loading(&self, id: &LoaderId) -> (loading: bool) {
        let mut guard = lock_shared(&self.pending_loads);
        let shared = shared_of(&mut guard);
        shared.table.is_loading(id)
    }

    /// Whether a load under `id` is in the table, in whatever state, at the
    /// moment of the call.
    pub fn is_pending(&self, id: &LoaderId) -> (pending: bool) {
        let mut guard = lock_shared(&self.pending_loads);
        let shared = shared_of(&mut guard);
        shared.table.contains(id)
    }
}

} // verus!
