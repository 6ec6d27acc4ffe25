use std::sync::mpsc::channel;
use std::sync::Arc;
use std::time::Duration;

use korangar_loaders::identity::{EntityId, EntityType, LoaderId, TilePosition};
use korangar_loaders::loader::{animation_result, load_animation_data, load_map, map_result, worker_thread_name, AsyncLoader, WORKER_THREADS};
use korangar_loaders::resource::{AnimationData, GameMap, LoadError, LoadableResource};
use korangar_loaders::table::DrainStep;

fn map_resource(handle: u64) -> LoadableResource {
    LoadableResource::GameMap { map: Box::new(GameMap { handle }), player_position: TilePosition { x: 1, y: 2 } }
}

fn animation_resource(handle: u64) -> LoadableResource {
    LoadableResource::AnimationData(Arc::new(AnimationData { handle }))
}

/// Returns once the worker has run every job queued before this call and
/// written its result. The marker's own result may still be on its way.
fn flush(loader: &AsyncLoader) {
    let (sender, receiver) = channel::<()>();
    loader.request_load(LoaderId::GameMap("flush marker".to_string()), move || {
        sender.send(()).unwrap();
        Err(LoadError::FileNotFound)
    });
    receiver.recv_timeout(Duration::from_secs(10)).unwrap();
}

/// Drains until a drain comes back empty twice in a row after a flush.
fn drain_all(loader: &AsyncLoader) -> Vec<(LoaderId, LoadableResource)> {
    flush(loader);
    let mut all = Vec::new();
    loop {
        let mut batch = loader.take_completed();
        if batch.is_empty() {
            break;
        }
        all.append(&mut batch);
    }
    all
}

#[test]
fn slow_map_load_is_yielded_once() {
    let loader = AsyncLoader::new().unwrap();
    let (release, gate) = channel::<()>();
    let id = LoaderId::GameMap("prontera".to_string());
    loader.request_load(id.clone(), move || {
        gate.recv_timeout(Duration::from_secs(10)).unwrap();
        Ok(map_resource(7))
    });
    assert!(loader.is_loading(&id));
    assert_eq!(loader.take_completed(), vec![]);
    assert!(loader.is_loading(&id));
    release.send(()).unwrap();
    flush(&loader);
    assert!(loader.is_pending(&id));
    assert!(!loader.is_loading(&id));
    assert_eq!(loader.take_completed(), vec![(id.clone(), map_resource(7))]);
    assert!(!loader.is_pending(&id));
    assert_eq!(loader.take_completed(), vec![]);
}

#[test]
fn failed_load_vanishes_unseen() {
    let loader = AsyncLoader::new().unwrap();
    let id = LoaderId::AnimationData(EntityId(1001));
    loader.request_load(id.clone(), || Err(LoadError::DecodeFailed));
    flush(&loader);
    assert!(loader.is_pending(&id));
    assert!(!loader.is_loading(&id));
    assert_eq!(loader.take_completed(), vec![]);
    assert!(!loader.is_pending(&id));
    assert_eq!(loader.take_completed(), vec![]);
}

#[test]
fn steps_name_what_became_of_each_load() {
    let loader = AsyncLoader::new().unwrap();
    assert!(matches!(loader.take_next(), DrainStep::Idle));
    loader.request_load(LoaderId::AnimationData(EntityId(1)), || Err(LoadError::DecodeFailed));
    loader.request_load(LoaderId::AnimationData(EntityId(2)), || Ok(animation_resource(20)));
    let (release, gate) = channel::<()>();
    loader.request_load(LoaderId::AnimationData(EntityId(3)), move || {
        gate.recv_timeout(Duration::from_secs(10)).unwrap();
        Ok(animation_resource(30))
    });
    let mut yielded = Vec::new();
    let mut discarded = Vec::new();
    while yielded.len() + discarded.len() < 2 {
        match loader.take_next() {
            DrainStep::Yielded(id, resource) => yielded.push((id, resource)),
            DrainStep::Discarded(id, error) => discarded.push((id, error)),
            DrainStep::Idle => {}
        }
    }
    assert_eq!(yielded, vec![(LoaderId::AnimationData(EntityId(2)), animation_resource(20))]);
    assert_eq!(discarded, vec![(LoaderId::AnimationData(EntityId(1)), LoadError::DecodeFailed)]);
    assert!(matches!(loader.take_next(), DrainStep::Idle));
    assert!(loader.is_loading(&LoaderId::AnimationData(EntityId(3))));
    release.send(()).unwrap();
}

#[test]
fn new_request_restarts_a_load_that_has_ended() {
    let loader = AsyncLoader::new().unwrap();
    let id = LoaderId::GameMap("x".to_string());
    loader.request_load(id.clone(), || Ok(map_resource(1)));
    flush(&loader);
    assert!(loader.is_pending(&id));
    assert!(!loader.is_loading(&id));
    let (release, gate) = channel::<()>();
    loader.request_load(id.clone(), move || {
        gate.recv_timeout(Duration::from_secs(10)).unwrap();
        Ok(map_resource(2))
    });
    assert!(loader.is_loading(&id));
    assert_eq!(loader.take_completed(), vec![]);
    release.send(()).unwrap();
    flush(&loader);
    assert_eq!(loader.take_completed(), vec![(id, map_resource(2))]);
}

#[test]
fn second_request_for_same_identity_wins() {
    let loader = AsyncLoader::new().unwrap();
    let (release, gate) = channel::<()>();
    let id = LoaderId::GameMap("x".to_string());
    loader.request_load(id.clone(), move || {
        gate.recv_timeout(Duration::from_secs(10)).unwrap();
        Ok(map_resource(1))
    });
    loader.request_load(id.clone(), || Ok(map_resource(2)));
    release.send(()).unwrap();
    let all = drain_all(&loader);
    assert_eq!(all, vec![(id, map_resource(2))]);
}

#[test]
fn thousand_identities_are_yielded_without_loss() {
    let loader = AsyncLoader::new().unwrap();
    let mut expected = Vec::new();
    for number in 0..1000u32 {
        let id = LoaderId::AnimationData(EntityId(number));
        if number % 3 == 0 {
            loader.request_load(id, || Err(LoadError::DecodeFailed));
        } else {
            expected.push(number);
            loader.request_load(id, move || Ok(animation_resource(number as u64)));
        }
    }
    let mut seen: Vec<u32> = drain_all(&loader)
        .into_iter()
        .map(|(id, resource)| match (id, resource) {
            (LoaderId::AnimationData(EntityId(number)), LoadableResource::AnimationData(data)) => {
                assert_eq!(data.handle, number as u64);
                number
            }
            other => panic!("unexpected {:?}", other),
        })
        .collect();
    seen.sort();
    assert_eq!(seen, expected);
    assert_eq!(loader.take_completed(), vec![]);
}

#[test]
fn jobs_run_in_the_order_requested() {
    let loader = AsyncLoader::new().unwrap();
    let (sender, receiver) = channel::<u32>();
    for number in 0..50u32 {
        let sender = sender.clone();
        loader.request_load(LoaderId::AnimationData(EntityId(number)), move || {
            sender.send(number).unwrap();
            Ok(animation_resource(0))
        });
    }
    flush(&loader);
    let order: Vec<u32> = receiver.try_iter().collect();
    assert_eq!(order, (0..50).collect::<Vec<u32>>());
}

#[test]
fn animation_request_prefers_the_cache() {
    let loader = AsyncLoader::new().unwrap();
    let files = vec!["body".to_string(), "head".to_string()];
    loader.request_animation_data_load(
        EntityId(5),
        EntityType::Player,
        files.clone(),
        |_files: &Vec<String>| Some(Arc::new(AnimationData { handle: 11 })),
        |_kind: EntityType, _files: &Vec<String>| Ok(Arc::new(AnimationData { handle: 12 })),
    );
    loader.request_animation_data_load(
        EntityId(6),
        EntityType::Monster,
        files,
        |_files: &Vec<String>| None,
        |kind: EntityType, files: &Vec<String>| {
            assert_eq!(kind, EntityType::Monster);
            assert_eq!(files.len(), 2);
            Ok(Arc::new(AnimationData { handle: 12 }))
        },
    );
    let mut all = drain_all(&loader);
    all.sort_by_key(|(id, _)| match id {
        LoaderId::AnimationData(EntityId(number)) => *number,
        LoaderId::GameMap(_) => u32::MAX,
    });
    assert_eq!(
        all,
        vec![
            (LoaderId::AnimationData(EntityId(5)), animation_resource(11)),
            (LoaderId::AnimationData(EntityId(6)), animation_resource(12)),
        ]
    );
}

#[test]
fn map_request_carries_the_player_position() {
    let loader = AsyncLoader::new().unwrap();
    loader.request_map_load("geffen".to_string(), TilePosition { x: 30, y: 40 }, |name: String| {
        assert_eq!(name, "geffen");
        Ok(Box::new(GameMap { handle: 3 }))
    });
    loader.request_map_load("nowhere".to_string(), TilePosition { x: 0, y: 0 }, |_name: String| {
        Err(LoadError::FileNotFound)
    });
    let all = drain_all(&loader);
    assert_eq!(
        all,
        vec![(
            LoaderId::GameMap("geffen".to_string()),
            LoadableResource::GameMap { map: Box::new(GameMap { handle: 3 }), player_position: TilePosition { x: 30, y: 40 } }
        )]
    );
}

#[test]
fn job_results_are_wrapped_by_kind() {
    assert_eq!(animation_result(Ok(Arc::new(AnimationData { handle: 4 }))), Ok(animation_resource(4)));
    assert_eq!(animation_result(Err(LoadError::DecodeFailed)), Err(LoadError::DecodeFailed));
    assert_eq!(map_result(Ok(Box::new(GameMap { handle: 7 })), TilePosition { x: 1, y: 2 }), Ok(map_resource(7)));
    assert_eq!(map_result(Err(LoadError::FileNotFound), TilePosition { x: 1, y: 2 }), Err(LoadError::FileNotFound));
    assert_eq!(
        load_animation_data(
            EntityType::Npc,
            vec![],
            |_files: &Vec<String>| None,
            |_kind: EntityType, _files: &Vec<String>| Err(LoadError::DecodeFailed)
        ),
        Err(LoadError::DecodeFailed)
    );
    assert_eq!(
        load_map("a".to_string(), TilePosition { x: 1, y: 2 }, |_name: String| Ok(Box::new(GameMap { handle: 7 }))),
        Ok(map_resource(7))
    );
}

#[test]
fn the_worker_is_one_thread_apart() {
    assert_eq!(WORKER_THREADS, 1);
    assert_eq!(worker_thread_name(0), "async loader");
    assert_eq!(rayon::current_thread_index(), None);
    let loader = AsyncLoader::new().unwrap();
    let (sender, receiver) = channel::<(usize, Option<usize>)>();
    loader.request_load(LoaderId::AnimationData(EntityId(1)), move || {
        sender.send((rayon::current_num_threads(), rayon::current_thread_index())).unwrap();
        Err(LoadError::Faulted)
    });
    assert_eq!(receiver.recv_timeout(Duration::from_secs(10)).unwrap(), (1, Some(0)));
}

#[test]
fn panicking_job_ends_as_failed_and_the_worker_goes_on() {
    let loader = AsyncLoader::new().unwrap();
    let faulty = LoaderId::GameMap("faulty".to_string());
    let sound = LoaderId::GameMap("sound".to_string());
    loader.request_load(faulty.clone(), || panic!("the decoder gave up"));
    loader.request_load(sound.clone(), || Ok(map_resource(8)));
    flush(&loader);
    assert!(loader.is_pending(&faulty));
    assert!(!loader.is_loading(&faulty));
    let mut yielded = Vec::new();
    let mut discarded = Vec::new();
    loop {
        match loader.take_next() {
            DrainStep::Yielded(id, resource) => yielded.push((id, resource)),
            DrainStep::Discarded(id, error) => discarded.push((id, error)),
            DrainStep::Idle => break,
        }
    }
    assert_eq!(yielded, vec![(sound, map_resource(8))]);
    discarded.retain(|(id, _)| *id != LoaderId::GameMap("flush marker".to_string()));
    assert_eq!(discarded, vec![(faulty.clone(), LoadError::Faulted)]);
    assert!(!loader.is_pending(&faulty));
}

#[test]
fn panicking_job_is_not_handed_over() {
    let loader = AsyncLoader::new().unwrap();
    for number in 0..20u32 {
        if number % 2 == 0 {
            loader.request_load(LoaderId::AnimationData(EntityId(number)), || panic!("no such animation"));
        } else {
            loader.request_load(LoaderId::AnimationData(EntityId(number)), move || Ok(animation_resource(number as u64)));
        }
    }
    let mut all = drain_all(&loader);
    all.sort_by_key(|(id, _)| format!("{:?}", id));
    let mut expected: Vec<(LoaderId, LoadableResource)> = (0..20u32)
        .filter(|number| number % 2 == 1)
        .map(|number| (LoaderId::AnimationData(EntityId(number)), animation_resource(number as u64)))
        .collect();
    expected.sort_by_key(|(id, _)| format!("{:?}", id));
    assert_eq!(all, expected);
    for number in 0..20u32 {
        assert!(!loader.is_pending(&LoaderId::AnimationData(EntityId(number))));
    }
}
