use std::sync::Arc;

use korangar_loaders::identity::{EntityId, LoaderId, TilePosition};
use korangar_loaders::resource::{AnimationData, GameMap, LoadError, LoadStatus, LoadableResource};
use korangar_loaders::table::{DrainStep, PendingTable};

fn map_id(name: &str) -> LoaderId {
    LoaderId::GameMap(name.to_string())
}

fn entity(number: u32) -> LoaderId {
    LoaderId::AnimationData(EntityId(number))
}

fn map_resource(handle: u64) -> LoadableResource {
    LoadableResource::GameMap { map: Box::new(GameMap { handle }), player_position: TilePosition { x: 5, y: 9 } }
}

fn animation_resource(handle: u64) -> LoadableResource {
    LoadableResource::AnimationData(Arc::new(AnimationData { handle }))
}

#[test]
fn new_table_is_empty() {
    let mut table = PendingTable::new();
    assert_eq!(table.len(), 0);
    assert!(!table.contains(&entity(1)));
    assert!(table.status(&entity(1)).is_none());
    assert!(table.next_ended().is_none());
    assert!(matches!(table.take_next(), DrainStep::Idle));
    assert_eq!(table.drain(), vec![]);
}

#[test]
fn requested_load_is_loading() {
    let mut table = PendingTable::new();
    table.mark_loading(map_id("prontera"));
    assert!(table.contains(&map_id("prontera")));
    assert!(table.is_loading(&map_id("prontera")));
    assert!(matches!(table.status(&map_id("prontera")), Some(LoadStatus::Loading)));
    assert!(!table.is_loading(&map_id("geffen")));
    assert_eq!(table.len(), 1);
}

#[test]
fn equal_identities_share_one_entry() {
    let mut table = PendingTable::new();
    table.mark_loading(map_id("prontera"));
    table.mark_loading(LoaderId::GameMap(String::from("pron") + "tera"));
    table.mark_loading(entity(3));
    table.mark_loading(entity(3));
    assert_eq!(table.len(), 2);
}

#[test]
fn loading_entry_is_not_drained() {
    let mut table = PendingTable::new();
    table.mark_loading(entity(1));
    assert!(table.next_ended().is_none());
    assert!(matches!(table.take_next(), DrainStep::Idle));
    assert_eq!(table.drain(), vec![]);
    assert!(table.is_loading(&entity(1)));
}

#[test]
fn completed_load_is_yielded_exactly_once() {
    let mut table = PendingTable::new();
    table.mark_loading(map_id("prontera"));
    assert!(table.write_back(map_id("prontera"), Ok(map_resource(7))));
    assert!(!table.is_loading(&map_id("prontera")));
    assert!(matches!(table.status(&map_id("prontera")), Some(LoadStatus::Completed(_))));
    assert_eq!(table.next_ended(), Some(map_id("prontera")));
    assert_eq!(table.drain(), vec![(map_id("prontera"), map_resource(7))]);
    assert!(!table.contains(&map_id("prontera")));
    assert_eq!(table.drain(), vec![]);
    assert_eq!(table.len(), 0);
}

#[test]
fn failed_load_leaves_without_being_yielded() {
    let mut table = PendingTable::new();
    table.mark_loading(entity(1001));
    assert!(table.write_back(entity(1001), Err(LoadError::DecodeFailed)));
    assert!(matches!(table.status(&entity(1001)), Some(LoadStatus::Failed(LoadError::DecodeFailed))));
    assert_eq!(table.drain(), vec![]);
    assert!(!table.contains(&entity(1001)));
    assert_eq!(table.drain(), vec![]);
}

#[test]
fn step_names_the_failed_load_and_its_error() {
    let mut table = PendingTable::new();
    table.mark_loading(entity(4));
    table.write_back(entity(4), Err(LoadError::FileNotFound));
    match table.take_next() {
        DrainStep::Discarded(id, error) => {
            assert_eq!(id, entity(4));
            assert_eq!(error, LoadError::FileNotFound);
        }
        other => panic!("unexpected {:?}", other),
    }
    assert!(matches!(table.take_next(), DrainStep::Idle));
    assert_eq!(table.len(), 0);
}

#[test]
fn step_hands_over_the_completed_load() {
    let mut table = PendingTable::new();
    table.mark_loading(entity(4));
    table.mark_loading(entity(5));
    table.write_back(entity(4), Ok(animation_resource(40)));
    match table.take_next() {
        DrainStep::Yielded(id, resource) => {
            assert_eq!(id, entity(4));
            assert_eq!(resource, animation_resource(40));
        }
        other => panic!("unexpected {:?}", other),
    }
    assert!(matches!(table.take_next(), DrainStep::Idle));
    assert!(table.is_loading(&entity(5)));
    assert_eq!(table.len(), 1);
}

#[test]
fn result_for_an_absent_identity_is_dropped() {
    let mut table = PendingTable::new();
    assert!(!table.write_back(entity(1), Ok(animation_resource(1))));
    assert_eq!(table.len(), 0);
    table.mark_loading(entity(1));
    table.write_back(entity(1), Ok(animation_resource(1)));
    assert_eq!(table.drain().len(), 1);
    assert!(!table.write_back(entity(1), Ok(animation_resource(2))));
    assert!(!table.contains(&entity(1)));
    assert_eq!(table.drain(), vec![]);
}

#[test]
fn new_request_gives_up_an_uncollected_result() {
    let mut table = PendingTable::new();
    table.mark_loading(entity(1));
    table.write_back(entity(1), Ok(animation_resource(1)));
    table.mark_loading(entity(1));
    assert!(table.is_loading(&entity(1)));
    assert_eq!(table.drain(), vec![]);
    assert_eq!(table.len(), 1);
}

#[test]
fn later_result_overwrites_the_earlier_one() {
    let mut table = PendingTable::new();
    table.mark_loading(map_id("x"));
    table.mark_loading(map_id("x"));
    assert!(table.write_back(map_id("x"), Ok(map_resource(1))));
    assert!(table.write_back(map_id("x"), Ok(map_resource(2))));
    assert_eq!(table.drain(), vec![(map_id("x"), map_resource(2))]);
}

#[test]
fn older_result_overwrites_a_newer_loading_mark() {
    let mut table = PendingTable::new();
    table.mark_loading(map_id("x"));
    table.mark_loading(map_id("x"));
    assert!(table.write_back(map_id("x"), Err(LoadError::Faulted)));
    assert!(matches!(table.status(&map_id("x")), Some(LoadStatus::Failed(LoadError::Faulted))));
}

#[test]
fn drain_takes_every_ended_load_and_keeps_the_rest() {
    let mut table = PendingTable::new();
    for number in 0..30u32 {
        table.mark_loading(entity(number));
    }
    for number in 0..30u32 {
        match number % 3 {
            0 => {
                table.write_back(entity(number), Ok(animation_resource(number as u64 * 10)));
            }
            1 => {
                table.write_back(entity(number), Err(LoadError::DecodeFailed));
            }
            _ => {}
        }
    }
    let mut yielded = table.drain();
    yielded.sort_by_key(|(id, _)| match id {
        LoaderId::AnimationData(EntityId(number)) => *number,
        LoaderId::GameMap(_) => u32::MAX,
    });
    let expected: Vec<(LoaderId, LoadableResource)> =
        (0..30u32).filter(|number| number % 3 == 0).map(|number| (entity(number), animation_resource(number as u64 * 10))).collect();
    assert_eq!(yielded, expected);
    assert_eq!(table.len(), 10);
    for number in 0..30u32 {
        assert_eq!(table.is_loading(&entity(number)), number % 3 == 2);
        assert_eq!(table.contains(&entity(number)), number % 3 == 2);
    }
    assert_eq!(table.drain(), vec![]);
}

#[test]
fn status_compares_by_stage_only() {
    assert!(LoadStatus::Loading == LoadStatus::Loading);
    assert!(LoadStatus::Completed(map_resource(1)) == LoadStatus::Completed(animation_resource(2)));
    assert!(LoadStatus::Failed(LoadError::DecodeFailed) == LoadStatus::Failed(LoadError::Faulted));
    assert!(LoadStatus::Loading != LoadStatus::Completed(map_resource(1)));
    assert!(LoadStatus::Completed(map_resource(1)) != LoadStatus::Failed(LoadError::Faulted));
    assert!(LoadStatus::Failed(LoadError::Faulted) != LoadStatus::Loading);
}

#[test]
fn status_of_result_and_terminal() {
    assert!(!LoadStatus::Loading.is_terminal());
    assert!(LoadStatus::of_result(Ok(map_resource(1))).is_terminal());
    assert!(LoadStatus::of_result(Err(LoadError::DecodeFailed)).is_terminal());
    assert!(matches!(LoadStatus::of_result(Ok(map_resource(1))), LoadStatus::Completed(resource) if resource == map_resource(1)));
    assert!(matches!(LoadStatus::of_result(Err(LoadError::DecodeFailed)), LoadStatus::Failed(LoadError::DecodeFailed)));
}

#[test]
fn identity_clone_is_equal() {
    let id = map_id("prontera");
    assert_eq!(id.clone(), id);
    assert_eq!(entity(9).clone(), entity(9));
    assert_ne!(entity(9), entity(10));
    assert_ne!(map_id("a"), map_id("b"));
}
