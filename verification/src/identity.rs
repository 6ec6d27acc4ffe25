//! Identities under which loads are requested.

use vstd::prelude::*;

verus! {

/// Number by which the server names an entity.
#[derive(Clone, Copy, Debug, PartialEq, Eq, Hash)]
pub struct EntityId(pub u32);

/// What kind of entity an animation bundle belongs to.
#[derive(Clone, Copy, Debug, PartialEq, Eq, Hash)]
pub enum EntityType {
    Warp,
    Hidden,
    Player,
    Npc,
    Monster,
}

/// A tile of the map grid.
#[derive(Clone, Copy, Debug, PartialEq, Eq, Hash)]
pub struct TilePosition {
    pub x: u16,
    pub y: u16,
}

/// Names one logical load. Requests under equal identities are the same
/// request to the table of pending loads.
#[derive(Debug, PartialEq, Eq, Hash)]
pub enum LoaderId {
    /// The animation bundle of an entity.
    AnimationData(EntityId),
    /// The map of the given name.
    GameMap(String),
}

/// An identity as contracts see it: the variant and the plain value in it.
pub enum LoaderKey {
    AnimationData(u32),
    GameMap(Seq<char>),
}

impl View for LoaderId {
    type V = LoaderKey;

    open spec fn view(&self) -> LoaderKey {
        match self {
            LoaderId::AnimationData(entity_id) => LoaderKey::AnimationData(entity_id.0),
            LoaderId::GameMap(name) => LoaderKey::GameMap(name@),
        }
    }
}

impl Clone for LoaderId {
    fn clone(&self) -> (copy: Self)
        ensures
            copy@ == self@,
    {
        match self {
            LoaderId::AnimationData(entity_id) => LoaderId::AnimationData(*entity_id),
            LoaderId::GameMap(name) => LoaderId::GameMap(name.clone()),
        }
    }
}

} // verus!
