//! The component kinds that the game attaches to its entities.

use vstd::prelude::*;
use crate::entity::ComponentKind;
use crate::transform::Transform;

verus! {

pub const ARENA_HEIGHT: i64 = 6_400_000;

pub const ARENA_WIDTH: i64 = 4_800_000;

pub const SPACECRAFT_HEIGHT: i64 = 170_000;

pub const SPACECRAFT_WIDTH: i64 = 260_000;

pub const JELLY_FISH_ALIEN_HEIGHT: i64 = 170_000;

pub const JELLY_FISH_ALIEN_WIDTH: i64 = 260_000;

pub const MONSTER_ALIEN_HEIGHT: i64 = 170_000;

pub const MONSTER_ALIEN_WIDTH: i64 = 260_000;

pub const MUSHROOM_ALIEN_HEIGHT: i64 = 170_000;

pub const MUSHROOM_ALIEN_WIDTH: i64 = 260_000;

/// The player's craft. Sizes are in sub-units.
#[derive(Clone, Copy, Debug, PartialEq, Eq, Structural)]
pub struct Spacecraft {
    pub width: i64,
    pub height: i64,
}

impl Spacecraft {
    pub fn new() -> (s: Spacecraft)
        ensures
            s == (Spacecraft { width: SPACECRAFT_WIDTH, height: SPACECRAFT_HEIGHT }),
    {
        Spacecraft { width: SPACECRAFT_WIDTH, height: SPACECRAFT_HEIGHT }
    }
}

/// An alien of the top row. `time_since_move` is in microseconds.
#[derive(Clone, Copy, Debug, PartialEq, Eq, Structural)]
pub struct JellyFishAlien {
    pub width: i64,
    pub height: i64,
    pub time_since_move: u64,
}

impl JellyFishAlien {
    /// A fresh alien. Its box is as wide as the sprite is high and as high as
    /// the sprite is wide.
    pub fn new() -> (a: JellyFishAlien)
        ensures
            a == (JellyFishAlien {
                width: JELLY_FISH_ALIEN_HEIGHT,
                height: JELLY_FISH_ALIEN_WIDTH,
                time_since_move: 0,
            }),
    {
        JellyFishAlien {
            width: JELLY_FISH_ALIEN_HEIGHT,
            height: JELLY_FISH_ALIEN_WIDTH,
            time_since_move: 0,
        }
    }
}

/// An alien of the two middle rows. `time_since_move` is in microseconds.
#[derive(Clone, Copy, Debug, PartialEq, Eq, Structural)]
pub struct MonsterAlien {
    pub width: i64,
    pub height: i64,
    pub time_since_move: u64,
}

impl MonsterAlien {
    /// A fresh alien, with the box of a jelly fish.
    pub fn new() -> (a: MonsterAlien)
        ensures
            a == (MonsterAlien {
                width: JELLY_FISH_ALIEN_HEIGHT,
                height: JELLY_FISH_ALIEN_WIDTH,
                time_since_move: 0,
            }),
    {
        MonsterAlien {
            width: JELLY_FISH_ALIEN_HEIGHT,
            height: JELLY_FISH_ALIEN_WIDTH,
            time_since_move: 0,
        }
    }
}

/// An alien of the two bottom rows. `time_since_move` is in microseconds.
#[derive(Clone, Copy, Debug, PartialEq, Eq, Structural)]
pub struct MushroomAlien {
    pub width: i64,
    pub height: i64,
    pub time_since_move: u64,
}

impl MushroomAlien {
    /// A fresh alien. Its box is as wide as the sprite is high and as high as
    /// the sprite is wide.
    pub fn new() -> (a: MushroomAlien)
        ensures
            a == (MushroomAlien {
                width: MUSHROOM_ALIEN_HEIGHT,
                height: MUSHROOM_ALIEN_WIDTH,
                time_since_move: 0,
            }),
    {
        MushroomAlien {
            width: MUSHROOM_ALIEN_HEIGHT,
            height: MUSHROOM_ALIEN_WIDTH,
            time_since_move: 0,
        }
    }
}

/// One component of any kind, as it is handed to or read from the world.
#[derive(Clone, Copy, Debug, PartialEq, Eq, Structural)]
pub enum Component {
    Transform(Transform),
    Spacecraft(Spacecraft),
    JellyFishAlien(JellyFishAlien),
    MonsterAlien(MonsterAlien),
    MushroomAlien(MushroomAlien),
}

impl Component {
    /// The kind of this component.
    pub open spec fn spec_kind(self) -> ComponentKind {
        match self {
            Component::Transform(_) => ComponentKind::Transform,
            Component::Spacecraft(_) => ComponentKind::Spacecraft,
            Component::JellyFishAlien(_) => ComponentKind::JellyFishAlien,
            Component::MonsterAlien(_) => ComponentKind::MonsterAlien,
            Component::MushroomAlien(_) => ComponentKind::MushroomAlien,
        }
    }

    /// The kind of this component.
    pub fn kind(&self) -> (k: ComponentKind)
        ensures
            k == self.spec_kind(),
    {
        match self {
            Component::Transform(_) => ComponentKind::Transform,
            Component::Spacecraft(_) => ComponentKind::Spacecraft,
            Component::JellyFishAlien(_) => ComponentKind::JellyFishAlien,
            Component::MonsterAlien(_) => ComponentKind::MonsterAlien,
            Component::MushroomAlien(_) => ComponentKind::MushroomAlien,
        }
    }
}

} // verus!
