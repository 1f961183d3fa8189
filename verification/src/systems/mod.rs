//! The movement systems, one for each kind of thing that moves.

pub mod formation;
pub mod monster_alien;
pub mod mushroom_alien;

pub use self::monster_alien::MonsterAlienSystem;
pub use self::mushroom_alien::MushroomAlienSystem;
pub mod aliens;
pub mod spacecraft;

pub use self::aliens::AliensSystem;
pub use self::spacecraft::SpacecraftSystem;
