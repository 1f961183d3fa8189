//! A small row-marching arcade simulation: an entity-component world, a
//! fixed-order dispatcher and four movement systems, all on fixed-point
//! integers so that every frame is exactly reproducible.

pub mod units;
pub mod transform;
pub mod entity;
pub mod store;
pub mod components;
pub mod world;
pub mod input;
pub mod space_invaders;
pub mod systems;
pub mod dispatcher;
