//! The march of the monster aliens.

use vstd::prelude::*;
use crate::components::MonsterAlien;
use crate::entity::{ComponentKind, EntityId};
use crate::systems::formation::{
    march, marched_aliens, marched_direction, marched_transforms, Marcher,
};
use crate::world::{World, WorldView};

verus! {

/// The way a formation is heading.
#[derive(Clone, Copy, Debug, PartialEq, Eq, Structural)]
pub enum Direction {
    Right,
    Left,
}

impl Direction {
    /// Whether this is `Right`.
    pub open spec fn rightward(self) -> bool {
        self == Direction::Right
    }

    /// `Right` for `true`, `Left` for `false`.
    pub open spec fn heading(rightward: bool) -> Direction {
        if rightward {
            Direction::Right
        } else {
            Direction::Left
        }
    }
}

impl Default for Direction {
    /// A formation starts out to the right.
    fn default() -> (d: Direction)
        ensures
            d == Direction::Right,
    {
        Direction::Right
    }
}

impl Marcher for MonsterAlien {
    open spec fn elapsed(&self) -> u64 {
        self.time_since_move
    }

    open spec fn timed(&self, t: u64) -> MonsterAlien {
        MonsterAlien { time_since_move: t, ..*self }
    }

    proof fn lemma_timed(&self, t: u64) {
    }

    fn time_since_move(&self) -> (t: u64) {
        self.time_since_move
    }

    fn set_time_since_move(&mut self, t: u64) {
        self.time_since_move = t;
    }
}

/// Moves the monster aliens. The direction belongs to the system and so to
/// the whole formation, not to any one alien.
#[derive(Clone, Copy, Debug, PartialEq, Eq, Structural)]
pub struct MonsterAlienSystem {
    pub x_moves: i32,
    pub time_since_move: i32,
    pub direction: Direction,
}

impl Default for MonsterAlienSystem {
    fn default() -> (s: MonsterAlienSystem)
        ensures
            s == (MonsterAlienSystem { x_moves: 0, time_since_move: 0, direction: Direction::Right }),
    {
        MonsterAlienSystem { x_moves: 0, time_since_move: 0, direction: Direction::Right }
    }
}

impl MonsterAlienSystem {
    /// The system after a tick on the world `w`.
    pub open spec fn next(self, w: WorldView) -> MonsterAlienSystem {
        MonsterAlienSystem {
            direction: Direction::heading(
                marched_direction(
                    self.direction.rightward(),
                    w.join(ComponentKind::MonsterAlien, ComponentKind::Transform),
                    w.transforms,
                ),
            ),
            ..self
        }
    }

    /// The world after a tick in which `dt` microseconds have passed.
    pub open spec fn step(self, w: WorldView, dt: u64) -> WorldView {
        let ids = w.join(ComponentKind::MonsterAlien, ComponentKind::Transform);
        WorldView {
            transforms: marched_transforms(
                self.direction.rightward(),
                ids,
                w.transforms,
                w.monsters,
                dt,
            ),
            monsters: marched_aliens(ids, w.monsters, dt),
            ..w
        }
    }

    /// One tick of the monster formation: see [`march`].
    pub fn run(&mut self, world: &mut World, dt: u64)
        requires
            old(world).wf(),
            old(world)@.registered.has(ComponentKind::MonsterAlien),
            old(world)@.registered.has(ComponentKind::Transform),
        ensures
            final(world).wf(),
            final(world)@ == old(self).step(old(world)@, dt),
            *final(self) == old(self).next(old(world)@),
    {
        let ids = world.join(ComponentKind::MonsterAlien, ComponentKind::Transform);
        let rightward = match self.direction {
            Direction::Right => true,
            Direction::Left => false,
        };
        let now_right = march(rightward, &ids, &mut world.transforms, &mut world.monsters, dt);
        self.direction = if now_right {
            Direction::Right
        } else {
            Direction::Left
        };
        proof {
            let pre = old(world)@;
            let post = world@;
            assert(post == old(self).step(pre, dt));
            assert forall|e: EntityId, kind: ComponentKind|
                post.stored(e, kind) <==> post.carries(e, kind) by {
                assert(pre.stored(e, kind) <==> pre.carries(e, kind));
            }
            assert forall|e: EntityId, kind: ComponentKind| post.carries(e, kind) implies post
                .registered.has(kind) by {
                assert(pre.carries(e, kind));
            }
        }
    }
}

} // verus!
