//! The player's craft: sideways by the axis, and a shot count for the fire
//! key.

use vstd::prelude::*;
use crate::entity::{ComponentKind, EntityId};
use crate::input::InputSnapshot;
use crate::transform::Transform;
use crate::world::{World, WorldView};

verus! {

/// Sub-units that a craft moves per tick for each thousandth of axis
/// deflection: 1.2 arena units at full deflection.
pub const SPEED: i64 = 12;

/// Moves the spacecraft by the horizontal axis.
#[derive(Clone, Copy, Debug, PartialEq, Eq, Structural)]
pub struct SpacecraftSystem;

/// A craft's transform after a tick with the given axis reading. A reading
/// of zero, or none at all, leaves it where it is.
pub open spec fn steered(t: Transform, axis: Option<i32>) -> Transform {
    match axis {
        Some(a) => if a != 0 {
            t.moved_x(SPEED * a)
        } else {
            t
        },
        None => t,
    }
}

impl SpacecraftSystem {
    /// The world after a tick with the given input.
    pub open spec fn step(w: WorldView, input: InputSnapshot) -> WorldView {
        let ids = w.join(ComponentKind::Spacecraft, ComponentKind::Transform);
        WorldView {
            transforms: Map::new(
                |id: EntityId| w.transforms.contains_key(id),
                |id: EntityId|
                    if ids.contains(id) {
                        steered(w.transforms[id], input.axis)
                    } else {
                        w.transforms[id]
                    },
            ),
            ..w
        }
    }

    /// How often weapons are fired in a tick: once for each craft while the
    /// fire key is down.
    pub open spec fn shots(w: WorldView, input: InputSnapshot) -> nat {
        if input.fire {
            w.join(ComponentKind::Spacecraft, ComponentKind::Transform).len()
        } else {
            0
        }
    }

    /// One tick: every craft moves along x by `SPEED` times the axis reading,
    /// with no regard to the arena's edges. Returns how often weapons were
    /// fired; firing changes nothing in the world.
    pub fn run(&mut self, world: &mut World, input: &InputSnapshot) -> (shots: usize)
        requires
            old(world).wf(),
            old(world)@.registered.has(ComponentKind::Spacecraft),
            old(world)@.registered.has(ComponentKind::Transform),
        ensures
            final(world).wf(),
            final(world)@ == Self::step(old(world)@, *input),
            shots == Self::shots(old(world)@, *input),
    {
        let ids = world.join(ComponentKind::Spacecraft, ComponentKind::Transform);
        let ghost ts = world.transforms@;
        let mut shots: usize = 0;
        let mut k: usize = 0;
        while k < ids.len()
            invariant
                k <= ids@.len(),
                ids@.no_duplicates(),
                shots == (if input.fire {
                    k
                } else {
                    0
                }),
                forall|j: int| 0 <= j < ids@.len() ==> ts.contains_key(#[trigger] ids@[j]),
                forall|id: EntityId| world.transforms@.contains_key(id) == ts.contains_key(id),
                forall|j: int|
                    0 <= j < k ==> world.transforms@[#[trigger] ids@[j]] == steered(
                        ts[ids@[j]],
                        input.axis,
                    ),
                forall|j: int|
                    k <= j < ids@.len() ==> world.transforms@[#[trigger] ids@[j]] == ts[ids@[j]],
                forall|id: EntityId| !ids@.contains(id) ==> world.transforms@[id] == ts[id],
                world.registry == old(world).registry,
                world.registered == old(world).registered,
                world.spacecrafts == old(world).spacecrafts,
                world.jelly_fish == old(world).jelly_fish,
                world.monsters == old(world).monsters,
                world.mushrooms == old(world).mushrooms,
            decreases ids@.len() - k,
        {
            let id = ids[k];
            assert(ts.contains_key(ids@[k as int]));
            assert(ids@.contains(id));
            match world.transforms.get_mut(id) {
                Some(t) => {
                    match input.axis {
                        Some(amount) => {
                            if amount != 0 {
                                let scaled: i64 = SPEED * (amount as i64);
                                t.translate_x(scaled);
                            }
                        },
                        None => {},
                    }
                },
                None => {},
            }
            if input.fire {
                shots += 1;
            }
            k += 1;
        }
        proof {
            let pre = old(world)@;
            let post = world@;
            assert(post.transforms =~= Self::step(pre, *input).transforms);
            assert forall|e: EntityId, kind: ComponentKind|
                post.stored(e, kind) <==> post.carries(e, kind) by {
                assert(pre.stored(e, kind) <==> pre.carries(e, kind));
            }
            assert forall|e: EntityId, kind: ComponentKind| post.carries(e, kind) implies post
                .registered.has(kind) by {
                assert(pre.carries(e, kind));
            }
        }
        shots
    }
}

} // verus!
