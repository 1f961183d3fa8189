//! The sweep of the jelly fish aliens: to the right one unit at a time, then
//! back and down, driven by one counter that every alien advances.

use vstd::prelude::*;
use crate::entity::{ComponentKind, EntityId};
use crate::transform::Transform;
use crate::units::UNIT;
use crate::world::{World, WorldView};

verus! {

/// The counter value at which a sweep ends.
pub const SWEEP: i32 = 80;

/// How far an alien drops at the end of a sweep.
pub const DESCENT: i64 = 200_000;

/// Moves the jelly fish aliens. `x_moves` counts the moves of the current
/// sweep over all aliens together: each alien that is moved advances it.
#[derive(Clone, Copy, Debug, PartialEq, Eq, Structural)]
pub struct AliensSystem {
    pub x_moves: i32,
}

/// The counter after one more alien was handled at counter `c`.
pub open spec fn advanced(c: i32) -> i32 {
    if c < SWEEP {
        (c + 1) as i32
    } else {
        0
    }
}

/// The counter that the alien at place `k` of the join meets, if the tick
/// began at `start`.
pub open spec fn counter_at(start: i32, k: nat) -> i32
    decreases k,
{
    if k == 0 {
        start
    } else {
        advanced(counter_at(start, (k - 1) as nat))
    }
}

/// The transform of an alien that is handled at counter `c`: one unit to the
/// right while the sweep lasts; else back by `c` units and down.
pub open spec fn swept(t: Transform, c: i32) -> Transform {
    if c < SWEEP {
        t.moved_x(UNIT as int)
    } else {
        t.moved_x(-(c * UNIT)).moved_y(-DESCENT)
    }
}

impl AliensSystem {
    /// The system after a tick on the world `w`.
    pub open spec fn next(self, w: WorldView) -> AliensSystem {
        AliensSystem {
            x_moves: counter_at(
                self.x_moves,
                w.join(ComponentKind::JellyFishAlien, ComponentKind::Transform).len(),
            ),
        }
    }

    /// The world after a tick.
    pub open spec fn step(self, w: WorldView) -> WorldView {
        let ids = w.join(ComponentKind::JellyFishAlien, ComponentKind::Transform);
        WorldView {
            transforms: Map::new(
                |id: EntityId| w.transforms.contains_key(id),
                |id: EntityId|
                    if ids.contains(id) {
                        swept(w.transforms[id], counter_at(self.x_moves, ids.index_of(id) as nat))
                    } else {
                        w.transforms[id]
                    },
            ),
            ..w
        }
    }

    /// One tick. The aliens are handled in creation order, and each meets
    /// the counter as the one before left it: below `SWEEP` the alien moves
    /// one unit to the right and the counter goes up by one; at `SWEEP` or
    /// above the alien moves back by the counter's value in units and down
    /// by `DESCENT`, and the counter starts again at zero.
    pub fn run(&mut self, world: &mut World)
        requires
            old(world).wf(),
            old(world)@.registered.has(ComponentKind::JellyFishAlien),
            old(world)@.registered.has(ComponentKind::Transform),
        ensures
            final(world).wf(),
            final(world)@ == old(self).step(old(world)@),
            *final(self) == old(self).next(old(world)@),
    {
        let ids = world.join(ComponentKind::JellyFishAlien, ComponentKind::Transform);
        let ghost ts = world.transforms@;
        let ghost start = self.x_moves;
        let mut k: usize = 0;
        while k < ids.len()
            invariant
                k <= ids@.len(),
                ids@.no_duplicates(),
                self.x_moves == counter_at(start, k as nat),
                forall|j: int| 0 <= j < ids@.len() ==> ts.contains_key(#[trigger] ids@[j]),
                forall|id: EntityId| world.transforms@.contains_key(id) == ts.contains_key(id),
                forall|j: int|
                    0 <= j < k ==> world.transforms@[#[trigger] ids@[j]] == swept(
                        ts[ids@[j]],
                        counter_at(start, j as nat),
                    ),
                forall|j: int|
                    k <= j < ids@.len() ==> world.transforms@[#[trigger] ids@[j]] == ts[ids@[j]],
                forall|id: EntityId| !ids@.contains(id) ==> world.transforms@[id] == ts[id],
                world.registry == old(world).registry,
                world.registered == old(world).registered,
                world.spacecrafts == old(world).spacecrafts,
                world.jelly_fish == old(world).jelly_fish,
                world.monsters == old(world).monsters,
                world.mushrooms == old(world).mushrooms,
            decreases ids@.len() - k,
        {
            let id = ids[k];
            assert(ts.contains_key(ids@[k as int]));
            assert(ids@.contains(id));
            match world.transforms.get_mut(id) {
                Some(t) => {
                    if self.x_moves < SWEEP {
                        self.x_moves += 1;
                        t.translate_x(UNIT);
                    } else {
                        let back: i64 = -((self.x_moves as i64) * UNIT);
                        t.translate_x(back);
                        self.x_moves = 0;
                        t.translate_y(-DESCENT);
                    }
                },
                None => {},
            }
            k += 1;
        }
        proof {
            let pre = old(world)@;
            let post = world@;
            let want = old(self).step(pre).transforms;
            assert forall|id: EntityId| post.transforms.contains_key(id) implies #[trigger] post
                .transforms[id] == want[id] by {
                if ids@.contains(id) {
                    let j = ids@.index_of(id);
                    assert(ids@[j] == id);
                }
            }
            assert(post.transforms =~= want);
            assert forall|e: EntityId, kind: ComponentKind|
                post.stored(e, kind) <==> post.carries(e, kind) by {
                assert(pre.stored(e, kind) <==> pre.carries(e, kind));
            }
            assert forall|e: EntityId, kind: ComponentKind| post.carries(e, kind) implies post
                .registered.has(kind) by {
                assert(pre.carries(e, kind));
            }
        }
    }
}

/// From a counter of zero the sweep repeats every `SWEEP + 1` aliens: the
/// alien at place `k` meets the counter `k % 81`, so that exactly the aliens
/// at places 80, 161, 242, ... are sent back and down.
pub proof fn lemma_counter_cycle(k: nat)
    ensures
        counter_at(0, k) == k % 81,
        (counter_at(0, k) >= SWEEP) == (k % 81 == 80),
    decreases k,
{
    if k > 0 {
        lemma_counter_cycle((k - 1) as nat);
    }
}

/// The counter carries over from tick to tick: handling `a` aliens and then
/// `b` more is handling `a + b`, whichever ticks they fall in.
pub proof fn lemma_counter_carries(start: i32, a: nat, b: nat)
    ensures
        counter_at(counter_at(start, a), b) == counter_at(start, a + b),
    decreases b,
{
    if b > 0 {
        lemma_counter_carries(start, a, (b - 1) as nat);
    }
}

/// A counter that starts within a sweep stays within `0..=SWEEP`.
pub proof fn lemma_counter_range(start: i32, k: nat)
    requires
        0 <= start <= SWEEP,
    ensures
        0 <= counter_at(start, k) <= SWEEP,
    decreases k,
{
    if k > 0 {
        lemma_counter_range(start, (k - 1) as nat);
    }
}

} // verus!
