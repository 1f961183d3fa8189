//! The march of a formation: one direction shared by all its aliens, a drop
//! of one row when any of them reaches the edge, and a sideways step for each
//! alien whose own timer has run out.

use vstd::prelude::*;
use crate::entity::{rising, EntityId};
use crate::store::Store;
use crate::transform::Transform;
use crate::units::{accumulate, clamp, clamp_time, SECOND};

verus! {

/// An alien turns left once it stands here or further right.
pub const RIGHT_EDGE: i64 = 4_200_000;

/// An alien turns right once it stands here or further left.
pub const LEFT_EDGE: i64 = 800_000;

/// How far an alien moves sideways in one step.
pub const STEP: i64 = 60_000;

/// How far the formation drops when it turns.
pub const DROP: i64 = 300_000;

/// A component that times its own sideways steps.
pub trait Marcher: Sized {
    /// Microseconds since the alien last stepped.
    spec fn elapsed(&self) -> u64;

    /// The alien with its timer set to `t` and nothing else changed.
    spec fn timed(&self, t: u64) -> Self;

    /// Setting the timer sets the timer.
    proof fn lemma_timed(&self, t: u64)
        ensures
            self.timed(t).elapsed() == t,
    ;

    /// Microseconds since the alien last stepped.
    fn time_since_move(&self) -> (t: u64)
        ensures
            t == self.elapsed(),
    ;

    /// Sets the timer and changes nothing else.
    fn set_time_since_move(&mut self, t: u64)
        ensures
            *final(self) == old(self).timed(t),
    ;
}

/// Whether a formation that moves in the given direction turns because of an
/// alien at `t`.
pub open spec fn at_edge(rightward: bool, t: Transform) -> bool {
    if rightward {
        t.x >= RIGHT_EDGE
    } else {
        t.x <= LEFT_EDGE
    }
}

/// Whether any of `ids` stands at the edge.
pub open spec fn any_at_edge(rightward: bool, ids: Seq<EntityId>, ts: Map<EntityId, Transform>)
    -> bool {
    exists|k: int| 0 <= k < ids.len() && at_edge(rightward, #[trigger] ts[ids[k]])
}

/// Whether an alien steps once `dt` more microseconds have passed.
pub open spec fn due<A: Marcher>(a: A, dt: u64) -> bool {
    clamp_time(a.elapsed() + dt) > SECOND
}

/// An alien after `dt` more microseconds: its timer runs on, or starts again
/// if it steps.
pub open spec fn marched_alien<A: Marcher>(a: A, dt: u64) -> A {
    if due(a, dt) {
        a.timed(0)
    } else {
        a.timed(clamp_time(a.elapsed() + dt) as u64)
    }
}

/// A transform one row lower.
pub open spec fn dropped(t: Transform) -> Transform {
    t.moved_y(-DROP)
}

/// A transform one step further in the given direction.
pub open spec fn stepped(t: Transform, rightward: bool) -> Transform {
    if rightward {
        t.moved_x(STEP as int)
    } else {
        t.moved_x(-STEP)
    }
}

/// The transform of one alien after a tick: lower by one row if the formation
/// turned, then one step in the new direction if the alien was due.
pub open spec fn marched_transform(t: Transform, flip: bool, steps: bool, now_right: bool)
    -> Transform {
    let t1 = if flip {
        dropped(t)
    } else {
        t
    };
    if steps {
        stepped(t1, now_right)
    } else {
        t1
    }
}

/// The direction after a tick: the other one if any alien stood at the edge.
pub open spec fn marched_direction(
    rightward: bool,
    ids: Seq<EntityId>,
    ts: Map<EntityId, Transform>,
) -> bool {
    rightward != any_at_edge(rightward, ids, ts)
}

/// All transforms after a tick of the formation `ids`.
pub open spec fn marched_transforms<A: Marcher>(
    rightward: bool,
    ids: Seq<EntityId>,
    ts: Map<EntityId, Transform>,
    aliens: Map<EntityId, A>,
    dt: u64,
) -> Map<EntityId, Transform> {
    let flip = any_at_edge(rightward, ids, ts);
    Map::new(
        |id: EntityId| ts.contains_key(id),
        |id: EntityId|
            if ids.contains(id) {
                marched_transform(ts[id], flip, due(aliens[id], dt), rightward != flip)
            } else {
                ts[id]
            },
    )
}

/// All aliens of one kind after a tick of the formation `ids`.
pub open spec fn marched_aliens<A: Marcher>(ids: Seq<EntityId>, aliens: Map<EntityId, A>, dt: u64)
    -> Map<EntityId, A> {
    Map::new(
        |id: EntityId| aliens.contains_key(id),
        |id: EntityId|
            if ids.contains(id) {
                marched_alien(aliens[id], dt)
            } else {
                aliens[id]
            },
    )
}

/// Whether every one of `ids` has a component in `m`.
pub open spec fn all_stored<T>(ids: Seq<EntityId>, m: Map<EntityId, T>) -> bool {
    forall|k: int| 0 <= k < ids.len() ==> m.contains_key(#[trigger] ids[k])
}

/// Looks for the first of `ids`, in their order, that stands at the edge, and
/// looks no further.
pub fn detect_flip(rightward: bool, ids: &Vec<EntityId>, transforms: &Store<Transform>) -> (hit:
    Option<usize>)
    requires
        all_stored(ids@, transforms@),
    ensures
        hit.is_some() == any_at_edge(rightward, ids@, transforms@),
        match hit {
            Some(k) => {
                &&& k < ids@.len()
                &&& at_edge(rightward, transforms@[ids@[k as int]])
                &&& forall|j: int| 0 <= j < k ==> !at_edge(rightward, #[trigger] transforms@[ids@[j]])
            },
            None => true,
        },
{
    let mut k: usize = 0;
    while k < ids.len()
        invariant
            k <= ids@.len(),
            all_stored(ids@, transforms@),
            forall|j: int| 0 <= j < k ==> !at_edge(rightward, #[trigger] transforms@[ids@[j]]),
        decreases ids@.len() - k,
    {
        let id = ids[k];
        assert(transforms@.contains_key(ids@[k as int]));
        let turn = match transforms.get(id) {
            Some(t) => {
                let x: i64 = t.translation()[0];
                if rightward {
                    x >= RIGHT_EDGE
                } else {
                    x <= LEFT_EDGE
                }
            },
            None => false,
        };
        if turn {
            return Some(k);
        }
        k += 1;
    }
    None
}

/// Moves every one of `ids` down by one row.
pub fn drop_all(ids: &Vec<EntityId>, transforms: &mut Store<Transform>)
    requires
        ids@.no_duplicates(),
        all_stored(ids@, old(transforms)@),
    ensures
        final(transforms)@ == Map::new(
            |id: EntityId| old(transforms)@.contains_key(id),
            |id: EntityId|
                if ids@.contains(id) {
                    dropped(old(transforms)@[id])
                } else {
                    old(transforms)@[id]
                },
        ),
{
    let ghost before = transforms@;
    let mut k: usize = 0;
    while k < ids.len()
        invariant
            k <= ids@.len(),
            ids@.no_duplicates(),
            forall|id: EntityId| transforms@.contains_key(id) == before.contains_key(id),
            all_stored(ids@, before),
            forall|j: int| 0 <= j < k ==> transforms@[#[trigger] ids@[j]] == dropped(before[ids@[j]]),
            forall|j: int|
                k <= j < ids@.len() ==> transforms@[#[trigger] ids@[j]] == before[ids@[j]],
            forall|id: EntityId| !ids@.contains(id) ==> transforms@[id] == before[id],
        decreases ids@.len() - k,
    {
        let id = ids[k];
        assert(before.contains_key(ids@[k as int]));
        assert(ids@.contains(id));
        match transforms.get_mut(id) {
            Some(t) => {
                t.translate_y(-DROP);
            },
            None => {},
        }
        k += 1;
    }
    assert(transforms@ =~= Map::new(
        |id: EntityId| before.contains_key(id),
        |id: EntityId|
            if ids@.contains(id) {
                dropped(before[id])
            } else {
                before[id]
            },
    ));
}

/// Lets `dt` microseconds pass for every one of `ids`: each alien whose
/// timer then exceeds one second starts it again and moves one step in the
/// given direction; the others only keep the time.
pub fn step_all<A: Marcher>(
    rightward: bool,
    ids: &Vec<EntityId>,
    transforms: &mut Store<Transform>,
    aliens: &mut Store<A>,
    dt: u64,
)
    requires
        ids@.no_duplicates(),
        all_stored(ids@, old(transforms)@),
        all_stored(ids@, old(aliens)@),
    ensures
        final(transforms)@ == Map::new(
            |id: EntityId| old(transforms)@.contains_key(id),
            |id: EntityId|
                if ids@.contains(id) && due(old(aliens)@[id], dt) {
                    stepped(old(transforms)@[id], rightward)
                } else {
                    old(transforms)@[id]
                },
        ),
        final(aliens)@ == marched_aliens(ids@, old(aliens)@, dt),
{
    let ghost ts = transforms@;
    let ghost als = aliens@;
    let mut k: usize = 0;
    while k < ids.len()
        invariant
            k <= ids@.len(),
            ids@.no_duplicates(),
            all_stored(ids@, ts),
            all_stored(ids@, als),
            forall|id: EntityId| transforms@.contains_key(id) == ts.contains_key(id),
            forall|id: EntityId| aliens@.contains_key(id) == als.contains_key(id),
            forall|j: int|
                0 <= j < k ==> transforms@[#[trigger] ids@[j]] == (if due(als[ids@[j]], dt) {
                    stepped(ts[ids@[j]], rightward)
                } else {
                    ts[ids@[j]]
                }),
            forall|j: int| 0 <= j < k ==> aliens@[#[trigger] ids@[j]] == marched_alien(
                als[ids@[j]],
                dt,
            ),
            forall|j: int| k <= j < ids@.len() ==> transforms@[#[trigger] ids@[j]] == ts[ids@[j]],
            forall|j: int| k <= j < ids@.len() ==> aliens@[#[trigger] ids@[j]] == als[ids@[j]],
            forall|id: EntityId| !ids@.contains(id) ==> transforms@[id] == ts[id],
            forall|id: EntityId| !ids@.contains(id) ==> aliens@[id] == als[id],
        decreases ids@.len() - k,
    {
        let id = ids[k];
        assert(ts.contains_key(ids@[k as int]));
        assert(als.contains_key(ids@[k as int]));
        assert(ids@.contains(id));
        let mut steps = false;
        match aliens.get_mut(id) {
            Some(alien) => {
                let waited: u64 = accumulate(alien.time_since_move(), dt);
                if waited > SECOND {
                    alien.set_time_since_move(0);
                    steps = true;
                } else {
                    alien.set_time_since_move(waited);
                }
            },
            None => {},
        }
        if steps {
            match transforms.get_mut(id) {
                Some(t) => {
                    if rightward {
                        t.translate_x(STEP);
                    } else {
                        t.translate_x(-STEP);
                    }
                },
                None => {},
            }
        }
        k += 1;
    }
    assert(transforms@ =~= Map::new(
        |id: EntityId| ts.contains_key(id),
        |id: EntityId|
            if ids@.contains(id) && due(als[id], dt) {
                stepped(ts[id], rightward)
            } else {
                ts[id]
            },
    ));
    assert(aliens@ =~= marched_aliens(ids@, als, dt));
}

/// One tick of a formation. The first of `ids` that stands at the edge turns
/// the formation, once, and then every alien drops by one row; after that
/// each alien's timer runs on and those that are due step in the direction
/// that now holds. Returns that direction.
pub fn march<A: Marcher>(
    rightward: bool,
    ids: &Vec<EntityId>,
    transforms: &mut Store<Transform>,
    aliens: &mut Store<A>,
    dt: u64,
) -> (now_right: bool)
    requires
        ids@.no_duplicates(),
        all_stored(ids@, old(transforms)@),
        all_stored(ids@, old(aliens)@),
    ensures
        now_right == marched_direction(rightward, ids@, old(transforms)@),
        final(transforms)@ == marched_transforms(
            rightward,
            ids@,
            old(transforms)@,
            old(aliens)@,
            dt,
        ),
        final(aliens)@ == marched_aliens(ids@, old(aliens)@, dt),
{
    let flip = detect_flip(rightward, ids, transforms).is_some();
    let now_right = if flip {
        !rightward
    } else {
        rightward
    };
    if flip {
        drop_all(ids, transforms);
    }
    step_all(now_right, ids, transforms, aliens, dt);
    assert(transforms@ =~= marched_transforms(
        rightward,
        ids@,
        old(transforms)@,
        old(aliens)@,
        dt,
    ));
    now_right
}

/// However many aliens stand at the edge, the formation turns once: the
/// direction after the tick is the other one, every alien of the formation
/// is one row lower, and those that step do so in the new direction.
pub proof fn lemma_turns_once<A: Marcher>(
    rightward: bool,
    ids: Seq<EntityId>,
    ts: Map<EntityId, Transform>,
    aliens: Map<EntityId, A>,
    dt: u64,
    id: EntityId,
)
    requires
        any_at_edge(rightward, ids, ts),
        ids.contains(id),
        ts.contains_key(id),
    ensures
        marched_direction(rightward, ids, ts) == !rightward,
        marched_transforms(rightward, ids, ts, aliens, dt)[id].y == clamp(ts[id].y - DROP),
        marched_transforms(rightward, ids, ts, aliens, dt)[id].x == (if !due(aliens[id], dt) {
            ts[id].x as int
        } else if rightward {
            clamp(ts[id].x - STEP)
        } else {
            clamp(ts[id].x + STEP)
        }),
        marched_transforms(rightward, ids, ts, aliens, dt)[id].z == ts[id].z,
{
}

/// While no alien stands at the edge the formation keeps its direction and
/// its height, and those that step do so in that direction.
pub proof fn lemma_keeps_course<A: Marcher>(
    rightward: bool,
    ids: Seq<EntityId>,
    ts: Map<EntityId, Transform>,
    aliens: Map<EntityId, A>,
    dt: u64,
    id: EntityId,
)
    requires
        !any_at_edge(rightward, ids, ts),
        ids.contains(id),
        ts.contains_key(id),
    ensures
        marched_direction(rightward, ids, ts) == rightward,
        marched_transforms(rightward, ids, ts, aliens, dt)[id].y == ts[id].y,
        marched_transforms(rightward, ids, ts, aliens, dt)[id].x == (if !due(aliens[id], dt) {
            ts[id].x as int
        } else if rightward {
            clamp(ts[id].x + STEP)
        } else {
            clamp(ts[id].x - STEP)
        }),
        marched_transforms(rightward, ids, ts, aliens, dt)[id].z == ts[id].z,
{
}

/// A tick of a formation leaves every entity outside it as it was.
pub proof fn lemma_march_spares_others<A: Marcher>(
    rightward: bool,
    ids: Seq<EntityId>,
    ts: Map<EntityId, Transform>,
    aliens: Map<EntityId, A>,
    dt: u64,
    id: EntityId,
)
    requires
        !ids.contains(id),
    ensures
        ts.contains_key(id) ==> marched_transforms(rightward, ids, ts, aliens, dt)[id] == ts[id],
        aliens.contains_key(id) ==> marched_aliens(ids, aliens, dt)[id] == aliens[id],
{
}

} // verus!
