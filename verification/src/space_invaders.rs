//! The game's opening state: which entities exist at the start, and where.

use vstd::prelude::*;
pub use crate::components::{JellyFishAlien, MonsterAlien, MushroomAlien, Spacecraft};
use crate::components::{Component, ARENA_WIDTH, SPACECRAFT_HEIGHT};
use crate::entity::{ComponentKind, EntityId, KindSet};
use crate::transform::Transform;
use crate::world::{World, WorldView};

verus! {

/// Aliens in one row.
pub const ROW_LENGTH: usize = 11;

/// Where the first alien of a row stands along x.
pub const ROW_START: i64 = 300_000;

/// The distance along x from one alien of a row to the next.
pub const ROW_SPACING: i64 = 270_000;

/// The height of the jelly fish row.
pub const JELLY_FISH_ROW: i64 = 4_000_000;

/// The heights of the two monster rows.
pub const MONSTER_ROW_HIGH: i64 = 3_500_000;

pub const MONSTER_ROW_LOW: i64 = 3_000_000;

/// The heights of the two mushroom rows.
pub const MUSHROOM_ROW_HIGH: i64 = 2_500_000;

pub const MUSHROOM_ROW_LOW: i64 = 2_000_000;

/// Entities that the opening state creates: one craft and five rows.
pub const STARTING_ENTITIES: usize = 56;

/// Where the alien at place `i` of a row stands along x.
pub open spec fn row_x(i: int) -> int {
    ROW_START + ROW_SPACING * i
}

/// The transform of the alien at place `i` of a row at height `y`.
pub open spec fn row_place(i: int, y: i64) -> Transform {
    Transform { x: row_x(i) as i64, y, z: 0 }
}

/// The entity that was created after `n` others.
pub open spec fn nth_entity(n: int) -> EntityId {
    EntityId { index: n as usize }
}

/// Where the craft starts: in the middle of the arena, resting on its floor.
pub open spec fn spacecraft_start() -> Transform {
    Transform { x: 2_400_000, y: 85_000, z: 0 }
}

/// The jelly fish as it is first placed.
pub open spec fn fresh_jelly_fish() -> Component {
    Component::JellyFishAlien(JellyFishAlien { width: 170_000, height: 260_000, time_since_move: 0 })
}

/// The monster as it is first placed.
pub open spec fn fresh_monster() -> Component {
    Component::MonsterAlien(MonsterAlien { width: 170_000, height: 260_000, time_since_move: 0 })
}

/// The mushroom as it is first placed.
pub open spec fn fresh_mushroom() -> Component {
    Component::MushroomAlien(MushroomAlien { width: 170_000, height: 260_000, time_since_move: 0 })
}

/// The craft as it is first placed.
pub open spec fn fresh_spacecraft() -> Component {
    Component::Spacecraft(Spacecraft { width: 260_000, height: 170_000 })
}

impl WorldView {
    /// The identifier that the next entity gets.
    pub open spec fn next_id(self) -> EntityId {
        EntityId { index: self.attached.len() as usize }
    }

    /// Whether `id` carries `component`, a transform equal to `at`, and
    /// nothing else.
    pub open spec fn placed(self, id: EntityId, component: Component, at: Transform) -> bool {
        &&& id.index < self.attached.len()
        &&& self.attached[id.index as int] == KindSet::spec_empty().with(
            component.spec_kind(),
        ).with(ComponentKind::Transform)
        &&& self.component(id, component.spec_kind()) == Some(component)
        &&& self.transforms[id] == at
    }

    /// The world with one more entity, which carries `component` and stands
    /// at `at`.
    pub open spec fn spawned(self, component: Component, at: Transform) -> WorldView {
        let id = self.next_id();
        self.with_entity().with_component(id, component).with_component(
            id,
            Component::Transform(at),
        )
    }

    /// The world with the first `n` aliens of a row at height `y`, each a
    /// copy of `alien`.
    pub open spec fn with_row(self, alien: Component, y: i64, n: nat) -> WorldView
        decreases n,
    {
        if n == 0 {
            self
        } else {
            self.with_row(alien, y, (n - 1) as nat).spawned(alien, row_place(n - 1, y))
        }
    }

    /// The world with the craft added.
    pub open spec fn with_spacecraft(self) -> WorldView {
        self.spawned(fresh_spacecraft(), spacecraft_start())
    }

    /// The world with the five rows of aliens added, top row first.
    pub open spec fn with_aliens(self) -> WorldView {
        self.with_row(fresh_jelly_fish(), JELLY_FISH_ROW, ROW_LENGTH as nat).with_row(
            fresh_monster(),
            MONSTER_ROW_HIGH,
            ROW_LENGTH as nat,
        ).with_row(fresh_monster(), MONSTER_ROW_LOW, ROW_LENGTH as nat).with_row(
            fresh_mushroom(),
            MUSHROOM_ROW_HIGH,
            ROW_LENGTH as nat,
        ).with_row(fresh_mushroom(), MUSHROOM_ROW_LOW, ROW_LENGTH as nat)
    }

    /// The world as the opening state leaves it.
    pub open spec fn started(self) -> WorldView {
        self.with_kind(ComponentKind::JellyFishAlien).with_kind(
            ComponentKind::MonsterAlien,
        ).with_kind(ComponentKind::MushroomAlien).with_spacecraft().with_aliens()
    }
}

/// What a row adds: `n` entities after those that were there, each with the
/// alien and its place in the row. Nothing that was there changes.
pub proof fn lemma_with_row(w: WorldView, alien: Component, y: i64, n: nat)
    requires
        w.wf(),
        w.attached.len() + n <= usize::MAX,
        n <= ROW_LENGTH,
        w.registered.has(alien.spec_kind()),
        w.registered.has(ComponentKind::Transform),
        alien.spec_kind() != ComponentKind::Transform,
    ensures
        w.with_row(alien, y, n).wf(),
        w.with_row(alien, y, n).registered == w.registered,
        w.with_row(alien, y, n).attached.len() == w.attached.len() + n,
        forall|i: int|
            0 <= i < w.attached.len() ==> w.with_row(alien, y, n).attached[i] == w.attached[i],
        forall|id: EntityId, kind: ComponentKind|
            id.index < w.attached.len() ==> w.with_row(alien, y, n).component(id, kind)
                == w.component(id, kind),
        forall|i: int|
            0 <= i < n ==> #[trigger] w.with_row(alien, y, n).placed(
                nth_entity(w.attached.len() + i),
                alien,
                row_place(i, y),
            ),
    decreases n,
{
    if n > 0 {
        let before = w.with_row(alien, y, (n - 1) as nat);
        lemma_with_row(w, alien, y, (n - 1) as nat);
        let at = row_place(n - 1, y);
        let after = before.spawned(alien, at);
        lemma_spawned(before, alien, at);
        assert(after == w.with_row(alien, y, n));
        assert forall|id: EntityId, kind: ComponentKind|
            id.index < w.attached.len() implies after.component(id, kind) == w.component(
            id,
            kind,
        ) by {
            assert(before.component(id, kind) == w.component(id, kind));
        }
        assert forall|i: int| 0 <= i < n implies #[trigger] after.placed(
            nth_entity(w.attached.len() + i),
            alien,
            row_place(i, y),
        ) by {
            let id = nth_entity(w.attached.len() + i);
            if i < n - 1 {
                assert(before.placed(id, alien, row_place(i, y)));
                assert(after.component(id, alien.spec_kind()) == before.component(
                    id,
                    alien.spec_kind(),
                ));
                assert(after.component(id, ComponentKind::Transform) == before.component(
                    id,
                    ComponentKind::Transform,
                ));
                assert(before.carries(id, ComponentKind::Transform));
                assert(before.stored(id, ComponentKind::Transform));
            }
        }
    }
}

/// What one spawn adds: a last entity with the component and the transform.
/// Nothing that was there changes.
pub proof fn lemma_spawned(w: WorldView, component: Component, at: Transform)
    requires
        w.wf(),
        w.attached.len() < usize::MAX,
        w.registered.has(component.spec_kind()),
        w.registered.has(ComponentKind::Transform),
        component.spec_kind() != ComponentKind::Transform,
    ensures
        w.spawned(component, at).wf(),
        w.spawned(component, at).registered == w.registered,
        w.spawned(component, at).attached.len() == w.attached.len() + 1,
        forall|i: int|
            0 <= i < w.attached.len() ==> w.spawned(component, at).attached[i] == w.attached[i],
        w.spawned(component, at).placed(w.next_id(), component, at),
        forall|id: EntityId, kind: ComponentKind|
            id.index < w.attached.len() ==> w.spawned(component, at).component(id, kind)
                == w.component(id, kind),
{
    let id = w.next_id();
    let a = w.with_entity();
    let b = a.with_component(id, component);
    let c = b.with_component(id, Component::Transform(at));
    assert forall|e: EntityId, kind: ComponentKind| a.stored(e, kind) <==> a.carries(e, kind) by {
        assert(w.stored(e, kind) <==> w.carries(e, kind));
    }
    assert forall|e: EntityId, kind: ComponentKind| b.stored(e, kind) <==> b.carries(e, kind) by {
        assert(a.stored(e, kind) <==> a.carries(e, kind));
    }
    assert forall|e: EntityId, kind: ComponentKind| c.stored(e, kind) <==> c.carries(e, kind) by {
        assert(b.stored(e, kind) <==> b.carries(e, kind));
    }
    assert forall|e: EntityId, kind: ComponentKind| c.carries(e, kind) implies c.registered.has(
        kind,
    ) by {
        if e.index < w.attached.len() {
            assert(w.carries(e, kind));
        }
    }
    assert forall|e: EntityId, kind: ComponentKind| e.index < w.attached.len() implies c.component(
        e,
        kind,
    ) == w.component(e, kind) by {
        assert(w.stored(e, kind) <==> w.carries(e, kind));
    }
}

/// An entity that is placed stays placed in any later world that kept its
/// kinds and its components.
pub proof fn lemma_placed_kept(
    before: WorldView,
    after: WorldView,
    id: EntityId,
    component: Component,
    at: Transform,
)
    requires
        before.wf(),
        before.placed(id, component, at),
        before.attached.len() <= after.attached.len(),
        after.attached[id.index as int] == before.attached[id.index as int],
        forall|kind: ComponentKind| after.component(id, kind) == before.component(id, kind),
    ensures
        after.placed(id, component, at),
{
    assert(before.carries(id, ComponentKind::Transform));
    assert(before.stored(id, ComponentKind::Transform));
    assert(after.component(id, ComponentKind::Transform) == before.component(
        id,
        ComponentKind::Transform,
    ));
}

/// Registering a kind keeps a world well formed and changes nothing else.
pub proof fn lemma_with_kind(w: WorldView, kind: ComponentKind)
    requires
        w.wf(),
    ensures
        w.with_kind(kind).wf(),
        w.with_kind(kind).registered.has(kind),
        forall|k: ComponentKind| w.registered.has(k) ==> w.with_kind(kind).registered.has(k),
{
    let after = w.with_kind(kind);
    assert forall|e: EntityId, k: ComponentKind| after.stored(e, k) <==> after.carries(e, k) by {
        assert(w.stored(e, k) <==> w.carries(e, k));
    }
    assert forall|e: EntityId, k: ComponentKind| after.carries(e, k) implies after.registered.has(
        k,
    ) by {
        assert(w.carries(e, k));
    }
}

/// Where everything stands when the game opens, before any tick: after the
/// entities that were there come the craft at its starting place and then
/// the five rows, each alien at its place in its row. Nothing that was
/// there changes.
pub proof fn lemma_opening_layout(w: WorldView)
    requires
        w.wf(),
        w.attached.len() + STARTING_ENTITIES <= usize::MAX,
        w.registered.has(ComponentKind::Spacecraft),
        w.registered.has(ComponentKind::Transform),
    ensures
        w.started().wf(),
        w.started().attached.len() == w.attached.len() + STARTING_ENTITIES,
        w.started().placed(nth_entity(w.attached.len() as int), fresh_spacecraft(), spacecraft_start()),
        forall|i: int|
            0 <= i < ROW_LENGTH ==> #[trigger] w.started().placed(
                nth_entity(w.attached.len() + 1 + i),
                fresh_jelly_fish(),
                row_place(i, JELLY_FISH_ROW),
            ),
        forall|i: int|
            0 <= i < ROW_LENGTH ==> #[trigger] w.started().placed(
                nth_entity(w.attached.len() + 12 + i),
                fresh_monster(),
                row_place(i, MONSTER_ROW_HIGH),
            ),
        forall|i: int|
            0 <= i < ROW_LENGTH ==> #[trigger] w.started().placed(
                nth_entity(w.attached.len() + 23 + i),
                fresh_monster(),
                row_place(i, MONSTER_ROW_LOW),
            ),
        forall|i: int|
            0 <= i < ROW_LENGTH ==> #[trigger] w.started().placed(
                nth_entity(w.attached.len() + 34 + i),
                fresh_mushroom(),
                row_place(i, MUSHROOM_ROW_HIGH),
            ),
        forall|i: int|
            0 <= i < ROW_LENGTH ==> #[trigger] w.started().placed(
                nth_entity(w.attached.len() + 45 + i),
                fresh_mushroom(),
                row_place(i, MUSHROOM_ROW_LOW),
            ),
        forall|id: EntityId, kind: ComponentKind|
            id.index < w.attached.len() ==> w.started().component(id, kind) == w.component(
                id,
                kind,
            ),
{
    let n = w.attached.len() as int;
    let k1 = w.with_kind(ComponentKind::JellyFishAlien);
    lemma_with_kind(w, ComponentKind::JellyFishAlien);
    let k2 = k1.with_kind(ComponentKind::MonsterAlien);
    lemma_with_kind(k1, ComponentKind::MonsterAlien);
    let k3 = k2.with_kind(ComponentKind::MushroomAlien);
    lemma_with_kind(k2, ComponentKind::MushroomAlien);
    let craft = k3.with_spacecraft();
    lemma_spawned(k3, fresh_spacecraft(), spacecraft_start());
    let r1 = craft.with_row(fresh_jelly_fish(), JELLY_FISH_ROW, ROW_LENGTH as nat);
    lemma_with_row(craft, fresh_jelly_fish(), JELLY_FISH_ROW, ROW_LENGTH as nat);
    let r2 = r1.with_row(fresh_monster(), MONSTER_ROW_HIGH, ROW_LENGTH as nat);
    lemma_with_row(r1, fresh_monster(), MONSTER_ROW_HIGH, ROW_LENGTH as nat);
    let r3 = r2.with_row(fresh_monster(), MONSTER_ROW_LOW, ROW_LENGTH as nat);
    lemma_with_row(r2, fresh_monster(), MONSTER_ROW_LOW, ROW_LENGTH as nat);
    let r4 = r3.with_row(fresh_mushroom(), MUSHROOM_ROW_HIGH, ROW_LENGTH as nat);
    lemma_with_row(r3, fresh_mushroom(), MUSHROOM_ROW_HIGH, ROW_LENGTH as nat);
    let r5 = r4.with_row(fresh_mushroom(), MUSHROOM_ROW_LOW, ROW_LENGTH as nat);
    lemma_with_row(r4, fresh_mushroom(), MUSHROOM_ROW_LOW, ROW_LENGTH as nat);
    assert(r5 == w.started());

    let ship = nth_entity(n);
    assert(craft.placed(ship, fresh_spacecraft(), spacecraft_start()));
    lemma_placed_kept(craft, r1, ship, fresh_spacecraft(), spacecraft_start());
    lemma_placed_kept(r1, r2, ship, fresh_spacecraft(), spacecraft_start());
    lemma_placed_kept(r2, r3, ship, fresh_spacecraft(), spacecraft_start());
    lemma_placed_kept(r3, r4, ship, fresh_spacecraft(), spacecraft_start());
    lemma_placed_kept(r4, r5, ship, fresh_spacecraft(), spacecraft_start());

    assert forall|i: int| 0 <= i < ROW_LENGTH implies #[trigger] r5.placed(
        nth_entity(n + 1 + i),
        fresh_jelly_fish(),
        row_place(i, JELLY_FISH_ROW),
    ) by {
        let id = nth_entity(n + 1 + i);
        let at = row_place(i, JELLY_FISH_ROW);
        assert(r1.placed(nth_entity(craft.attached.len() + i), fresh_jelly_fish(), at));
        lemma_placed_kept(r1, r2, id, fresh_jelly_fish(), at);
        lemma_placed_kept(r2, r3, id, fresh_jelly_fish(), at);
        lemma_placed_kept(r3, r4, id, fresh_jelly_fish(), at);
        lemma_placed_kept(r4, r5, id, fresh_jelly_fish(), at);
    }
    assert forall|i: int| 0 <= i < ROW_LENGTH implies #[trigger] r5.placed(
        nth_entity(n + 12 + i),
        fresh_monster(),
        row_place(i, MONSTER_ROW_HIGH),
    ) by {
        let id = nth_entity(n + 12 + i);
        let at = row_place(i, MONSTER_ROW_HIGH);
        assert(r2.placed(nth_entity(r1.attached.len() + i), fresh_monster(), at));
        lemma_placed_kept(r2, r3, id, fresh_monster(), at);
        lemma_placed_kept(r3, r4, id, fresh_monster(), at);
        lemma_placed_kept(r4, r5, id, fresh_monster(), at);
    }
    assert forall|i: int| 0 <= i < ROW_LENGTH implies #[trigger] r5.placed(
        nth_entity(n + 23 + i),
        fresh_monster(),
        row_place(i, MONSTER_ROW_LOW),
    ) by {
        let id = nth_entity(n + 23 + i);
        let at = row_place(i, MONSTER_ROW_LOW);
        assert(r3.placed(nth_entity(r2.attached.len() + i), fresh_monster(), at));
        lemma_placed_kept(r3, r4, id, fresh_monster(), at);
        lemma_placed_kept(r4, r5, id, fresh_monster(), at);
    }
    assert forall|i: int| 0 <= i < ROW_LENGTH implies #[trigger] r5.placed(
        nth_entity(n + 34 + i),
        fresh_mushroom(),
        row_place(i, MUSHROOM_ROW_HIGH),
    ) by {
        let id = nth_entity(n + 34 + i);
        let at = row_place(i, MUSHROOM_ROW_HIGH);
        assert(r4.placed(nth_entity(r3.attached.len() + i), fresh_mushroom(), at));
        lemma_placed_kept(r4, r5, id, fresh_mushroom(), at);
    }
    assert forall|i: int| 0 <= i < ROW_LENGTH implies #[trigger] r5.placed(
        nth_entity(n + 45 + i),
        fresh_mushroom(),
        row_place(i, MUSHROOM_ROW_LOW),
    ) by {
        assert(r5.placed(
            nth_entity(r4.attached.len() + i),
            fresh_mushroom(),
            row_place(i, MUSHROOM_ROW_LOW),
        ));
    }
    assert forall|id: EntityId, kind: ComponentKind| id.index < n implies r5.component(id, kind)
        == w.component(id, kind) by {
        assert(k3.component(id, kind) == w.component(id, kind));
        assert(craft.component(id, kind) == k3.component(id, kind));
        assert(r1.component(id, kind) == craft.component(id, kind));
        assert(r2.component(id, kind) == r1.component(id, kind));
        assert(r3.component(id, kind) == r2.component(id, kind));
        assert(r4.component(id, kind) == r3.component(id, kind));
    }
}

/// Creates an entity that carries `component` and stands at `at`.
pub fn spawn(world: &mut World, component: Component, at: Transform) -> (id: EntityId)
    requires
        old(world).wf(),
        old(world)@.registered.has(component.spec_kind()),
        old(world)@.registered.has(ComponentKind::Transform),
    ensures
        final(world).wf(),
        id == old(world)@.next_id(),
        final(world)@ == old(world)@.spawned(component, at),
        final(world)@.attached.len() == old(world)@.attached.len() + 1,
        final(world)@.registered == old(world)@.registered,
{
    let id = world.create_entity();
    world.attach(id, component);
    world.attach(id, Component::Transform(at));
    id
}

/// Places a row of `ROW_LENGTH` copies of `alien` at height `y`, from
/// `ROW_START` rightwards, `ROW_SPACING` apart.
pub fn place_row(world: &mut World, alien: Component, y: i64)
    requires
        old(world).wf(),
        old(world)@.registered.has(alien.spec_kind()),
        old(world)@.registered.has(ComponentKind::Transform),
    ensures
        final(world).wf(),
        final(world)@ == old(world)@.with_row(alien, y, ROW_LENGTH as nat),
        final(world)@.attached.len() == old(world)@.attached.len() + ROW_LENGTH,
        final(world)@.registered == old(world)@.registered,
{
    let mut x: i64 = ROW_START;
    let mut i: usize = 0;
    while i < ROW_LENGTH
        invariant
            i <= ROW_LENGTH,
            x == row_x(i as int),
            world.wf(),
            world@ == old(world)@.with_row(alien, y, i as nat),
            world@.attached.len() == old(world)@.attached.len() + i,
            world@.registered == old(world)@.registered,
            old(world)@.registered.has(alien.spec_kind()),
            old(world)@.registered.has(ComponentKind::Transform),
        decreases ROW_LENGTH - i,
    {
        let mut place = Transform::new();
        place.set_xyz(x, y, 0);
        spawn(world, alien, place);
        x += ROW_SPACING;
        i += 1;
    }
}

/// Creates the craft at its starting place.
pub fn initialise_spacecraft(world: &mut World)
    requires
        old(world).wf(),
        old(world)@.registered.has(ComponentKind::Spacecraft),
        old(world)@.registered.has(ComponentKind::Transform),
    ensures
        final(world).wf(),
        final(world)@ == old(world)@.with_spacecraft(),
        final(world)@.attached.len() == old(world)@.attached.len() + 1,
        final(world)@.registered == old(world)@.registered,
{
    let mut place = Transform::new();
    place.set_xyz(ARENA_WIDTH / 2, SPACECRAFT_HEIGHT / 2, 0);
    spawn(world, Component::Spacecraft(Spacecraft::new()), place);
}

/// Creates the five rows of aliens, top row first: one of jelly fish, two of
/// monsters, two of mushrooms.
pub fn initialise_aliens(world: &mut World)
    requires
        old(world).wf(),
        old(world)@.registered.has(ComponentKind::JellyFishAlien),
        old(world)@.registered.has(ComponentKind::MonsterAlien),
        old(world)@.registered.has(ComponentKind::MushroomAlien),
        old(world)@.registered.has(ComponentKind::Transform),
    ensures
        final(world).wf(),
        final(world)@ == old(world)@.with_aliens(),
        final(world)@.attached.len() == old(world)@.attached.len() + 5 * ROW_LENGTH,
        final(world)@.registered == old(world)@.registered,
{
    place_row(world, Component::JellyFishAlien(JellyFishAlien::new()), JELLY_FISH_ROW);
    place_row(world, Component::MonsterAlien(MonsterAlien::new()), MONSTER_ROW_HIGH);
    place_row(world, Component::MonsterAlien(MonsterAlien::new()), MONSTER_ROW_LOW);
    place_row(world, Component::MushroomAlien(MushroomAlien::new()), MUSHROOM_ROW_HIGH);
    place_row(world, Component::MushroomAlien(MushroomAlien::new()), MUSHROOM_ROW_LOW);
}

/// The opening state of the game.
#[derive(Clone, Copy, Debug, PartialEq, Eq, Structural)]
pub struct SpaceInvaders;

impl SpaceInvaders {
    /// Registers the three alien kinds and creates the craft and the aliens.
    /// The kinds `Transform` and `Spacecraft` must have been registered, as
    /// the set-up of the systems does.
    pub fn on_start(&mut self, world: &mut World)
        requires
            old(world).wf(),
            old(world)@.registered.has(ComponentKind::Spacecraft),
            old(world)@.registered.has(ComponentKind::Transform),
        ensures
            final(world).wf(),
            final(world)@ == old(world)@.started(),
            final(world)@.attached.len() == old(world)@.attached.len() + STARTING_ENTITIES,
            forall|kind: ComponentKind|
                final(world)@.registered.has(kind) <==> old(world)@.registered.has(kind) || kind
                    == ComponentKind::JellyFishAlien || kind == ComponentKind::MonsterAlien || kind
                    == ComponentKind::MushroomAlien,
    {
        world.register(ComponentKind::JellyFishAlien);
        world.register(ComponentKind::MonsterAlien);
        world.register(ComponentKind::MushroomAlien);
        initialise_spacecraft(world);
        initialise_aliens(world);
    }
}

} // verus!
