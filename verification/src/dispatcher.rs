//! The frame loop: the systems in the order in which they were added, run one
//! after another once per tick.

use vstd::prelude::*;
use crate::entity::{lemma_join, ComponentKind, EntityId};
use crate::input::InputSnapshot;
use crate::systems::aliens::AliensSystem;
use crate::systems::monster_alien::MonsterAlienSystem;
use crate::systems::mushroom_alien::MushroomAlienSystem;
use crate::systems::spacecraft::SpacecraftSystem;
use crate::world::{World, WorldView};

verus! {

/// The names by which systems are known to each other. `Input` stands for
/// the capture of the controls, which happens before every tick and outside
/// the dispatcher; it can be named as a dependency but never added.
#[derive(Clone, Copy, Debug, PartialEq, Eq, Structural)]
pub enum SystemName {
    Input,
    Spacecraft,
    Aliens,
    Monster,
    Mushroom,
}

/// One of the four movement systems, with its state.
#[derive(Clone, Copy, Debug, PartialEq, Eq, Structural)]
pub enum System {
    Spacecraft(SpacecraftSystem),
    Aliens(AliensSystem),
    Monster(MonsterAlienSystem),
    Mushroom(MushroomAlienSystem),
}

impl System {
    /// The name of this system.
    pub open spec fn spec_name(self) -> SystemName {
        match self {
            System::Spacecraft(_) => SystemName::Spacecraft,
            System::Aliens(_) => SystemName::Aliens,
            System::Monster(_) => SystemName::Monster,
            System::Mushroom(_) => SystemName::Mushroom,
        }
    }

    /// The kind that this system joins with `Transform`.
    pub open spec fn spec_kind(self) -> ComponentKind {
        match self {
            System::Spacecraft(_) => ComponentKind::Spacecraft,
            System::Aliens(_) => ComponentKind::JellyFishAlien,
            System::Monster(_) => ComponentKind::MonsterAlien,
            System::Mushroom(_) => ComponentKind::MushroomAlien,
        }
    }

    /// The world after this system ran on `w`.
    pub open spec fn step(self, w: WorldView, input: InputSnapshot) -> WorldView {
        match self {
            System::Spacecraft(_) => SpacecraftSystem::step(w, input),
            System::Aliens(s) => s.step(w),
            System::Monster(s) => s.step(w, input.delta),
            System::Mushroom(s) => s.step(w, input.delta),
        }
    }

    /// This system after it ran on `w`.
    pub open spec fn next(self, w: WorldView) -> System {
        match self {
            System::Spacecraft(s) => System::Spacecraft(s),
            System::Aliens(s) => System::Aliens(s.next(w)),
            System::Monster(s) => System::Monster(s.next(w)),
            System::Mushroom(s) => System::Mushroom(s.next(w)),
        }
    }

    /// How often weapons are fired when this system runs on `w`.
    pub open spec fn shots(self, w: WorldView, input: InputSnapshot) -> nat {
        match self {
            System::Spacecraft(_) => SpacecraftSystem::shots(w, input),
            _ => 0,
        }
    }

    /// The name of this system.
    pub fn name(&self) -> (n: SystemName)
        ensures
            n == self.spec_name(),
    {
        match self {
            System::Spacecraft(_) => SystemName::Spacecraft,
            System::Aliens(_) => SystemName::Aliens,
            System::Monster(_) => SystemName::Monster,
            System::Mushroom(_) => SystemName::Mushroom,
        }
    }

    /// The kind that this system joins with `Transform`.
    pub fn kind(&self) -> (k: ComponentKind)
        ensures
            k == self.spec_kind(),
    {
        match self {
            System::Spacecraft(_) => ComponentKind::Spacecraft,
            System::Aliens(_) => ComponentKind::JellyFishAlien,
            System::Monster(_) => ComponentKind::MonsterAlien,
            System::Mushroom(_) => ComponentKind::MushroomAlien,
        }
    }

    /// Runs this system once. Returns how often weapons were fired.
    pub fn run(&mut self, world: &mut World, input: &InputSnapshot) -> (shots: usize)
        requires
            old(world).wf(),
            old(world)@.registered.has(old(self).spec_kind()),
            old(world)@.registered.has(ComponentKind::Transform),
        ensures
            final(world).wf(),
            final(world)@ == old(self).step(old(world)@, *input),
            *final(self) == old(self).next(old(world)@),
            shots == old(self).shots(old(world)@, *input),
    {
        match self {
            System::Spacecraft(s) => s.run(world, input),
            System::Aliens(s) => {
                s.run(world);
                0
            },
            System::Monster(s) => {
                s.run(world, input.delta);
                0
            },
            System::Mushroom(s) => {
                s.run(world, input.delta);
                0
            },
        }
    }
}

/// What a dispatcher holds, as plain mathematics: the systems in the order
/// in which they run, and for each the names it was declared to run after.
pub struct DispatcherView {
    pub systems: Seq<System>,
    pub dependencies: Seq<Seq<SystemName>>,
}

impl DispatcherView {
    /// Whether a system of this name was added.
    pub open spec fn has(self, name: SystemName) -> bool {
        exists|i: int| 0 <= i < self.systems.len() && (#[trigger] self.systems[i]).spec_name() == name
    }

    /// Whether `dep` has run by the time the system at place `n` runs: it is
    /// the capture of the controls, or one of the systems before that place.
    pub open spec fn met(self, dep: SystemName, n: int) -> bool {
        dep == SystemName::Input || exists|j: int|
            0 <= j < n && j < self.systems.len() && (#[trigger] self.systems[j]).spec_name() == dep
    }

    /// Whether `system` may be added with these dependencies: no system of
    /// its name was added, and every dependency has been.
    pub open spec fn accepts(self, system: System, deps: Seq<SystemName>) -> bool {
        &&& !self.has(system.spec_name())
        &&& forall|k: int| 0 <= k < deps.len() ==> self.met(#[trigger] deps[k], self.systems.len() as int)
    }

    /// Each system has its list of dependencies, no name occurs twice, and
    /// every system comes after all it depends on.
    pub open spec fn wf(self) -> bool {
        &&& self.systems.len() == self.dependencies.len()
        &&& forall|i: int, j: int|
            0 <= i < j < self.systems.len() ==> (#[trigger] self.systems[i]).spec_name() != (
            #[trigger] self.systems[j]).spec_name()
        &&& forall|i: int, k: int|
            0 <= i < self.dependencies.len() && 0 <= k < self.dependencies[i].len() ==> self.met(
                #[trigger] self.dependencies[i][k],
                i,
            )
    }

    /// The dispatcher with `system` added last.
    pub open spec fn with(self, system: System, deps: Seq<SystemName>) -> DispatcherView {
        DispatcherView {
            systems: self.systems.push(system),
            dependencies: self.dependencies.push(deps),
        }
    }

    /// Whether `w` has registered every kind that the systems join.
    pub open spec fn ready(self, w: WorldView) -> bool {
        &&& w.registered.has(ComponentKind::Transform)
        &&& forall|i: int|
            0 <= i < self.systems.len() ==> w.registered.has((#[trigger] self.systems[i]).spec_kind())
    }

    /// The world after the first `n` systems ran, in order, in one tick.
    pub open spec fn world_after(self, w: WorldView, input: InputSnapshot, n: nat) -> WorldView
        decreases n,
    {
        if n == 0 {
            w
        } else {
            self.systems[n - 1].step(self.world_after(w, input, (n - 1) as nat), input)
        }
    }

    /// The system at place `i` after it ran in a tick that began on `w`.
    pub open spec fn system_after(self, w: WorldView, input: InputSnapshot, i: int) -> System {
        self.systems[i].next(self.world_after(w, input, i as nat))
    }

    /// How often weapons are fired by the first `n` systems in one tick.
    pub open spec fn shots_upto(self, w: WorldView, input: InputSnapshot, n: nat) -> nat
        decreases n,
    {
        if n == 0 {
            0
        } else {
            self.shots_upto(w, input, (n - 1) as nat) + self.systems[n - 1].shots(
                self.world_after(w, input, (n - 1) as nat),
                input,
            )
        }
    }

    /// The world after one tick.
    pub open spec fn tick(self, w: WorldView, input: InputSnapshot) -> WorldView {
        self.world_after(w, input, self.systems.len())
    }

    /// The dispatcher after one tick that began on `w`.
    pub open spec fn ticked(self, w: WorldView, input: InputSnapshot) -> DispatcherView {
        DispatcherView {
            systems: Seq::new(self.systems.len(), |i: int| self.system_after(w, input, i)),
            dependencies: self.dependencies,
        }
    }

    /// How often weapons are fired in one tick.
    pub open spec fn shots(self, w: WorldView, input: InputSnapshot) -> nat {
        self.shots_upto(w, input, self.systems.len())
    }
}

/// The dispatcher and the world after the first `n` of `inputs` were each
/// given one tick.
pub open spec fn frames(d: DispatcherView, w: WorldView, inputs: Seq<InputSnapshot>, n: nat) -> (
    DispatcherView,
    WorldView,
)
    decreases n,
{
    if n == 0 {
        (d, w)
    } else {
        let before = frames(d, w, inputs, (n - 1) as nat);
        (before.0.ticked(before.1, inputs[n - 1]), before.0.tick(before.1, inputs[n - 1]))
    }
}

/// Runs the systems it was given, in the order in which they were added.
pub struct Dispatcher {
    systems: Vec<System>,
    dependencies: Vec<Vec<SystemName>>,
}

impl View for Dispatcher {
    type V = DispatcherView;

    closed spec fn view(&self) -> DispatcherView {
        DispatcherView {
            systems: self.systems@,
            dependencies: Seq::new(
                self.dependencies@.len(),
                |i: int| self.dependencies@[i]@,
            ),
        }
    }
}

impl Dispatcher {
    /// Each system has its list of dependencies, no name occurs twice, and
    /// every system comes after all it depends on.
    pub open spec fn wf(&self) -> bool {
        self@.wf()
    }

    /// A dispatcher without systems.
    pub fn new() -> (d: Dispatcher)
        ensures
            d.wf(),
            d@.systems == Seq::<System>::empty(),
            d@.dependencies == Seq::<Seq<SystemName>>::empty(),
    {
        let d = Dispatcher { systems: Vec::new(), dependencies: Vec::new() };
        assert(d@.dependencies =~= Seq::<Seq<SystemName>>::empty());
        d
    }

    /// How many systems were added.
    pub fn len(&self) -> (n: usize)
        ensures
            n == self@.systems.len(),
    {
        self.systems.len()
    }

    /// The system at place `i`, with its present state.
    pub fn system(&self, i: usize) -> (s: Option<System>)
        ensures
            s == (if i < self@.systems.len() {
                Some(self@.systems[i as int])
            } else {
                None
            }),
    {
        if i < self.systems.len() {
            Some(self.systems[i])
        } else {
            None
        }
    }

    /// Whether a system of this name was added.
    pub fn has(&self, name: SystemName) -> (r: bool)
        ensures
            r == self@.has(name),
    {
        let mut i: usize = 0;
        while i < self.systems.len()
            invariant
                i <= self.systems@.len(),
                forall|j: int| 0 <= j < i ==> (#[trigger] self.systems@[j]).spec_name() != name,
            decreases self.systems@.len() - i,
        {
            if self.systems[i].name() == name {
                return true;
            }
            i += 1;
        }
        false
    }

    /// Whether `system` may be added with these dependencies.
    pub fn accepts(&self, system: &System, deps: &Vec<SystemName>) -> (r: bool)
        ensures
            r == self@.accepts(*system, deps@),
    {
        if self.has(system.name()) {
            return false;
        }
        let mut k: usize = 0;
        while k < deps.len()
            invariant
                k <= deps@.len(),
                forall|j: int|
                    0 <= j < k ==> self@.met(#[trigger] deps@[j], self@.systems.len() as int),
            decreases deps@.len() - k,
        {
            let dep = deps[k];
            if dep != SystemName::Input && !self.has(dep) {
                assert(!self@.met(deps@[k as int], self@.systems.len() as int));
                return false;
            }
            k += 1;
        }
        true
    }

    /// Adds `system`, to run after all systems added before it. Every name
    /// in `deps` must be `Input` or the name of a system added before, and
    /// no system of the same name may have been added.
    pub fn add(&mut self, system: System, deps: Vec<SystemName>)
        requires
            old(self).wf(),
            old(self)@.accepts(system, deps@),
        ensures
            final(self).wf(),
            final(self)@ == old(self)@.with(system, deps@),
    {
        let ghost deps_view = deps@;
        self.systems.push(system);
        self.dependencies.push(deps);
        proof {
            let pre = old(self)@;
            let post = self@;
            assert(post.dependencies =~= pre.dependencies.push(deps_view));
            assert forall|i: int, j: int| 0 <= i < j < post.systems.len() implies (
            #[trigger] post.systems[i]).spec_name() != (#[trigger] post.systems[j]).spec_name() by {
                if j == pre.systems.len() {
                    assert(pre.systems[i].spec_name() != system.spec_name());
                }
            }
            assert forall|i: int, k: int|
                0 <= i < post.dependencies.len() && 0 <= k < post.dependencies[i].len() implies post.met(
                #[trigger] post.dependencies[i][k],
                i,
            ) by {
                let dep = post.dependencies[i][k];
                if i < pre.dependencies.len() {
                    assert(pre.met(pre.dependencies[i][k], i));
                    if dep != SystemName::Input {
                        let j = choose|j: int|
                            0 <= j < i && j < pre.systems.len() && (
                            #[trigger] pre.systems[j]).spec_name() == dep;
                        assert(post.systems[j].spec_name() == dep);
                    }
                } else {
                    assert(pre.met(deps_view[k], pre.systems.len() as int));
                    if dep != SystemName::Input {
                        let j = choose|j: int|
                            0 <= j < pre.systems.len() && (
                            #[trigger] pre.systems[j]).spec_name() == dep;
                        assert(post.systems[j].spec_name() == dep);
                    }
                }
            }
        }
    }

    /// Registers `Transform` and the kind of every system in `world`.
    pub fn setup(&self, world: &mut World)
        requires
            old(world).wf(),
        ensures
            final(world).wf(),
            self@.ready(final(world)@),
            final(world)@ == (WorldView { registered: final(world)@.registered, ..old(world)@ }),
            forall|kind: ComponentKind|
                final(world)@.registered.has(kind) <==> old(world)@.registered.has(kind) || kind
                    == ComponentKind::Transform || exists|i: int|
                    0 <= i < self@.systems.len() && (#[trigger] self@.systems[i]).spec_kind() == kind,
    {
        world.register(ComponentKind::Transform);
        let mut i: usize = 0;
        while i < self.systems.len()
            invariant
                i <= self.systems@.len(),
                world.wf(),
                world@ == (WorldView { registered: world@.registered, ..old(world)@ }),
                forall|kind: ComponentKind|
                    world@.registered.has(kind) <==> old(world)@.registered.has(kind) || kind
                        == ComponentKind::Transform || exists|j: int|
                        0 <= j < i && (#[trigger] self.systems@[j]).spec_kind() == kind,
            decreases self.systems@.len() - i,
        {
            let ghost before = world@.registered;
            world.register(self.systems[i].kind());
            proof {
                let added = self.systems@[i as int].spec_kind();
                assert forall|kind: ComponentKind|
                    world@.registered.has(kind) <==> old(world)@.registered.has(kind) || kind
                        == ComponentKind::Transform || exists|j: int|
                        0 <= j < i + 1 && (#[trigger] self.systems@[j]).spec_kind() == kind by {
                    assert(world@.registered.has(kind) == (before.has(kind) || kind == added));
                    if kind == added {
                        assert(self.systems@[i as int].spec_kind() == kind);
                    }
                }
            }
            i += 1;
        }
    }

    /// One tick: every system runs once on the world as the one before it
    /// left it, in the order in which the systems were added. Returns how
    /// often weapons were fired.
    pub fn dispatch(&mut self, world: &mut World, input: &InputSnapshot) -> (shots: usize)
        requires
            old(self).wf(),
            old(world).wf(),
            old(self)@.ready(old(world)@),
        ensures
            final(self).wf(),
            final(world).wf(),
            final(self)@.ready(final(world)@),
            final(world)@ == old(self)@.tick(old(world)@, *input),
            final(self)@ == old(self)@.ticked(old(world)@, *input),
            shots == old(self)@.shots(old(world)@, *input),
            final(world)@.attached == old(world)@.attached,
            final(world)@.registered == old(world)@.registered,
    {
        let ghost dv = self@;
        let ghost w0 = world@;
        let n = self.systems.len();
        let mut shots: usize = 0;
        let mut i: usize = 0;
        while i < n
            invariant
                i <= n,
                n == dv.systems.len(),
                dv.wf(),
                dv.ready(w0),
                self.systems@.len() == n,
                self.dependencies == old(self).dependencies,
                world.wf(),
                world@ == dv.world_after(w0, *input, i as nat),
                world@.registered == w0.registered,
                forall|j: int| 0 <= j < i ==> self.systems@[j] == dv.system_after(w0, *input, j),
                forall|j: int| i <= j < n ==> self.systems@[j] == dv.systems[j],
                shots == dv.shots_upto(w0, *input, i as nat),
                (forall|j: int|
                    0 <= j < i ==> (#[trigger] dv.systems[j]).spec_name() != SystemName::Spacecraft)
                    ==> shots == 0,
            decreases n - i,
        {
            let mut system = self.systems[i];
            assert(w0.registered.has(dv.systems[i as int].spec_kind()));
            let fired = system.run(world, input);
            proof {
                if fired != 0 {
                    assert(dv.systems[i as int].spec_name() == SystemName::Spacecraft);
                    assert forall|j: int| 0 <= j < i implies (#[trigger] dv.systems[j]).spec_name()
                        != SystemName::Spacecraft by {
                        assert(dv.systems[j].spec_name() != dv.systems[i as int].spec_name());
                    }
                } else {
                    if forall|j: int|
                        0 <= j < i + 1 ==> (#[trigger] dv.systems[j]).spec_name()
                            != SystemName::Spacecraft {
                        assert forall|j: int| 0 <= j < i implies (
                        #[trigger] dv.systems[j]).spec_name() != SystemName::Spacecraft by {}
                    }
                }
            }
            shots = shots + fired;
            self.systems[i] = system;
            i += 1;
        }
        proof {
            lemma_tick_keeps_joins(dv, w0, *input, n as nat);
            let post = self@;
            let want = dv.ticked(w0, *input);
            assert(post.systems =~= want.systems);
            assert(post.dependencies =~= want.dependencies);
            assert forall|j: int| 0 <= j < n implies (#[trigger] post.systems[j]).spec_name()
                == dv.systems[j].spec_name() && post.systems[j].spec_kind()
                == dv.systems[j].spec_kind() by {
                assert(post.systems[j] == dv.system_after(w0, *input, j));
            }
            assert forall|a: int, k: int|
                0 <= a < post.dependencies.len() && 0 <= k < post.dependencies[a].len() implies post.met(
                #[trigger] post.dependencies[a][k],
                a,
            ) by {
                let dep = post.dependencies[a][k];
                assert(dv.met(dv.dependencies[a][k], a));
                if dep != SystemName::Input {
                    let j = choose|j: int|
                        0 <= j < a && j < dv.systems.len() && (#[trigger] dv.systems[j]).spec_name()
                            == dep;
                    assert(post.systems[j].spec_name() == dep);
                }
            }
        }
        shots
    }

    /// One tick for each of `inputs`, in order. Returns how often weapons
    /// were fired in each tick.
    pub fn run_frames(&mut self, world: &mut World, inputs: &Vec<InputSnapshot>) -> (shots: Vec<
        usize,
    >)
        requires
            old(self).wf(),
            old(world).wf(),
            old(self)@.ready(old(world)@),
        ensures
            final(self).wf(),
            final(world).wf(),
            final(self)@.ready(final(world)@),
            final(world)@ == frames(old(self)@, old(world)@, inputs@, inputs@.len()).1,
            final(self)@ == frames(old(self)@, old(world)@, inputs@, inputs@.len()).0,
            final(world)@.attached == old(world)@.attached,
            final(world)@.registered == old(world)@.registered,
            shots@.len() == inputs@.len(),
            forall|t: int|
                0 <= t < inputs@.len() ==> shots@[t] == frames(
                    old(self)@,
                    old(world)@,
                    inputs@,
                    t as nat,
                ).0.shots(frames(old(self)@, old(world)@, inputs@, t as nat).1, inputs@[t]),
    {
        let ghost d0 = self@;
        let ghost w0 = world@;
        let mut shots: Vec<usize> = Vec::new();
        let mut t: usize = 0;
        while t < inputs.len()
            invariant
                t <= inputs@.len(),
                self.wf(),
                world.wf(),
                self@.ready(world@),
                world@ == frames(d0, w0, inputs@, t as nat).1,
                self@ == frames(d0, w0, inputs@, t as nat).0,
                world@.attached == w0.attached,
                world@.registered == w0.registered,
                shots@.len() == t,
                forall|u: int|
                    0 <= u < t ==> shots@[u] == frames(d0, w0, inputs@, u as nat).0.shots(
                        frames(d0, w0, inputs@, u as nat).1,
                        inputs@[u],
                    ),
            decreases inputs@.len() - t,
        {
            let fired = self.dispatch(world, &inputs[t]);
            shots.push(fired);
            t += 1;
        }
        shots
    }
}

/// A system changes no entity that lacks its kind or a transform, and it
/// neither creates entities nor attaches or registers anything.
pub proof fn lemma_system_spares_others(
    system: System,
    w: WorldView,
    input: InputSnapshot,
    id: EntityId,
)
    requires
        w.wf(),
        !w.joins(id, system.spec_kind(), ComponentKind::Transform),
    ensures
        system.step(w, input).attached == w.attached,
        system.step(w, input).registered == w.registered,
        forall|kind: ComponentKind|
            system.step(w, input).component(id, kind) == w.component(id, kind),
{
    lemma_join(w.attached, system.spec_kind(), ComponentKind::Transform);
    let after = system.step(w, input);
    assert forall|kind: ComponentKind| after.component(id, kind) == w.component(id, kind) by {}
}

/// A system keeps the world well formed: every entity keeps exactly the
/// components it carried.
pub proof fn lemma_system_keeps_wf(system: System, w: WorldView, input: InputSnapshot)
    requires
        w.wf(),
    ensures
        system.step(w, input).wf(),
        system.step(w, input).attached == w.attached,
        system.step(w, input).registered == w.registered,
        system.next(w).spec_name() == system.spec_name(),
        system.next(w).spec_kind() == system.spec_kind(),
{
    let after = system.step(w, input);
    assert forall|e: EntityId, kind: ComponentKind|
        after.stored(e, kind) <==> after.carries(e, kind) by {
        assert(w.stored(e, kind) <==> w.carries(e, kind));
    }
    assert forall|e: EntityId, kind: ComponentKind| after.carries(e, kind) implies after
        .registered.has(kind) by {
        assert(w.carries(e, kind));
    }
}

/// Whatever runs and however often, no tick creates an entity or attaches
/// anything: the joins of a world are the same after every frame.
pub proof fn lemma_frames_keep_joins(
    d: DispatcherView,
    w: WorldView,
    inputs: Seq<InputSnapshot>,
    n: nat,
)
    requires
        w.wf(),
        n <= inputs.len(),
    ensures
        frames(d, w, inputs, n).1.wf(),
        frames(d, w, inputs, n).1.attached == w.attached,
        frames(d, w, inputs, n).1.registered == w.registered,
        frames(d, w, inputs, n).0.systems.len() == d.systems.len(),
        forall|a: ComponentKind, b: ComponentKind|
            frames(d, w, inputs, n).1.join(a, b) == w.join(a, b),
    decreases n,
{
    if n > 0 {
        let before = frames(d, w, inputs, (n - 1) as nat);
        lemma_frames_keep_joins(d, w, inputs, (n - 1) as nat);
        lemma_tick_keeps_joins(before.0, before.1, inputs[n - 1], before.0.systems.len());
    }
}

/// The same for the systems of one tick.
pub proof fn lemma_tick_keeps_joins(d: DispatcherView, w: WorldView, input: InputSnapshot, n: nat)
    requires
        w.wf(),
        n <= d.systems.len(),
    ensures
        d.world_after(w, input, n).wf(),
        d.world_after(w, input, n).attached == w.attached,
        d.world_after(w, input, n).registered == w.registered,
    decreases n,
{
    if n > 0 {
        lemma_tick_keeps_joins(d, w, input, (n - 1) as nat);
        lemma_system_keeps_wf(d.systems[n - 1], d.world_after(w, input, (n - 1) as nat), input);
    }
}

/// An entity without a transform is in no join with `Transform`, before or
/// after any number of frames, and no frame changes any of its components.
pub proof fn lemma_without_transform(
    d: DispatcherView,
    w: WorldView,
    inputs: Seq<InputSnapshot>,
    n: nat,
    id: EntityId,
    kind: ComponentKind,
)
    requires
        w.wf(),
        n <= inputs.len(),
        !w.carries(id, ComponentKind::Transform),
    ensures
        !frames(d, w, inputs, n).1.join(kind, ComponentKind::Transform).contains(id),
        !frames(d, w, inputs, n).1.join(ComponentKind::Transform, kind).contains(id),
        forall|k: ComponentKind| frames(d, w, inputs, n).1.component(id, k) == w.component(id, k),
    decreases n,
{
    lemma_frames_keep_joins(d, w, inputs, n);
    lemma_join(w.attached, kind, ComponentKind::Transform);
    lemma_join(w.attached, ComponentKind::Transform, kind);
    if n > 0 {
        let before = frames(d, w, inputs, (n - 1) as nat);
        lemma_without_transform(d, w, inputs, (n - 1) as nat, id, kind);
        lemma_frames_keep_joins(d, w, inputs, (n - 1) as nat);
        lemma_tick_spares(before.0, before.1, inputs[n - 1], before.0.systems.len(), id);
    }
}

/// The systems of one tick change no component of an entity without a
/// transform.
pub proof fn lemma_tick_spares(
    d: DispatcherView,
    w: WorldView,
    input: InputSnapshot,
    n: nat,
    id: EntityId,
)
    requires
        w.wf(),
        n <= d.systems.len(),
        !w.carries(id, ComponentKind::Transform),
    ensures
        forall|k: ComponentKind| d.world_after(w, input, n).component(id, k) == w.component(id, k),
    decreases n,
{
    if n > 0 {
        let before = d.world_after(w, input, (n - 1) as nat);
        lemma_tick_spares(d, w, input, (n - 1) as nat, id);
        lemma_tick_keeps_joins(d, w, input, (n - 1) as nat);
        lemma_system_spares_others(d.systems[n - 1], before, input, id);
    }
}

/// Without a frame nothing moves: the world and the systems are as they
/// were.
pub proof fn lemma_no_frames(d: DispatcherView, w: WorldView, inputs: Seq<InputSnapshot>)
    ensures
        frames(d, w, inputs, 0) == (d, w),
{
}

} // verus!
