//! The world: a registry of entities and one store for each component kind.

use vstd::prelude::*;
use crate::components::{Component, JellyFishAlien, MonsterAlien, MushroomAlien, Spacecraft};
use crate::entity::{holds_both, spec_join, rising, ComponentKind, EntityId, KindSet, Registry};
use crate::store::Store;
use crate::transform::Transform;

verus! {

/// What a world holds, as plain mathematics.
pub struct WorldView {
    /// The kinds that may be attached and joined.
    pub registered: KindSet,
    /// The kinds of each entity, by creation order.
    pub attached: Seq<KindSet>,
    pub transforms: Map<EntityId, Transform>,
    pub spacecrafts: Map<EntityId, Spacecraft>,
    pub jelly_fish: Map<EntityId, JellyFishAlien>,
    pub monsters: Map<EntityId, MonsterAlien>,
    pub mushrooms: Map<EntityId, MushroomAlien>,
}

impl WorldView {
    /// A world without entities and without registered kinds.
    pub open spec fn empty() -> WorldView {
        WorldView {
            registered: KindSet::spec_empty(),
            attached: Seq::empty(),
            transforms: Map::empty(),
            spacecrafts: Map::empty(),
            jelly_fish: Map::empty(),
            monsters: Map::empty(),
            mushrooms: Map::empty(),
        }
    }

    /// Whether `id` is alive and carries `kind`.
    pub open spec fn carries(self, id: EntityId, kind: ComponentKind) -> bool {
        id.index < self.attached.len() && self.attached[id.index as int].has(kind)
    }

    /// Whether `id` carries both `a` and `b`.
    pub open spec fn joins(self, id: EntityId, a: ComponentKind, b: ComponentKind) -> bool {
        holds_both(self.attached, id.index as int, a, b)
    }

    /// The entities that carry both `a` and `b`, in creation order.
    pub open spec fn join(self, a: ComponentKind, b: ComponentKind) -> Seq<EntityId> {
        spec_join(self.attached, a, b)
    }

    /// Whether the store of `kind` has a component for `id`.
    pub open spec fn stored(self, id: EntityId, kind: ComponentKind) -> bool {
        match kind {
            ComponentKind::Transform => self.transforms.contains_key(id),
            ComponentKind::Spacecraft => self.spacecrafts.contains_key(id),
            ComponentKind::JellyFishAlien => self.jelly_fish.contains_key(id),
            ComponentKind::MonsterAlien => self.monsters.contains_key(id),
            ComponentKind::MushroomAlien => self.mushrooms.contains_key(id),
        }
    }

    /// The component of `kind` that `id` carries, if any.
    pub open spec fn component(self, id: EntityId, kind: ComponentKind) -> Option<Component> {
        if !self.stored(id, kind) {
            None
        } else {
            Some(
                match kind {
                    ComponentKind::Transform => Component::Transform(self.transforms[id]),
                    ComponentKind::Spacecraft => Component::Spacecraft(self.spacecrafts[id]),
                    ComponentKind::JellyFishAlien => Component::JellyFishAlien(
                        self.jelly_fish[id],
                    ),
                    ComponentKind::MonsterAlien => Component::MonsterAlien(self.monsters[id]),
                    ComponentKind::MushroomAlien => Component::MushroomAlien(self.mushrooms[id]),
                },
            )
        }
    }

    /// The registry and the stores agree, and only registered kinds are
    /// attached.
    pub open spec fn wf(self) -> bool {
        &&& self.attached.len() <= usize::MAX
        &&& forall|id: EntityId, kind: ComponentKind|
            self.stored(id, kind) <==> self.carries(id, kind)
        &&& forall|id: EntityId, kind: ComponentKind|
            self.carries(id, kind) ==> self.registered.has(kind)
    }

    /// The world with `kind` registered.
    pub open spec fn with_kind(self, kind: ComponentKind) -> WorldView {
        WorldView { registered: self.registered.with(kind), ..self }
    }

    /// The world with one more entity, which carries nothing.
    pub open spec fn with_entity(self) -> WorldView {
        WorldView { attached: self.attached.push(KindSet::spec_empty()), ..self }
    }

    /// The world in which the transform of `id` is `t`.
    pub open spec fn with_transform(self, id: EntityId, t: Transform) -> WorldView {
        WorldView { transforms: self.transforms.insert(id, t), ..self }
    }

    /// The world in which `id` carries `component`, in place of any
    /// component of that kind it had.
    pub open spec fn with_component(self, id: EntityId, component: Component) -> WorldView {
        let attached = self.attached.update(
            id.index as int,
            self.attached[id.index as int].with(component.spec_kind()),
        );
        match component {
            Component::Transform(c) => WorldView {
                attached,
                transforms: self.transforms.insert(id, c),
                ..self
            },
            Component::Spacecraft(c) => WorldView {
                attached,
                spacecrafts: self.spacecrafts.insert(id, c),
                ..self
            },
            Component::JellyFishAlien(c) => WorldView {
                attached,
                jelly_fish: self.jelly_fish.insert(id, c),
                ..self
            },
            Component::MonsterAlien(c) => WorldView {
                attached,
                monsters: self.monsters.insert(id, c),
                ..self
            },
            Component::MushroomAlien(c) => WorldView {
                attached,
                mushrooms: self.mushrooms.insert(id, c),
                ..self
            },
        }
    }
}

/// The registry, the registered kinds and the five stores.
pub struct World {
    pub registered: KindSet,
    pub registry: Registry,
    pub transforms: Store<Transform>,
    pub spacecrafts: Store<Spacecraft>,
    pub jelly_fish: Store<JellyFishAlien>,
    pub monsters: Store<MonsterAlien>,
    pub mushrooms: Store<MushroomAlien>,
}

impl View for World {
    type V = WorldView;

    open spec fn view(&self) -> WorldView {
        WorldView {
            registered: self.registered,
            attached: self.registry@,
            transforms: self.transforms@,
            spacecrafts: self.spacecrafts@,
            jelly_fish: self.jelly_fish@,
            monsters: self.monsters@,
            mushrooms: self.mushrooms@,
        }
    }
}

impl World {
    /// The registry and the stores agree, and only registered kinds are
    /// attached.
    pub open spec fn wf(&self) -> bool {
        self@.wf()
    }

    /// A world without entities and without registered kinds.
    pub fn new() -> (w: World)
        ensures
            w.wf(),
            w@ == WorldView::empty(),
    {
        World {
            registered: KindSet::empty(),
            registry: Registry::new(),
            transforms: Store::new(),
            spacecrafts: Store::new(),
            jelly_fish: Store::new(),
            monsters: Store::new(),
            mushrooms: Store::new(),
        }
    }

    /// Allows components of `kind` to be attached and joined.
    pub fn register(&mut self, kind: ComponentKind)
        requires
            old(self).wf(),
        ensures
            final(self).wf(),
            final(self)@ == old(self)@.with_kind(kind),
    {
        self.registered.insert(kind);
        proof {
            let pre = old(self)@;
            let post = self@;
            assert forall|e: EntityId, k: ComponentKind|
                post.stored(e, k) <==> post.carries(e, k) by {
                assert(pre.stored(e, k) <==> pre.carries(e, k));
            }
            assert forall|e: EntityId, k: ComponentKind| post.carries(e, k) implies post
                .registered.has(k) by {
                assert(pre.carries(e, k));
            }
        }
    }

    /// Whether `kind` was registered.
    pub fn is_registered(&self, kind: ComponentKind) -> (r: bool)
        ensures
            r == self@.registered.has(kind),
    {
        self.registered.contains(kind)
    }

    /// How many entities were created.
    pub fn len(&self) -> (n: usize)
        ensures
            n == self@.attached.len(),
    {
        self.registry.len()
    }

    /// Creates an entity that carries nothing yet; it comes last in creation
    /// order.
    pub fn create_entity(&mut self) -> (id: EntityId)
        requires
            old(self).wf(),
        ensures
            final(self).wf(),
            id.index == old(self)@.attached.len(),
            final(self)@ == old(self)@.with_entity(),
    {
        let id = self.registry.create_entity();
        proof {
            let pre = old(self)@;
            let post = self@;
            assert forall|e: EntityId, kind: ComponentKind|
                post.stored(e, kind) <==> post.carries(e, kind) by {
                assert(post.stored(e, kind) == pre.stored(e, kind));
                assert(pre.stored(e, kind) <==> pre.carries(e, kind));
            }
            assert forall|e: EntityId, kind: ComponentKind| post.carries(e, kind) implies post
                .registered.has(kind) by {
                assert(pre.carries(e, kind));
            }
        }
        id
    }

    /// Attaches `component` to `id`, in place of any component of that kind
    /// that `id` carried.
    pub fn attach(&mut self, id: EntityId, component: Component)
        requires
            old(self).wf(),
            id.index < old(self)@.attached.len(),
            old(self)@.registered.has(component.spec_kind()),
        ensures
            final(self).wf(),
            final(self)@ == old(self)@.with_component(id, component),
    {
        self.registry.mark(id, component.kind());
        match component {
            Component::Transform(c) => {
                self.transforms.insert(id, c);
            },
            Component::Spacecraft(c) => {
                self.spacecrafts.insert(id, c);
            },
            Component::JellyFishAlien(c) => {
                self.jelly_fish.insert(id, c);
            },
            Component::MonsterAlien(c) => {
                self.monsters.insert(id, c);
            },
            Component::MushroomAlien(c) => {
                self.mushrooms.insert(id, c);
            },
        }
        proof {
            let pre = old(self)@;
            let post = self@;
            assert forall|e: EntityId, kind: ComponentKind|
                post.stored(e, kind) <==> post.carries(e, kind) by {
                assert(pre.stored(e, kind) <==> pre.carries(e, kind));
            }
            assert forall|e: EntityId, kind: ComponentKind| post.carries(e, kind) implies post
                .registered.has(kind) by {
                if !(e == id && kind == component.spec_kind()) {
                    assert(pre.carries(e, kind));
                }
            }
        }
    }

    /// Whether `id` carries a component of `kind`.
    pub fn has(&self, id: EntityId, kind: ComponentKind) -> (r: bool)
        ensures
            r == self@.carries(id, kind),
    {
        self.registry.has(id, kind)
    }

    /// The component of `kind` that `id` carries, if any.
    pub fn get(&self, id: EntityId, kind: ComponentKind) -> (r: Option<Component>)
        ensures
            r == self@.component(id, kind),
    {
        match kind {
            ComponentKind::Transform => match self.transforms.get(id) {
                Some(c) => Some(Component::Transform(*c)),
                None => None,
            },
            ComponentKind::Spacecraft => match self.spacecrafts.get(id) {
                Some(c) => Some(Component::Spacecraft(*c)),
                None => None,
            },
            ComponentKind::JellyFishAlien => match self.jelly_fish.get(id) {
                Some(c) => Some(Component::JellyFishAlien(*c)),
                None => None,
            },
            ComponentKind::MonsterAlien => match self.monsters.get(id) {
                Some(c) => Some(Component::MonsterAlien(*c)),
                None => None,
            },
            ComponentKind::MushroomAlien => match self.mushrooms.get(id) {
                Some(c) => Some(Component::MushroomAlien(*c)),
                None => None,
            },
        }
    }

    /// The transform of `id`, if it has one.
    pub fn transform(&self, id: EntityId) -> (r: Option<&Transform>)
        ensures
            r.is_some() == self@.transforms.contains_key(id),
            r.is_some() ==> *r.unwrap() == self@.transforms[id],
    {
        self.transforms.get(id)
    }

    /// The transform of `id`, if it has one, open to change. Only that
    /// transform can change through it, and the entity keeps it.
    pub fn transform_mut(&mut self, id: EntityId) -> (r: Option<&mut Transform>)
        ensures
            r.is_some() == old(self)@.transforms.contains_key(id),
            r.is_some() ==> *r.unwrap() == old(self)@.transforms[id],
            r.is_some() ==> final(self)@ == old(self)@.with_transform(id, *final(r.unwrap())),
            r.is_none() ==> final(self)@ == old(self)@,
            old(self).wf() ==> final(self).wf(),
    {
        let ghost pre = self@;
        proof {
            if pre.wf() && pre.transforms.contains_key(id) {
                assert forall|t: Transform| (#[trigger] pre.with_transform(id, t)).wf() by {
                    let post = pre.with_transform(id, t);
                    assert forall|e: EntityId, kind: ComponentKind|
                        post.stored(e, kind) <==> post.carries(e, kind) by {
                        assert(pre.stored(e, kind) <==> pre.carries(e, kind));
                    }
                    assert forall|e: EntityId, kind: ComponentKind|
                        post.carries(e, kind) implies post.registered.has(kind) by {
                        assert(pre.carries(e, kind));
                    }
                }
            }
        }
        let r = self.transforms.get_mut(id);
        proof {
            if pre.wf() && r.is_some() {
                assert(pre.with_transform(id, *final(r.unwrap())).wf());
            }
        }
        r
    }

    /// The entities that carry both `a` and `b`, in creation order. Both
    /// kinds must have been registered.
    pub fn join(&self, a: ComponentKind, b: ComponentKind) -> (ids: Vec<EntityId>)
        requires
            self.wf(),
            self@.registered.has(a),
            self@.registered.has(b),
        ensures
            ids@ == self@.join(a, b),
            forall|id: EntityId| ids@.contains(id) <==> self@.joins(id, a, b),
            forall|k: int| 0 <= k < ids@.len() ==> self@.stored(#[trigger] ids@[k], a),
            forall|k: int| 0 <= k < ids@.len() ==> self@.stored(#[trigger] ids@[k], b),
            rising(ids@),
            ids@.no_duplicates(),
    {
        let ids = self.registry.join(a, b);
        proof {
            assert forall|k: int| 0 <= k < ids@.len() implies self@.stored(
                #[trigger] ids@[k],
                a,
            ) && self@.stored(ids@[k], b) by {
                assert(ids@.contains(ids@[k]));
                assert(self@.carries(ids@[k], a));
                assert(self@.carries(ids@[k], b));
            }
        }
        ids
    }
}

} // verus!
