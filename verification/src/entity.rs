//! Entity identifiers, component kinds and the registry that hands out the
//! former and records the latter.

use vstd::prelude::*;

verus! {

/// Names one entity for as long as the world lives. `index` is the entity's
/// place in creation order; no two entities of one world share it.
#[derive(Clone, Copy, Debug, PartialEq, Eq, Structural)]
pub struct EntityId {
    pub index: usize,
}

/// The kinds of component that an entity can carry.
#[derive(Clone, Copy, Debug, PartialEq, Eq, Structural)]
pub enum ComponentKind {
    Transform,
    Spacecraft,
    JellyFishAlien,
    MonsterAlien,
    MushroomAlien,
}

/// A set of component kinds.
#[derive(Clone, Copy, Debug, PartialEq, Eq, Structural)]
pub struct KindSet {
    pub transform: bool,
    pub spacecraft: bool,
    pub jelly_fish: bool,
    pub monster: bool,
    pub mushroom: bool,
}

impl KindSet {
    /// Whether `kind` is in the set.
    pub open spec fn has(self, kind: ComponentKind) -> bool {
        match kind {
            ComponentKind::Transform => self.transform,
            ComponentKind::Spacecraft => self.spacecraft,
            ComponentKind::JellyFishAlien => self.jelly_fish,
            ComponentKind::MonsterAlien => self.monster,
            ComponentKind::MushroomAlien => self.mushroom,
        }
    }

    /// The set with no kind in it.
    pub open spec fn spec_empty() -> KindSet {
        KindSet {
            transform: false,
            spacecraft: false,
            jelly_fish: false,
            monster: false,
            mushroom: false,
        }
    }

    /// The set with `kind` added.
    pub open spec fn with(self, kind: ComponentKind) -> KindSet {
        match kind {
            ComponentKind::Transform => KindSet { transform: true, ..self },
            ComponentKind::Spacecraft => KindSet { spacecraft: true, ..self },
            ComponentKind::JellyFishAlien => KindSet { jelly_fish: true, ..self },
            ComponentKind::MonsterAlien => KindSet { monster: true, ..self },
            ComponentKind::MushroomAlien => KindSet { mushroom: true, ..self },
        }
    }

    /// The set with no kind in it.
    pub fn empty() -> (s: KindSet)
        ensures
            s == KindSet::spec_empty(),
            forall|k: ComponentKind| !s.has(k),
    {
        KindSet {
            transform: false,
            spacecraft: false,
            jelly_fish: false,
            monster: false,
            mushroom: false,
        }
    }

    /// Whether `kind` is in the set.
    pub fn contains(&self, kind: ComponentKind) -> (r: bool)
        ensures
            r == self.has(kind),
    {
        match kind {
            ComponentKind::Transform => self.transform,
            ComponentKind::Spacecraft => self.spacecraft,
            ComponentKind::JellyFishAlien => self.jelly_fish,
            ComponentKind::MonsterAlien => self.monster,
            ComponentKind::MushroomAlien => self.mushroom,
        }
    }

    /// Adds `kind`; every other kind stays as it was.
    pub fn insert(&mut self, kind: ComponentKind)
        ensures
            *final(self) == old(self).with(kind),
            forall|k: ComponentKind| final(self).has(k) == (k == kind || old(self).has(k)),
    {
        match kind {
            ComponentKind::Transform => {
                self.transform = true;
            },
            ComponentKind::Spacecraft => {
                self.spacecraft = true;
            },
            ComponentKind::JellyFishAlien => {
                self.jelly_fish = true;
            },
            ComponentKind::MonsterAlien => {
                self.monster = true;
            },
            ComponentKind::MushroomAlien => {
                self.mushroom = true;
            },
        }
    }
}

/// Whether position `i` of `attached` exists and carries both `a` and `b`.
pub open spec fn holds_both(attached: Seq<KindSet>, i: int, a: ComponentKind, b: ComponentKind)
    -> bool {
    0 <= i < attached.len() && attached[i].has(a) && attached[i].has(b)
}

/// The entities among the first `n` that carry both `a` and `b`, in creation
/// order.
pub open spec fn join_upto(attached: Seq<KindSet>, a: ComponentKind, b: ComponentKind, n: nat)
    -> Seq<EntityId>
    decreases n,
{
    if n == 0 {
        Seq::empty()
    } else {
        let before = join_upto(attached, a, b, (n - 1) as nat);
        if holds_both(attached, n - 1, a, b) {
            before.push(EntityId { index: (n - 1) as usize })
        } else {
            before
        }
    }
}

/// The entities that carry both `a` and `b`, in creation order.
pub open spec fn spec_join(attached: Seq<KindSet>, a: ComponentKind, b: ComponentKind) -> Seq<
    EntityId,
> {
    join_upto(attached, a, b, attached.len())
}

/// Whether `ids` names entities in strictly rising creation order.
pub open spec fn rising(ids: Seq<EntityId>) -> bool {
    forall|i: int, j: int| 0 <= i < j < ids.len() ==> ids[i].index < ids[j].index
}

/// What `join_upto` holds: each member lies below `n` and carries both
/// kinds, every such entity is a member, and the members rise.
pub proof fn lemma_join_upto(attached: Seq<KindSet>, a: ComponentKind, b: ComponentKind, n: nat)
    requires
        n <= attached.len(),
        attached.len() <= usize::MAX,
    ensures
        forall|k: int|
            0 <= k < join_upto(attached, a, b, n).len() ==> {
                &&& (#[trigger] join_upto(attached, a, b, n)[k]).index < n
                &&& holds_both(attached, join_upto(attached, a, b, n)[k].index as int, a, b)
            },
        forall|id: EntityId|
            id.index < n && holds_both(attached, id.index as int, a, b) ==> join_upto(
                attached,
                a,
                b,
                n,
            ).contains(id),
        rising(join_upto(attached, a, b, n)),
        join_upto(attached, a, b, n).len() <= n,
    decreases n,
{
    if n > 0 {
        let before = join_upto(attached, a, b, (n - 1) as nat);
        let now = join_upto(attached, a, b, n);
        lemma_join_upto(attached, a, b, (n - 1) as nat);
        let last = EntityId { index: (n - 1) as usize };
        assert forall|id: EntityId|
            id.index < n && holds_both(attached, id.index as int, a, b) implies now.contains(
            id,
        ) by {
            if id.index < n - 1 {
                assert(before.contains(id));
                let k = choose|k: int| 0 <= k < before.len() && before[k] == id;
                assert(now[k] == id);
            } else {
                assert(id == last);
                assert(now[now.len() - 1] == id);
            }
        }
    }
}

/// The join holds exactly the entities that carry both kinds, each once and
/// in creation order.
pub proof fn lemma_join(attached: Seq<KindSet>, a: ComponentKind, b: ComponentKind)
    requires
        attached.len() <= usize::MAX,
    ensures
        forall|id: EntityId|
            spec_join(attached, a, b).contains(id) <==> holds_both(
                attached,
                id.index as int,
                a,
                b,
            ),
        rising(spec_join(attached, a, b)),
        spec_join(attached, a, b).no_duplicates(),
        spec_join(attached, a, b).len() <= attached.len(),
{
    lemma_join_upto(attached, a, b, attached.len());
}

/// An entity that lacks one of the two kinds is in no join over them.
pub proof fn lemma_join_leaves_out(
    attached: Seq<KindSet>,
    a: ComponentKind,
    b: ComponentKind,
    id: EntityId,
)
    requires
        attached.len() <= usize::MAX,
        !(id.index < attached.len() && attached[id.index as int].has(a)) || !(id.index
            < attached.len() && attached[id.index as int].has(b)),
    ensures
        !spec_join(attached, a, b).contains(id),
{
    lemma_join(attached, a, b);
}

/// Hands out entity identifiers and records which kinds each entity carries.
pub struct Registry {
    attached: Vec<KindSet>,
}

impl View for Registry {
    type V = Seq<KindSet>;

    /// The kinds of each entity, by creation order.
    closed spec fn view(&self) -> Seq<KindSet> {
        self.attached@
    }
}

impl Registry {
    /// Whether `id` was handed out by this registry.
    pub open spec fn alive(&self, id: EntityId) -> bool {
        id.index < self@.len()
    }

    /// Whether `id` is alive and carries `kind`.
    pub open spec fn carries(&self, id: EntityId, kind: ComponentKind) -> bool {
        id.index < self@.len() && self@[id.index as int].has(kind)
    }

    /// A registry without entities.
    pub fn new() -> (r: Registry)
        ensures
            r@ == Seq::<KindSet>::empty(),
    {
        Registry { attached: Vec::new() }
    }

    /// How many entities were created.
    pub fn len(&self) -> (n: usize)
        ensures
            n == self@.len(),
    {
        self.attached.len()
    }

    /// Whether `id` was handed out by this registry.
    pub fn is_alive(&self, id: EntityId) -> (r: bool)
        ensures
            r == self.alive(id),
    {
        id.index < self.attached.len()
    }

    /// Creates an entity that carries nothing yet. Its index is the number of
    /// entities created before it, so no live identifier is handed out twice.
    pub fn create_entity(&mut self) -> (id: EntityId)
        ensures
            id.index == old(self)@.len(),
            final(self)@ == old(self)@.push(KindSet::spec_empty()),
            final(self)@.len() <= usize::MAX,
    {
        let id = EntityId { index: self.attached.len() };
        self.attached.push(KindSet::empty());
        assert(self.attached@.len() == self.attached.len());
        id
    }

    /// Records that `id` carries `kind`.
    pub fn mark(&mut self, id: EntityId, kind: ComponentKind)
        requires
            old(self).alive(id),
        ensures
            final(self)@ == old(self)@.update(
                id.index as int,
                old(self)@[id.index as int].with(kind),
            ),
    {
        let mut kinds = self.attached[id.index];
        kinds.insert(kind);
        self.attached[id.index] = kinds;
    }

    /// Whether `id` is alive and carries `kind`.
    pub fn has(&self, id: EntityId, kind: ComponentKind) -> (r: bool)
        ensures
            r == self.carries(id, kind),
    {
        id.index < self.attached.len() && self.attached[id.index].contains(kind)
    }

    /// The entities that carry both `a` and `b`, in creation order.
    pub fn join(&self, a: ComponentKind, b: ComponentKind) -> (ids: Vec<EntityId>)
        ensures
            ids@ == spec_join(self@, a, b),
            forall|id: EntityId| ids@.contains(id) <==> self.carries(id, a) && self.carries(id, b),
            rising(ids@),
            ids@.no_duplicates(),
    {
        let mut ids: Vec<EntityId> = Vec::new();
        let mut i: usize = 0;
        while i < self.attached.len()
            invariant
                i <= self.attached.len(),
                ids@ == join_upto(self@, a, b, i as nat),
            decreases self.attached.len() - i,
        {
            let kinds = self.attached[i];
            if kinds.contains(a) && kinds.contains(b) {
                ids.push(EntityId { index: i });
            }
            i += 1;
        }
        proof {
            lemma_join(self@, a, b);
        }
        ids
    }
}

} // verus!
