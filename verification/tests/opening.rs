use space_invaders::components::{
    Component, JellyFishAlien, MonsterAlien, MushroomAlien, Spacecraft, ARENA_HEIGHT, ARENA_WIDTH,
};
use space_invaders::dispatcher::{Dispatcher, System, SystemName};
use space_invaders::entity::{ComponentKind, EntityId};
use space_invaders::input::InputSnapshot;
use space_invaders::space_invaders::{
    initialise_aliens, initialise_spacecraft, place_row, spawn, SpaceInvaders,
};
use space_invaders::systems::{
    AliensSystem, MonsterAlienSystem, MushroomAlienSystem, SpacecraftSystem,
};
use space_invaders::transform::Transform;
use space_invaders::world::World;

fn opened() -> (Dispatcher, World) {
    let mut dispatcher = Dispatcher::new();
    dispatcher.add(System::Spacecraft(SpacecraftSystem), vec![SystemName::Input]);
    dispatcher.add(System::Aliens(AliensSystem { x_moves: 0 }), vec![]);
    dispatcher.add(System::Monster(MonsterAlienSystem::default()), vec![]);
    dispatcher.add(System::Mushroom(MushroomAlienSystem::default()), vec![]);
    let mut world = World::new();
    dispatcher.setup(&mut world);
    SpaceInvaders.on_start(&mut world);
    (dispatcher, world)
}

fn ids(from: usize, to: usize) -> Vec<EntityId> {
    (from..to).map(|index| EntityId { index }).collect()
}

#[test]
fn arena_and_sprites_have_their_sizes() {
    assert_eq!(ARENA_WIDTH, 4_800_000);
    assert_eq!(ARENA_HEIGHT, 6_400_000);
    assert_eq!(Spacecraft::new(), Spacecraft { width: 260_000, height: 170_000 });
    assert_eq!(
        JellyFishAlien::new(),
        JellyFishAlien { width: 170_000, height: 260_000, time_since_move: 0 }
    );
    assert_eq!(
        MonsterAlien::new(),
        MonsterAlien { width: 170_000, height: 260_000, time_since_move: 0 }
    );
    assert_eq!(
        MushroomAlien::new(),
        MushroomAlien { width: 170_000, height: 260_000, time_since_move: 0 }
    );
}

#[test]
fn opening_places_the_craft_and_five_rows() {
    let (_, world) = opened();
    assert_eq!(world.len(), 56);
    let craft = EntityId { index: 0 };
    assert_eq!(world.transform(craft), Some(&Transform::at(2_400_000, 85_000, 0)));
    assert_eq!(world.get(craft, ComponentKind::Spacecraft), Some(Component::Spacecraft(Spacecraft::new())));
    let rows: [(usize, i64); 5] =
        [(1, 4_000_000), (12, 3_500_000), (23, 3_000_000), (34, 2_500_000), (45, 2_000_000)];
    for (first, y) in rows {
        for i in 0..11 {
            let id = EntityId { index: first + i };
            let x = 300_000 + 270_000 * i as i64;
            assert_eq!(world.transform(id), Some(&Transform::at(x, y, 0)));
        }
    }
    assert_eq!(world.transform(EntityId { index: 11 }), Some(&Transform::at(3_000_000, 4_000_000, 0)));
    assert_eq!(world.transform(EntityId { index: 56 }), None);
}

#[test]
fn opening_gives_each_row_its_kind() {
    let (_, world) = opened();
    assert_eq!(world.join(ComponentKind::Spacecraft, ComponentKind::Transform), ids(0, 1));
    assert_eq!(world.join(ComponentKind::JellyFishAlien, ComponentKind::Transform), ids(1, 12));
    assert_eq!(world.join(ComponentKind::MonsterAlien, ComponentKind::Transform), ids(12, 34));
    assert_eq!(world.join(ComponentKind::MushroomAlien, ComponentKind::Transform), ids(34, 56));
    assert_eq!(world.join(ComponentKind::Transform, ComponentKind::Transform), ids(0, 56));
    assert_eq!(
        world.get(EntityId { index: 5 }, ComponentKind::JellyFishAlien),
        Some(Component::JellyFishAlien(JellyFishAlien::new()))
    );
    assert_eq!(
        world.get(EntityId { index: 30 }, ComponentKind::MonsterAlien),
        Some(Component::MonsterAlien(MonsterAlien::new()))
    );
    assert_eq!(
        world.get(EntityId { index: 55 }, ComponentKind::MushroomAlien),
        Some(Component::MushroomAlien(MushroomAlien::new()))
    );
    assert_eq!(world.get(EntityId { index: 55 }, ComponentKind::MonsterAlien), None);
}

#[test]
fn opening_registers_the_alien_kinds() {
    let mut world = World::new();
    world.register(ComponentKind::Transform);
    world.register(ComponentKind::Spacecraft);
    assert!(!world.is_registered(ComponentKind::JellyFishAlien));
    SpaceInvaders.on_start(&mut world);
    assert!(world.is_registered(ComponentKind::JellyFishAlien));
    assert!(world.is_registered(ComponentKind::MonsterAlien));
    assert!(world.is_registered(ComponentKind::MushroomAlien));
    assert_eq!(world.len(), 56);
}

#[test]
fn no_frames_leave_the_opening_as_it_is() {
    let (mut dispatcher, mut world) = opened();
    let shots = dispatcher.run_frames(&mut world, &Vec::new());
    assert_eq!(shots, Vec::<usize>::new());
    assert_eq!(world.transform(EntityId { index: 0 }), Some(&Transform::at(2_400_000, 85_000, 0)));
    for i in 0..11 {
        let x = 300_000 + 270_000 * i as i64;
        assert_eq!(world.transform(EntityId { index: 1 + i }), Some(&Transform::at(x, 4_000_000, 0)));
        assert_eq!(world.transform(EntityId { index: 45 + i }), Some(&Transform::at(x, 2_000_000, 0)));
    }
    assert_eq!(dispatcher.system(1), Some(System::Aliens(AliensSystem { x_moves: 0 })));
    assert_eq!(dispatcher.system(2), Some(System::Monster(MonsterAlienSystem::default())));
}

#[test]
fn spawn_creates_the_next_entity() {
    let mut world = World::new();
    world.register(ComponentKind::Transform);
    world.register(ComponentKind::MonsterAlien);
    let a = spawn(&mut world, Component::MonsterAlien(MonsterAlien::new()), Transform::at(1, 2, 3));
    let b = spawn(&mut world, Component::MonsterAlien(MonsterAlien::new()), Transform::at(4, 5, 6));
    assert_eq!((a.index, b.index), (0, 1));
    assert_eq!(world.transform(a), Some(&Transform::at(1, 2, 3)));
    assert_eq!(world.transform(b), Some(&Transform::at(4, 5, 6)));
    assert!(world.has(b, ComponentKind::MonsterAlien));
}

#[test]
fn place_row_steps_along_x() {
    let mut world = World::new();
    world.register(ComponentKind::Transform);
    world.register(ComponentKind::MushroomAlien);
    let first = world.create_entity();
    place_row(&mut world, Component::MushroomAlien(MushroomAlien::new()), -5);
    assert_eq!(world.len(), 12);
    assert_eq!(world.transform(first), None);
    assert_eq!(world.transform(EntityId { index: 1 }), Some(&Transform::at(300_000, -5, 0)));
    assert_eq!(world.transform(EntityId { index: 2 }), Some(&Transform::at(570_000, -5, 0)));
    assert_eq!(world.transform(EntityId { index: 11 }), Some(&Transform::at(3_000_000, -5, 0)));
    assert_eq!(world.join(ComponentKind::MushroomAlien, ComponentKind::Transform), ids(1, 12));
}

#[test]
fn initialise_spacecraft_and_aliens_on_their_own() {
    let mut world = World::new();
    world.register(ComponentKind::Transform);
    world.register(ComponentKind::Spacecraft);
    world.register(ComponentKind::JellyFishAlien);
    world.register(ComponentKind::MonsterAlien);
    world.register(ComponentKind::MushroomAlien);
    initialise_aliens(&mut world);
    initialise_spacecraft(&mut world);
    assert_eq!(world.len(), 56);
    assert_eq!(world.join(ComponentKind::Spacecraft, ComponentKind::Transform), ids(55, 56));
    assert_eq!(world.join(ComponentKind::JellyFishAlien, ComponentKind::Transform), ids(0, 11));
    assert_eq!(world.transform(EntityId { index: 55 }), Some(&Transform::at(2_400_000, 85_000, 0)));
    assert_eq!(world.transform(EntityId { index: 54 }), Some(&Transform::at(3_000_000, 2_000_000, 0)));
}

#[test]
fn a_frame_moves_every_kind_by_its_own_rule() {
    let (mut dispatcher, mut world) = opened();
    let input = InputSnapshot { delta: 1_000_001, axis: Some(500), fire: true };
    let shots = dispatcher.dispatch(&mut world, &input);
    assert_eq!(shots, 1);
    assert_eq!(world.transform(EntityId { index: 0 }), Some(&Transform::at(2_406_000, 85_000, 0)));
    for i in 0..11 {
        let x = 300_000 + 270_000 * i as i64;
        assert_eq!(world.transform(EntityId { index: 1 + i }), Some(&Transform::at(x + 10_000, 4_000_000, 0)));
        assert_eq!(world.transform(EntityId { index: 12 + i }), Some(&Transform::at(x + 60_000, 3_500_000, 0)));
        assert_eq!(world.transform(EntityId { index: 23 + i }), Some(&Transform::at(x + 60_000, 3_000_000, 0)));
        assert_eq!(world.transform(EntityId { index: 34 + i }), Some(&Transform::at(x + 60_000, 2_500_000, 0)));
        assert_eq!(world.transform(EntityId { index: 45 + i }), Some(&Transform::at(x + 60_000, 2_000_000, 0)));
    }
    assert_eq!(dispatcher.system(1), Some(System::Aliens(AliensSystem { x_moves: 11 })));
}

#[test]
fn eight_frames_send_one_jelly_fish_back() {
    let (mut dispatcher, mut world) = opened();
    let inputs = vec![InputSnapshot::idle(0); 8];
    let shots = dispatcher.run_frames(&mut world, &inputs);
    assert_eq!(shots, vec![0; 8]);
    for i in 0..11 {
        let x = 300_000 + 270_000 * i as i64;
        let expected = if i == 3 {
            Transform::at(x + 70_000 - 800_000, 3_800_000, 0)
        } else {
            Transform::at(x + 80_000, 4_000_000, 0)
        };
        assert_eq!(world.transform(EntityId { index: 1 + i }), Some(&expected));
    }
    assert_eq!(dispatcher.system(1), Some(System::Aliens(AliensSystem { x_moves: 7 })));
    assert_eq!(world.transform(EntityId { index: 0 }), Some(&Transform::at(2_400_000, 85_000, 0)));
    assert_eq!(world.transform(EntityId { index: 12 }), Some(&Transform::at(300_000, 3_500_000, 0)));
}
