use space_invaders::components::{
    Component, JellyFishAlien, MonsterAlien, MushroomAlien, Spacecraft,
};
use space_invaders::entity::{ComponentKind, EntityId};
use space_invaders::input::InputSnapshot;
use space_invaders::store::Store;
use space_invaders::systems::aliens::AliensSystem;
use space_invaders::systems::formation::{detect_flip, drop_all, march, step_all, Marcher};
use space_invaders::systems::monster_alien::MonsterAlienSystem;
use space_invaders::systems::mushroom_alien::MushroomAlienSystem;
use space_invaders::systems::spacecraft::SpacecraftSystem;
use space_invaders::systems::{monster_alien, mushroom_alien};
use space_invaders::transform::Transform;
use space_invaders::world::World;

const UNIT: i64 = 10_000;

fn to_units(v: i64) -> f64 {
    v as f64 / UNIT as f64
}

fn full_world() -> World {
    let mut world = World::new();
    world.register(ComponentKind::Transform);
    world.register(ComponentKind::Spacecraft);
    world.register(ComponentKind::JellyFishAlien);
    world.register(ComponentKind::MonsterAlien);
    world.register(ComponentKind::MushroomAlien);
    world
}

fn add(world: &mut World, component: Component, x: i64, y: i64) -> EntityId {
    let id = world.create_entity();
    world.attach(id, component);
    world.attach(id, Component::Transform(Transform::at(x, y, 0)));
    id
}

fn monster(time_since_move: u64) -> Component {
    Component::MonsterAlien(MonsterAlien { time_since_move, ..MonsterAlien::new() })
}

fn mushroom(time_since_move: u64) -> Component {
    Component::MushroomAlien(MushroomAlien { time_since_move, ..MushroomAlien::new() })
}

fn place(world: &World, id: EntityId) -> (i64, i64) {
    match world.transform(id) {
        Some(t) => (t.x, t.y),
        None => panic!("no transform"),
    }
}

fn monster_timer(world: &World, id: EntityId) -> u64 {
    match world.get(id, ComponentKind::MonsterAlien) {
        Some(Component::MonsterAlien(a)) => a.time_since_move,
        _ => panic!("no monster"),
    }
}

fn mushroom_timer(world: &World, id: EntityId) -> u64 {
    match world.get(id, ComponentKind::MushroomAlien) {
        Some(Component::MushroomAlien(a)) => a.time_since_move,
        _ => panic!("no mushroom"),
    }
}

#[test]
fn spacecraft_moves_by_the_axis() {
    let mut world = full_world();
    let craft = add(&mut world, Component::Spacecraft(Spacecraft::new()), 100 * UNIT, 85_000);
    let input = InputSnapshot { delta: 16_000, axis: Some(500), fire: false };
    let shots = SpacecraftSystem.run(&mut world, &input);
    assert_eq!(shots, 0);
    assert_eq!(place(&world, craft), (1_006_000, 85_000));
    assert_eq!(to_units(place(&world, craft).0), 100.6);
}

#[test]
fn spacecraft_stays_without_deflection() {
    let mut world = full_world();
    let craft = add(&mut world, Component::Spacecraft(Spacecraft::new()), 100 * UNIT, 85_000);
    SpacecraftSystem.run(&mut world, &InputSnapshot { delta: 16_000, axis: Some(0), fire: false });
    assert_eq!(place(&world, craft), (100 * UNIT, 85_000));
    SpacecraftSystem.run(&mut world, &InputSnapshot { delta: 16_000, axis: None, fire: false });
    assert_eq!(place(&world, craft), (100 * UNIT, 85_000));
}

#[test]
fn spacecraft_moves_left_and_past_the_arena() {
    let mut world = full_world();
    let craft = add(&mut world, Component::Spacecraft(Spacecraft::new()), 5_000, 85_000);
    let input = InputSnapshot { delta: 0, axis: Some(-1000), fire: false };
    SpacecraftSystem.run(&mut world, &input);
    assert_eq!(place(&world, craft), (-7_000, 85_000));
    SpacecraftSystem.run(&mut world, &input);
    assert_eq!(place(&world, craft), (-19_000, 85_000));
}

#[test]
fn spacecraft_fires_once_for_each_craft() {
    let mut world = full_world();
    let a = add(&mut world, Component::Spacecraft(Spacecraft::new()), 0, 0);
    let alien = add(&mut world, Component::JellyFishAlien(JellyFishAlien::new()), 7, 7);
    let b = add(&mut world, Component::Spacecraft(Spacecraft::new()), 10, 0);
    let input = InputSnapshot { delta: 0, axis: Some(1000), fire: true };
    assert_eq!(SpacecraftSystem.run(&mut world, &input), 2);
    assert_eq!(place(&world, a), (12_000, 0));
    assert_eq!(place(&world, b), (12_010, 0));
    assert_eq!(place(&world, alien), (7, 7));
    let quiet = InputSnapshot { delta: 0, axis: Some(1000), fire: false };
    assert_eq!(SpacecraftSystem.run(&mut world, &quiet), 0);
}

#[test]
fn spacecraft_without_transform_is_left_out() {
    let mut world = full_world();
    let bare = world.create_entity();
    world.attach(bare, Component::Spacecraft(Spacecraft::new()));
    let input = InputSnapshot { delta: 0, axis: Some(1000), fire: true };
    assert_eq!(SpacecraftSystem.run(&mut world, &input), 0);
    assert_eq!(world.transform(bare), None);
}

#[test]
fn jelly_fish_sweep_for_eight_ticks() {
    let mut world = full_world();
    let mut ids = Vec::new();
    for i in 0..11 {
        let alien = Component::JellyFishAlien(JellyFishAlien::new());
        ids.push(add(&mut world, alien, 300_000 + 270_000 * i, 4_000_000));
    }
    let mut system = AliensSystem { x_moves: 0 };
    for tick in 1..=7 {
        system.run(&mut world);
        assert_eq!(system.x_moves, 11 * tick);
        for (i, id) in ids.iter().enumerate() {
            let x = 300_000 + 270_000 * i as i64 + UNIT * tick as i64;
            assert_eq!(place(&world, *id), (x, 4_000_000));
        }
    }
    system.run(&mut world);
    assert_eq!(system.x_moves, 7);
    for (i, id) in ids.iter().enumerate() {
        let start = 300_000 + 270_000 * i as i64;
        if i == 3 {
            assert_eq!(place(&world, *id), (start + 7 * UNIT - 80 * UNIT, 3_800_000));
        } else {
            assert_eq!(place(&world, *id), (start + 8 * UNIT, 4_000_000));
        }
    }
}

#[test]
fn jelly_fish_snap_back_uses_the_counter_it_meets() {
    let mut world = full_world();
    let a = add(&mut world, Component::JellyFishAlien(JellyFishAlien::new()), 5_000_000, 1_000_000);
    let b = add(&mut world, Component::JellyFishAlien(JellyFishAlien::new()), 5_000_000, 1_000_000);
    let mut system = AliensSystem { x_moves: 95 };
    system.run(&mut world);
    assert_eq!(place(&world, a), (5_000_000 - 95 * UNIT, 800_000));
    assert_eq!(place(&world, b), (5_010_000, 1_000_000));
    assert_eq!(system.x_moves, 1);
}

#[test]
fn jelly_fish_counter_rises_from_below_zero() {
    let mut world = full_world();
    let a = add(&mut world, Component::JellyFishAlien(JellyFishAlien::new()), 0, 0);
    let mut system = AliensSystem { x_moves: -3 };
    system.run(&mut world);
    assert_eq!(system.x_moves, -2);
    assert_eq!(place(&world, a), (UNIT, 0));
}

#[test]
fn jelly_fish_system_leaves_other_kinds_alone() {
    let mut world = full_world();
    let craft = add(&mut world, Component::Spacecraft(Spacecraft::new()), 1, 2);
    let beast = add(&mut world, monster(0), 3, 4);
    let jelly = add(&mut world, Component::JellyFishAlien(JellyFishAlien::new()), 5, 6);
    let mut system = AliensSystem { x_moves: 0 };
    system.run(&mut world);
    assert_eq!(place(&world, craft), (1, 2));
    assert_eq!(place(&world, beast), (3, 4));
    assert_eq!(place(&world, jelly), (5 + UNIT, 6));
    assert_eq!(system.x_moves, 1);
}

#[test]
fn monster_at_the_right_edge_turns_the_formation() {
    let mut world = full_world();
    let a = add(&mut world, monster(0), 1_000_000, 3_500_000);
    let b = add(&mut world, monster(900_000), 4_200_000, 3_500_000);
    let c = add(&mut world, monster(0), 2_000_000, 3_000_000);
    let mut system = MonsterAlienSystem::default();
    system.run(&mut world, 200_000);
    assert_eq!(system.direction, monster_alien::Direction::Left);
    assert_eq!(place(&world, a), (1_000_000, 3_200_000));
    assert_eq!(place(&world, b), (4_140_000, 3_200_000));
    assert_eq!(place(&world, c), (2_000_000, 2_700_000));
    assert_eq!(monster_timer(&world, a), 200_000);
    assert_eq!(monster_timer(&world, b), 0);
    assert_eq!(monster_timer(&world, c), 200_000);
}

#[test]
fn monster_formation_turns_once_with_two_at_the_edge() {
    let mut world = full_world();
    let a = add(&mut world, monster(0), 4_300_000, 3_500_000);
    let b = add(&mut world, monster(0), 4_200_000, 3_500_000);
    let mut system = MonsterAlienSystem::default();
    system.run(&mut world, 0);
    assert_eq!(system.direction, monster_alien::Direction::Left);
    assert_eq!(place(&world, a), (4_300_000, 3_200_000));
    assert_eq!(place(&world, b), (4_200_000, 3_200_000));
}

#[test]
fn monster_below_the_edge_keeps_the_course() {
    let mut world = full_world();
    let a = add(&mut world, monster(0), 4_199_999, 3_500_000);
    let mut system = MonsterAlienSystem::default();
    system.run(&mut world, 1_000_000);
    assert_eq!(system.direction, monster_alien::Direction::Right);
    assert_eq!(place(&world, a), (4_199_999, 3_500_000));
    assert_eq!(monster_timer(&world, a), 1_000_000);
    system.run(&mut world, 1);
    assert_eq!(place(&world, a), (4_259_999, 3_500_000));
    assert_eq!(monster_timer(&world, a), 0);
    assert_eq!(system.direction, monster_alien::Direction::Right);
    system.run(&mut world, 1);
    assert_eq!(system.direction, monster_alien::Direction::Left);
    assert_eq!(place(&world, a), (4_259_999, 3_200_000));
}

#[test]
fn monster_at_the_left_edge_turns_right() {
    let mut world = full_world();
    let a = add(&mut world, monster(2_000_000), 800_000, 1_000_000);
    let b = add(&mut world, monster(0), 900_000, 1_000_000);
    let mut system = MonsterAlienSystem {
        x_moves: 0,
        time_since_move: 0,
        direction: monster_alien::Direction::Left,
    };
    system.run(&mut world, 5);
    assert_eq!(system.direction, monster_alien::Direction::Right);
    assert_eq!(place(&world, a), (860_000, 700_000));
    assert_eq!(place(&world, b), (900_000, 700_000));
    assert_eq!(monster_timer(&world, a), 0);
    assert_eq!(monster_timer(&world, b), 5);
    assert_eq!((system.x_moves, system.time_since_move), (0, 0));
}

#[test]
fn monster_system_leaves_mushrooms_alone() {
    let mut world = full_world();
    let shroom = add(&mut world, mushroom(1_500_000), 4_500_000, 10);
    let beast = add(&mut world, monster(1_500_000), 1_000_000, 20);
    let mut system = MonsterAlienSystem::default();
    system.run(&mut world, 1);
    assert_eq!(system.direction, monster_alien::Direction::Right);
    assert_eq!(place(&world, shroom), (4_500_000, 10));
    assert_eq!(mushroom_timer(&world, shroom), 1_500_000);
    assert_eq!(place(&world, beast), (1_060_000, 20));
    assert_eq!(monster_timer(&world, beast), 0);
}

#[test]
fn monster_timer_stops_at_the_top() {
    let mut world = full_world();
    let a = add(&mut world, monster(u64::MAX), 1_000_000, 0);
    let mut system = MonsterAlienSystem::default();
    system.run(&mut world, u64::MAX);
    assert_eq!(place(&world, a), (1_060_000, 0));
    assert_eq!(monster_timer(&world, a), 0);
}

#[test]
fn mushroom_at_the_right_edge_turns_the_formation() {
    let mut world = full_world();
    let a = add(&mut world, mushroom(0), 4_200_000, 2_500_000);
    let b = add(&mut world, mushroom(999_999), 300_000, 2_000_000);
    let beast = add(&mut world, monster(0), 4_200_000, 3_000_000);
    let mut system = MushroomAlienSystem::default();
    system.run(&mut world, 2);
    assert_eq!(system.direction, mushroom_alien::Direction::Left);
    assert_eq!(place(&world, a), (4_200_000, 2_200_000));
    assert_eq!(place(&world, b), (240_000, 1_700_000));
    assert_eq!(mushroom_timer(&world, a), 2);
    assert_eq!(mushroom_timer(&world, b), 0);
    assert_eq!(place(&world, beast), (4_200_000, 3_000_000));
    assert_eq!(monster_timer(&world, beast), 0);
}

#[test]
fn mushroom_at_the_left_edge_turns_right() {
    let mut world = full_world();
    let a = add(&mut world, mushroom(0), 799_000, 0);
    let mut system = MushroomAlienSystem {
        x_moves: 3,
        time_since_move: 4,
        direction: mushroom_alien::Direction::Left,
    };
    system.run(&mut world, 1_000_001);
    assert_eq!(system.direction, mushroom_alien::Direction::Right);
    assert_eq!(place(&world, a), (859_000, -300_000));
    assert_eq!((system.x_moves, system.time_since_move), (3, 4));
}

#[test]
fn systems_start_out_to_the_right() {
    assert_eq!(monster_alien::Direction::default(), monster_alien::Direction::Right);
    assert_eq!(mushroom_alien::Direction::default(), mushroom_alien::Direction::Right);
    let m = MonsterAlienSystem::default();
    assert_eq!((m.x_moves, m.time_since_move), (0, 0));
    assert_eq!(m.direction, monster_alien::Direction::Right);
    let s = MushroomAlienSystem::default();
    assert_eq!((s.x_moves, s.time_since_move), (0, 0));
    assert_eq!(s.direction, mushroom_alien::Direction::Right);
}

#[test]
fn detect_flip_reports_the_first_alien_at_the_edge() {
    let mut store: Store<Transform> = Store::new();
    let ids: Vec<EntityId> = (0..4).map(|index| EntityId { index }).collect();
    store.insert(ids[0], Transform::at(1_000_000, 0, 0));
    store.insert(ids[1], Transform::at(4_200_000, 0, 0));
    store.insert(ids[2], Transform::at(800_000, 0, 0));
    store.insert(ids[3], Transform::at(4_900_000, 0, 0));
    assert_eq!(detect_flip(true, &ids, &store), Some(1));
    assert_eq!(detect_flip(false, &ids, &store), Some(2));
    let inner = vec![ids[0]];
    assert_eq!(detect_flip(true, &inner, &store), None);
    assert_eq!(detect_flip(false, &inner, &store), None);
    assert_eq!(detect_flip(true, &Vec::new(), &store), None);
}

#[test]
fn drop_all_lowers_the_listed_entities() {
    let mut store: Store<Transform> = Store::new();
    let a = EntityId { index: 0 };
    let b = EntityId { index: 1 };
    let c = EntityId { index: 2 };
    store.insert(a, Transform::at(1, 1_000_000, 5));
    store.insert(b, Transform::at(2, 2_000_000, 6));
    store.insert(c, Transform::at(3, 3_000_000, 7));
    drop_all(&vec![a, c], &mut store);
    assert_eq!(store.get(a), Some(&Transform::at(1, 700_000, 5)));
    assert_eq!(store.get(b), Some(&Transform::at(2, 2_000_000, 6)));
    assert_eq!(store.get(c), Some(&Transform::at(3, 2_700_000, 7)));
}

#[test]
fn step_all_moves_those_that_are_due() {
    let mut transforms: Store<Transform> = Store::new();
    let mut aliens: Store<MonsterAlien> = Store::new();
    let a = EntityId { index: 0 };
    let b = EntityId { index: 1 };
    transforms.insert(a, Transform::at(100, 0, 0));
    transforms.insert(b, Transform::at(200, 0, 0));
    aliens.insert(a, MonsterAlien { time_since_move: 600_000, ..MonsterAlien::new() });
    aliens.insert(b, MonsterAlien { time_since_move: 100_000, ..MonsterAlien::new() });
    step_all(false, &vec![a, b], &mut transforms, &mut aliens, 500_000);
    assert_eq!(transforms.get(a), Some(&Transform::at(100 - 60_000, 0, 0)));
    assert_eq!(transforms.get(b), Some(&Transform::at(200, 0, 0)));
    assert_eq!(aliens.get(a).map(|m| m.time_since_move), Some(0));
    assert_eq!(aliens.get(b).map(|m| m.time_since_move), Some(600_000));
    assert_eq!(aliens.get(a).map(|m| (m.width, m.height)), Some((170_000, 260_000)));
}

#[test]
fn march_returns_the_new_direction() {
    let mut transforms: Store<Transform> = Store::new();
    let mut aliens: Store<MushroomAlien> = Store::new();
    let a = EntityId { index: 3 };
    transforms.insert(a, Transform::at(4_200_000, 0, 0));
    aliens.insert(a, MushroomAlien::new());
    assert!(!march(true, &vec![a], &mut transforms, &mut aliens, 0));
    assert_eq!(transforms.get(a), Some(&Transform::at(4_200_000, -300_000, 0)));
    assert!(!march(false, &vec![a], &mut transforms, &mut aliens, 0));
    assert_eq!(transforms.get(a), Some(&Transform::at(4_200_000, -300_000, 0)));
    assert!(march(true, &Vec::new(), &mut transforms, &mut aliens, 0));
}

#[test]
fn marcher_timer_can_be_read_and_set() {
    let mut m = MonsterAlien::new();
    assert_eq!(m.time_since_move(), 0);
    m.set_time_since_move(42);
    assert_eq!(m.time_since_move(), 42);
    assert_eq!((m.width, m.height), (170_000, 260_000));
    let mut s = MushroomAlien::new();
    s.set_time_since_move(7);
    assert_eq!(s.time_since_move(), 7);
}
