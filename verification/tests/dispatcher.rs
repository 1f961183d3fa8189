use space_invaders::components::{Component, MonsterAlien, Spacecraft};
use space_invaders::dispatcher::{Dispatcher, System, SystemName};
use space_invaders::entity::ComponentKind;
use space_invaders::input::InputSnapshot;
use space_invaders::systems::monster_alien::Direction;
use space_invaders::systems::{
    AliensSystem, MonsterAlienSystem, MushroomAlienSystem, SpacecraftSystem,
};
use space_invaders::transform::Transform;
use space_invaders::world::World;

#[test]
fn idle_input_presses_nothing() {
    assert_eq!(InputSnapshot::idle(16_000), InputSnapshot { delta: 16_000, axis: Some(0), fire: false });
}

#[test]
fn systems_have_names_and_kinds() {
    let all = [
        (System::Spacecraft(SpacecraftSystem), SystemName::Spacecraft, ComponentKind::Spacecraft),
        (System::Aliens(AliensSystem { x_moves: 0 }), SystemName::Aliens, ComponentKind::JellyFishAlien),
        (System::Monster(MonsterAlienSystem::default()), SystemName::Monster, ComponentKind::MonsterAlien),
        (System::Mushroom(MushroomAlienSystem::default()), SystemName::Mushroom, ComponentKind::MushroomAlien),
    ];
    for (system, name, kind) in all {
        assert_eq!(system.name(), name);
        assert_eq!(system.kind(), kind);
    }
}

#[test]
fn new_dispatcher_has_no_systems() {
    let dispatcher = Dispatcher::new();
    assert_eq!(dispatcher.len(), 0);
    assert_eq!(dispatcher.system(0), None);
    assert!(!dispatcher.has(SystemName::Spacecraft));
    assert!(!dispatcher.has(SystemName::Input));
}

#[test]
fn dispatcher_keeps_systems_in_the_order_added() {
    let mut dispatcher = Dispatcher::new();
    dispatcher.add(System::Spacecraft(SpacecraftSystem), vec![SystemName::Input]);
    dispatcher.add(System::Aliens(AliensSystem { x_moves: 0 }), vec![]);
    assert_eq!(dispatcher.len(), 2);
    assert_eq!(dispatcher.system(0), Some(System::Spacecraft(SpacecraftSystem)));
    assert_eq!(dispatcher.system(1), Some(System::Aliens(AliensSystem { x_moves: 0 })));
    assert_eq!(dispatcher.system(2), None);
    assert!(dispatcher.has(SystemName::Spacecraft));
    assert!(dispatcher.has(SystemName::Aliens));
    assert!(!dispatcher.has(SystemName::Monster));
}

#[test]
fn dispatcher_accepts_only_met_dependencies() {
    let mut dispatcher = Dispatcher::new();
    let monster = System::Monster(MonsterAlienSystem::default());
    let mushroom = System::Mushroom(MushroomAlienSystem::default());
    assert!(dispatcher.accepts(&monster, &vec![]));
    assert!(dispatcher.accepts(&monster, &vec![SystemName::Input, SystemName::Input]));
    assert!(!dispatcher.accepts(&monster, &vec![SystemName::Mushroom]));
    assert!(!dispatcher.accepts(&monster, &vec![SystemName::Monster]));
    assert!(!dispatcher.accepts(&monster, &vec![SystemName::Input, SystemName::Aliens]));
    dispatcher.add(mushroom, vec![]);
    assert!(dispatcher.accepts(&monster, &vec![SystemName::Mushroom]));
    assert!(dispatcher.accepts(&monster, &vec![SystemName::Mushroom, SystemName::Input]));
    assert!(!dispatcher.accepts(&monster, &vec![SystemName::Mushroom, SystemName::Spacecraft]));
}

#[test]
fn dispatcher_accepts_no_name_twice() {
    let mut dispatcher = Dispatcher::new();
    dispatcher.add(System::Aliens(AliensSystem { x_moves: 0 }), vec![]);
    assert!(!dispatcher.accepts(&System::Aliens(AliensSystem { x_moves: 5 }), &vec![]));
    assert!(dispatcher.accepts(&System::Spacecraft(SpacecraftSystem), &vec![SystemName::Aliens]));
}

#[test]
fn setup_registers_what_the_systems_join() {
    let mut dispatcher = Dispatcher::new();
    dispatcher.add(System::Spacecraft(SpacecraftSystem), vec![SystemName::Input]);
    dispatcher.add(System::Aliens(AliensSystem { x_moves: 0 }), vec![]);
    let mut world = World::new();
    dispatcher.setup(&mut world);
    assert!(world.is_registered(ComponentKind::Transform));
    assert!(world.is_registered(ComponentKind::Spacecraft));
    assert!(world.is_registered(ComponentKind::JellyFishAlien));
    assert!(!world.is_registered(ComponentKind::MonsterAlien));
    assert!(!world.is_registered(ComponentKind::MushroomAlien));
    assert_eq!(world.len(), 0);
    let empty = Dispatcher::new();
    let mut other = World::new();
    empty.setup(&mut other);
    assert!(other.is_registered(ComponentKind::Transform));
    assert!(!other.is_registered(ComponentKind::Spacecraft));
}

#[test]
fn dispatch_without_systems_changes_nothing() {
    let mut dispatcher = Dispatcher::new();
    let mut world = World::new();
    world.register(ComponentKind::Transform);
    world.register(ComponentKind::Spacecraft);
    let craft = world.create_entity();
    world.attach(craft, Component::Spacecraft(Spacecraft::new()));
    world.attach(craft, Component::Transform(Transform::at(5, 5, 5)));
    let input = InputSnapshot { delta: 9, axis: Some(1000), fire: true };
    assert_eq!(dispatcher.dispatch(&mut world, &input), 0);
    assert_eq!(world.transform(craft), Some(&Transform::at(5, 5, 5)));
}

#[test]
fn dispatch_keeps_the_state_of_each_system() {
    let mut dispatcher = Dispatcher::new();
    dispatcher.add(System::Monster(MonsterAlienSystem::default()), vec![]);
    dispatcher.add(System::Spacecraft(SpacecraftSystem), vec![SystemName::Monster]);
    let mut world = World::new();
    dispatcher.setup(&mut world);
    let beast = world.create_entity();
    world.attach(beast, Component::MonsterAlien(MonsterAlien::new()));
    world.attach(beast, Component::Transform(Transform::at(4_200_000, 1_000_000, 0)));
    let craft = world.create_entity();
    world.attach(craft, Component::Spacecraft(Spacecraft::new()));
    world.attach(craft, Component::Transform(Transform::at(0, 0, 0)));
    let input = InputSnapshot { delta: 600_000, axis: Some(-250), fire: true };
    let shots = dispatcher.run_frames(&mut world, &vec![input, input]);
    assert_eq!(shots, vec![1, 1]);
    let left = MonsterAlienSystem { x_moves: 0, time_since_move: 0, direction: Direction::Left };
    assert_eq!(dispatcher.system(0), Some(System::Monster(left)));
    assert_eq!(world.transform(beast), Some(&Transform::at(4_140_000, 700_000, 0)));
    assert_eq!(world.transform(craft), Some(&Transform::at(-6_000, 0, 0)));
}

#[test]
fn system_run_goes_to_the_right_system() {
    let mut world = World::new();
    world.register(ComponentKind::Transform);
    world.register(ComponentKind::Spacecraft);
    world.register(ComponentKind::MonsterAlien);
    let craft = world.create_entity();
    world.attach(craft, Component::Spacecraft(Spacecraft::new()));
    world.attach(craft, Component::Transform(Transform::at(0, 0, 0)));
    let beast = world.create_entity();
    world.attach(beast, Component::MonsterAlien(MonsterAlien::new()));
    world.attach(beast, Component::Transform(Transform::at(100, 0, 0)));
    let input = InputSnapshot { delta: 2_000_000, axis: Some(100), fire: true };
    let mut monster = System::Monster(MonsterAlienSystem::default());
    assert_eq!(monster.run(&mut world, &input), 0);
    assert_eq!(world.transform(craft), Some(&Transform::at(0, 0, 0)));
    assert_eq!(world.transform(beast), Some(&Transform::at(60_100, 0, 0)));
    let mut spacecraft = System::Spacecraft(SpacecraftSystem);
    assert_eq!(spacecraft.run(&mut world, &input), 1);
    assert_eq!(world.transform(craft), Some(&Transform::at(1_200, 0, 0)));
    assert_eq!(world.transform(beast), Some(&Transform::at(60_100, 0, 0)));
}
