use ecs_registry::column::Components;
use ecs_registry::entity::Entity;
use ecs_registry::world::World;

#[derive(Clone, Copy, Debug, PartialEq, Eq)]
enum Comp {
    Health(i32),
    Speed(i32),
}

const HEALTH: u64 = 1;
const SPEED: u64 = 2;

#[test]
fn test_world() {
    let mut world: World<Comp> = World::new();
    let entity_1 = world.new_entity();
    world.add_component_to_entity(entity_1, HEALTH, Comp::Health(10));

    let entity_2 = world.new_entity();
    world.add_component_to_entity(entity_2, HEALTH, Comp::Health(20));
    world.add_component_to_entity(entity_2, SPEED, Comp::Speed(100));

    assert_eq!(world.num_columns(), 2);

    let health_comp_1 = world.get_component(entity_1, HEALTH).unwrap();
    assert_eq!(health_comp_1.value(), Some(Comp::Health(10)));
    assert!(world.release_component(HEALTH, health_comp_1));

    let health_comp_2 = world.get_component(entity_2, HEALTH).unwrap();
    assert_eq!(health_comp_2.value(), Some(Comp::Health(20)));
    assert!(world.release_component(HEALTH, health_comp_2));

    let mut speed_comp_2 = world.get_component_mut(entity_2, SPEED).unwrap();
    let speed = speed_comp_2.value();
    assert_eq!(speed, Some(Comp::Speed(100)));
    speed_comp_2.set_value(Some(Comp::Speed(1000)));
    assert!(world.release_component_mut(SPEED, speed_comp_2));
}

#[test]
fn test_downcast() {
    // a payload stored behind the uniform, key-routed interface comes back
    // as the concrete value that went in
    let mut world: World<i32> = World::new();
    let e = world.new_entity();
    world.add_component_to_entity(e, 5, 10);
    let accessor = world.get_component(e, 5).unwrap();
    assert_eq!(accessor.value(), Some(10));
    assert!(world.release_component(5, accessor));
}

#[test]
fn new_world_is_empty() {
    let world: World<Comp> = World::new();
    assert_eq!(world.entity_count(), 0);
    assert_eq!(world.num_columns(), 0);
    assert_eq!(world.column_len(HEALTH), None);
}

#[test]
fn column_lengths_track_entity_count() {
    // every registered column stays exactly as long as the slot table after
    // each entity creation, whichever entities carry the component
    let mut world: World<Comp> = World::new();
    let e1 = world.new_entity();
    world.add_component_to_entity(e1, HEALTH, Comp::Health(1));
    assert_eq!(world.column_len(HEALTH), Some(1));

    let _e2 = world.new_entity();
    assert_eq!(world.entity_count(), 2);
    assert_eq!(world.column_len(HEALTH), Some(2));

    world.add_component_to_entity(e1, SPEED, Comp::Speed(4));
    assert_eq!(world.column_len(SPEED), Some(2));

    let _e3 = world.new_entity();
    assert_eq!(world.entity_count(), 3);
    assert_eq!(world.column_len(HEALTH), Some(3));
    assert_eq!(world.column_len(SPEED), Some(3));
}

#[test]
fn attach_then_get_round_trip() {
    let mut world: World<Comp> = World::new();
    let e = world.new_entity();
    world.add_component_to_entity(e, HEALTH, Comp::Health(42));
    let accessor = world.get_component(e, HEALTH).unwrap();
    assert_eq!(accessor.value(), Some(Comp::Health(42)));
    assert!(world.release_component(HEALTH, accessor));

    // overwriting is a round trip too
    world.add_component_to_entity(e, HEALTH, Comp::Health(43));
    let accessor = world.get_component(e, HEALTH).unwrap();
    assert_eq!(accessor.value(), Some(Comp::Health(43)));
    assert!(world.release_component(HEALTH, accessor));
}

#[test]
fn attach_is_invisible_under_other_key() {
    let mut world: World<Comp> = World::new();
    let e = world.new_entity();
    world.add_component_to_entity(e, HEALTH, Comp::Health(9));

    // no column under the other key at all
    assert!(world.get_component(e, SPEED).is_none());

    // once the other column exists, the slot there is still empty
    let other = world.new_entity();
    world.add_component_to_entity(other, SPEED, Comp::Speed(3));
    let accessor = world.get_component(e, SPEED).unwrap();
    assert_eq!(accessor.value(), None);
    assert!(world.release_component(SPEED, accessor));
}

#[test]
fn stale_handle_rejected_after_reuse() {
    let mut world: World<Comp> = World::new();
    let e_old = world.new_entity();
    world.add_component_to_entity(e_old, HEALTH, Comp::Health(3));
    assert!(world.destroy_entity(e_old));

    // the slot is reused under a bumped generation, not newly allocated
    let e_new = world.new_entity();
    assert_eq!(world.entity_count(), 1);
    assert_eq!(e_new.id, e_old.id);
    assert_eq!(e_new.gen, e_old.gen + 1);

    world.add_component_to_entity(e_new, HEALTH, Comp::Health(7));
    assert!(world.get_component(e_old, HEALTH).is_none());
    assert!(world.get_component_mut(e_old, HEALTH).is_none());
    let accessor = world.get_component(e_new, HEALTH).unwrap();
    assert_eq!(accessor.value(), Some(Comp::Health(7)));
    assert!(world.release_component(HEALTH, accessor));
}

#[test]
fn destroy_clears_every_column_slot() {
    let mut world: World<Comp> = World::new();
    let e = world.new_entity();
    world.add_component_to_entity(e, HEALTH, Comp::Health(5));
    world.add_component_to_entity(e, SPEED, Comp::Speed(6));
    assert!(world.destroy_entity(e));

    let e2 = world.new_entity();
    let accessor = world.get_component(e2, HEALTH).unwrap();
    assert_eq!(accessor.value(), None);
    assert!(world.release_component(HEALTH, accessor));
    let accessor = world.get_component(e2, SPEED).unwrap();
    assert_eq!(accessor.value(), None);
    assert!(world.release_component(SPEED, accessor));
}

#[test]
fn destroy_stale_handle_is_rejected() {
    let mut world: World<Comp> = World::new();
    let e = world.new_entity();
    assert!(world.destroy_entity(e));
    // the handle no longer validates: a second destroy changes nothing
    assert!(!world.destroy_entity(e));
    assert_eq!(world.entity_count(), 1);
}

#[test]
fn exclusive_accessor_excludes_others() {
    let mut world: World<Comp> = World::new();
    let e = world.new_entity();
    world.add_component_to_entity(e, HEALTH, Comp::Health(8));

    let held = world.get_component_mut(e, HEALTH).unwrap();
    // while the exclusive accessor is outstanding, every further accessor
    // on that column is refused
    assert!(world.get_component_mut(e, HEALTH).is_none());
    assert!(world.get_component(e, HEALTH).is_none());
    assert!(world.release_component_mut(HEALTH, held));

    // released: accessors are issued again
    let accessor = world.get_component(e, HEALTH).unwrap();
    assert_eq!(accessor.value(), Some(Comp::Health(8)));
    assert!(world.release_component(HEALTH, accessor));
}

#[test]
fn shared_accessors_block_exclusive() {
    let mut world: World<Comp> = World::new();
    let e = world.new_entity();
    world.add_component_to_entity(e, HEALTH, Comp::Health(2));

    let first = world.get_component(e, HEALTH).unwrap();
    // many shared accessors may be outstanding at once
    let second = world.get_component(e, HEALTH).unwrap();
    assert_eq!(second.value(), Some(Comp::Health(2)));
    // but the exclusive one is refused while any of them is alive
    assert!(world.get_component_mut(e, HEALTH).is_none());
    assert!(world.release_component(HEALTH, first));
    assert!(world.get_component_mut(e, HEALTH).is_none());
    assert!(world.release_component(HEALTH, second));
    let held = world.get_component_mut(e, HEALTH).unwrap();
    assert!(world.release_component_mut(HEALTH, held));
}

#[test]
fn misused_releases_are_refused() {
    let mut world: World<Comp> = World::new();
    let e = world.new_entity();
    world.add_component_to_entity(e, HEALTH, Comp::Health(1));

    world.add_component_to_entity(e, SPEED, Comp::Speed(2));

    // releasing a shared accessor under the wrong key is refused, and the
    // read stays outstanding under its own key
    let accessor = world.get_component(e, HEALTH).unwrap();
    assert!(!world.release_component(SPEED, accessor));
    assert!(world.get_component_mut(e, HEALTH).is_none());

    // releasing an exclusive accessor under a key whose column has none
    // outstanding is refused, and the exclusion stays in force
    let held = world.get_component_mut(e, SPEED).unwrap();
    assert!(!world.release_component_mut(HEALTH, held));
    assert!(world.get_component(e, SPEED).is_none());
}

#[test]
fn unknown_handles_and_keys_give_none() {
    let mut world: World<Comp> = World::new();
    let e = world.new_entity();
    world.add_component_to_entity(e, HEALTH, Comp::Health(4));

    // a handle whose slot was never allocated
    let forged = Entity { id: 99, gen: 0 };
    assert!(world.get_component(forged, HEALTH).is_none());
    assert!(world.get_component_mut(forged, HEALTH).is_none());
    // a handle with the right slot but the wrong generation
    let wrong_gen = Entity { id: e.id, gen: e.gen + 1 };
    assert!(world.get_component(wrong_gen, HEALTH).is_none());
    // a key that was never attached
    assert!(world.get_component(e, SPEED).is_none());
}

#[test]
fn column_accessors_directly() {
    let mut col: Components<i32> = Components::new(3);
    assert_eq!(col.len(), 3);
    col.set(1, 11);
    let accessor = col.get(1).unwrap();
    assert_eq!(accessor.value(), Some(11));
    // a shared accessor is outstanding: the exclusive one is refused
    assert!(col.get_mut(1).is_none());
    assert!(col.end_read());
    let mut held = col.get_mut(0).unwrap();
    assert_eq!(held.value(), None);
    held.set_value(Some(7));
    assert!(col.end_write(held));
    let accessor = col.get(0).unwrap();
    assert_eq!(accessor.value(), Some(7));
    assert!(col.end_read());
    // no accessor outstanding any more: a further release is a misuse
    assert!(!col.end_read());
    col.push_none();
    assert_eq!(col.len(), 4);
}

#[test]
fn scenario_two_entities_two_columns() {
    let mut world: World<Comp> = World::new();
    let e1 = world.new_entity();
    world.add_component_to_entity(e1, HEALTH, Comp::Health(10));
    let e2 = world.new_entity();
    world.add_component_to_entity(e2, HEALTH, Comp::Health(20));
    world.add_component_to_entity(e2, SPEED, Comp::Speed(100));

    assert_eq!(world.num_columns(), 2);

    let accessor = world.get_component(e1, HEALTH).unwrap();
    assert_eq!(accessor.value(), Some(Comp::Health(10)));
    assert!(world.release_component(HEALTH, accessor));

    let accessor = world.get_component(e2, HEALTH).unwrap();
    assert_eq!(accessor.value(), Some(Comp::Health(20)));
    assert!(world.release_component(HEALTH, accessor));

    let mut held = world.get_component_mut(e2, SPEED).unwrap();
    held.set_value(Some(Comp::Speed(1000)));
    assert!(world.release_component_mut(SPEED, held));
    let accessor = world.get_component(e2, SPEED).unwrap();
    assert_eq!(accessor.value(), Some(Comp::Speed(1000)));
    assert!(world.release_component(SPEED, accessor));

    let accessor = world.get_component(e1, SPEED).unwrap();
    assert_eq!(accessor.value(), None);
    assert!(world.release_component(SPEED, accessor));
}
