use recs::error::RecsError;
use recs::scene::Scene;

#[test]
fn assign_then_get_returns_value() {
    let mut scene = Scene::new();
    let e = scene.create_entity();
    scene.assign(e, 42).unwrap();
    assert_eq!(*scene.get::<i32>(e).unwrap().unwrap(), 42);
}

#[test]
fn assign_several_component_types() {
    let mut scene = Scene::new();
    let e = scene.create_entity();
    scene.assign(e, 7i32).unwrap();
    scene.assign(e, String::from("x")).unwrap();
    scene.assign(e, true).unwrap();
    assert_eq!(*scene.get::<i32>(e).unwrap().unwrap(), 7);
    assert_eq!(scene.get::<String>(e).unwrap().unwrap(), "x");
    assert_eq!(*scene.get::<bool>(e).unwrap().unwrap(), true);
}

#[test]
fn get_of_unassigned_type_is_ok_none() {
    let mut scene = Scene::new();
    let e = scene.create_entity();
    assert!(scene.get::<i32>(e).unwrap().is_none());
    scene.assign(e, 1u8).unwrap();
    assert!(scene.get::<i32>(e).unwrap().is_none());
}

#[test]
fn destroyed_handle_fails_every_operation() {
    let mut scene = Scene::new();
    let e = scene.create_entity();
    scene.assign(e, 42).unwrap();
    scene.destroy_entity(e);
    assert!(matches!(scene.get::<i32>(e), Err(RecsError::InvalidEntityError)));
    assert!(matches!(
        scene.get_mut::<i32>(e),
        Err(RecsError::InvalidEntityError)
    ));
    assert!(matches!(
        scene.assign(e, 1i32),
        Err(RecsError::InvalidEntityError)
    ));
    assert!(matches!(
        scene.assign_default::<i32>(e),
        Err(RecsError::InvalidEntityError)
    ));
    assert!(matches!(
        scene.remove::<i32>(e),
        Err(RecsError::InvalidEntityError)
    ));
}

#[test]
fn slot_reuse_bumps_generation() {
    let mut scene = Scene::new();
    let e = scene.create_entity();
    scene.destroy_entity(e);
    let e2 = scene.create_entity();
    assert_eq!(e2.index(), e.index());
    assert!(e2.version() > e.version());
    // the old handle stays invalid even though its slot is alive again
    assert!(matches!(scene.get::<i32>(e), Err(RecsError::InvalidEntityError)));
    assert!(scene.get::<i32>(e2).is_ok());
}

#[test]
fn generations_grow_across_reuse_cycles() {
    let mut scene = Scene::new();
    let mut handle = scene.create_entity();
    for expected_version in 1..5u32 {
        scene.destroy_entity(handle);
        handle = scene.create_entity();
        assert_eq!(handle.index(), 0);
        assert_eq!(handle.version(), expected_version);
    }
}

#[test]
fn destroying_again_is_harmless() {
    let mut scene = Scene::new();
    let e = scene.create_entity();
    scene.destroy_entity(e);
    scene.destroy_entity(e);
    let e2 = scene.create_entity();
    scene.assign(e2, 5i32).unwrap();
    // destroying through the stale handle must not hit the slot's new life
    scene.destroy_entity(e);
    assert_eq!(*scene.get::<i32>(e2).unwrap().unwrap(), 5);
}

#[test]
fn handle_of_other_scene_is_invalid() {
    let mut scene_a = Scene::new();
    let scene_b = Scene::new();
    let e = scene_a.create_entity();
    assert!(matches!(
        scene_b.get::<i32>(e),
        Err(RecsError::InvalidEntityError)
    ));
}

#[test]
fn remove_without_component_is_ok() {
    let mut scene = Scene::new();
    let e = scene.create_entity();
    assert!(scene.remove::<i32>(e).is_ok());
    scene.assign(e, String::from("s")).unwrap();
    assert!(scene.remove::<i32>(e).is_ok());
    assert_eq!(scene.get::<String>(e).unwrap().unwrap(), "s");
}

#[test]
fn remove_takes_the_value_away() {
    let mut scene = Scene::new();
    let e = scene.create_entity();
    scene.assign(e, 42i32).unwrap();
    scene.remove::<i32>(e).unwrap();
    assert!(scene.get::<i32>(e).unwrap().is_none());
}

#[test]
fn overwrite_keeps_exactly_the_second_value() {
    let mut scene = Scene::new();
    let e = scene.create_entity();
    scene.assign(e, 1i32).unwrap();
    scene.assign(e, 2i32).unwrap();
    assert_eq!(*scene.get::<i32>(e).unwrap().unwrap(), 2);
    scene.remove::<i32>(e).unwrap();
    // after the single remove nothing of the earlier assignment remains
    assert!(scene.get::<i32>(e).unwrap().is_none());
}

#[test]
fn destroyed_slots_are_reused_before_new_ones() {
    let mut scene = Scene::new();
    let e0 = scene.create_entity();
    let e1 = scene.create_entity();
    let e2 = scene.create_entity();
    assert_eq!((e0.index(), e1.index(), e2.index()), (0, 1, 2));
    scene.destroy_entity(e0);
    scene.destroy_entity(e2);
    let r1 = scene.create_entity();
    let r2 = scene.create_entity();
    // both creations reuse freed slots: no slot index beyond the first three
    assert!(r1.index() < 3);
    assert!(r2.index() < 3);
    assert_ne!(r1.index(), r2.index());
    // only now does a fresh slot get allocated
    let e3 = scene.create_entity();
    assert_eq!(e3.index(), 3);
}

#[test]
fn assign_returns_borrow_of_stored_value() {
    let mut scene = Scene::new();
    let e = scene.create_entity();
    let slot = scene.assign(e, 10i32).unwrap();
    *slot = 11;
    assert_eq!(*scene.get::<i32>(e).unwrap().unwrap(), 11);
}

#[test]
fn get_mut_writes_through() {
    let mut scene = Scene::new();
    let e = scene.create_entity();
    scene.assign(e, 42i32).unwrap();
    let value = scene.get_mut::<i32>(e).unwrap().unwrap();
    *value = 43;
    assert_eq!(*scene.get::<i32>(e).unwrap().unwrap(), 43);
}

#[test]
fn assign_default_stores_the_default() {
    let mut scene = Scene::new();
    let e = scene.create_entity();
    scene.assign_default::<i32>(e).unwrap();
    assert_eq!(*scene.get::<i32>(e).unwrap().unwrap(), 0);
    scene.assign_default::<String>(e).unwrap();
    assert_eq!(scene.get::<String>(e).unwrap().unwrap(), "");
}

#[test]
fn scenes_are_independent() {
    let mut scene_a = Scene::new();
    let mut scene_b = Scene::new();
    let ea = scene_a.create_entity();
    let eb = scene_b.create_entity();
    scene_a.assign(ea, 1i32).unwrap();
    scene_b.assign(eb, String::from("b")).unwrap();
    assert_eq!(*scene_a.get::<i32>(ea).unwrap().unwrap(), 1);
    assert!(scene_b.get::<i32>(eb).unwrap().is_none());
    assert_eq!(scene_b.get::<String>(eb).unwrap().unwrap(), "b");
}
