use recs::component::{get_type_id, RequireComponents};
use recs::entity::Entity;
use recs::scene::{Scene, SceneView};

fn collect(mut view: SceneView<'_>) -> Vec<Entity> {
    let mut out = Vec::new();
    while let Some(e) = view.next() {
        out.push(e);
    }
    out
}

#[test]
fn type_ids_are_stable_and_distinct() {
    let int_id = get_type_id::<i32>();
    let string_id = get_type_id::<String>();
    assert_ne!(int_id, string_id);
    assert_eq!(int_id, get_type_id::<i32>());
}

#[test]
fn required_component_ids_follow_declaration_order() {
    let int_id = get_type_id::<i32>();
    let string_id = get_type_id::<String>();
    let bool_id = get_type_id::<bool>();
    assert_eq!(
        <(i32, (String, (bool, ()))) as RequireComponents>::required_component_ids(),
        vec![int_id, string_id, bool_id]
    );
    assert_eq!(
        <() as RequireComponents>::required_component_ids(),
        Vec::new()
    );
}

#[test]
fn empty_scene_has_empty_view() {
    let scene = Scene::new();
    assert!(collect(scene.view::<()>()).is_empty());
    assert!(collect(scene.view::<(i32, ())>()).is_empty());
}

#[test]
fn view_of_unit_yields_all_live_entities() {
    let mut scene = Scene::new();
    let e0 = scene.create_entity();
    let e1 = scene.create_entity();
    let e2 = scene.create_entity();
    scene.destroy_entity(e1);
    assert_eq!(collect(scene.view::<()>()), vec![e0, e2]);
}

#[test]
fn view_filters_by_all_required_components() {
    let mut scene = Scene::new();
    let both = scene.create_entity();
    let only_int = scene.create_entity();
    let only_string = scene.create_entity();
    // assignment order deliberately differs per entity
    scene.assign(both, 1i32).unwrap();
    scene.assign(both, String::from("a")).unwrap();
    scene.assign(only_int, 2i32).unwrap();
    scene.assign(only_string, String::from("b")).unwrap();
    assert_eq!(collect(scene.view::<(i32, ())>()), vec![both, only_int]);
    assert_eq!(collect(scene.view::<(String, ())>()), vec![both, only_string]);
    assert_eq!(collect(scene.view::<(i32, (String, ()))>()), vec![both]);
    assert_eq!(collect(scene.view::<(String, (i32, ()))>()), vec![both]);
}

#[test]
fn view_yields_in_slot_order_whatever_the_assignment_order() {
    let mut scene = Scene::new();
    let e0 = scene.create_entity();
    let e1 = scene.create_entity();
    let e2 = scene.create_entity();
    scene.assign(e2, 1i32).unwrap();
    scene.assign(e0, 2i32).unwrap();
    scene.assign(e1, 3i32).unwrap();
    assert_eq!(collect(scene.view::<(i32, ())>()), vec![e0, e1, e2]);
}

#[test]
fn view_of_never_seen_type_is_empty() {
    let mut scene = Scene::new();
    let e = scene.create_entity();
    scene.assign(e, 1i32).unwrap();
    assert!(collect(scene.view::<(u64, ())>()).is_empty());
    assert!(collect(scene.view::<(i32, (u64, ()))>()).is_empty());
}

#[test]
fn views_are_independent_cursors() {
    let mut scene = Scene::new();
    let e0 = scene.create_entity();
    let e1 = scene.create_entity();
    scene.assign(e0, 1i32).unwrap();
    scene.assign(e1, 2i32).unwrap();
    let mut first = scene.view::<(i32, ())>();
    assert_eq!(first.next(), Some(e0));
    let second = scene.view::<(i32, ())>();
    assert_eq!(collect(second), vec![e0, e1]);
    assert_eq!(first.next(), Some(e1));
    assert_eq!(first.next(), None);
    assert_eq!(first.next(), None);
}

#[test]
fn raw_views_filter_by_identifier_lists() {
    let mut scene = Scene::new();
    let e0 = scene.create_entity();
    let e1 = scene.create_entity();
    scene.assign(e1, 4i32).unwrap();
    // an empty requirement matches every live entity
    assert_eq!(collect(SceneView::new(&scene, Vec::new())), vec![e0, e1]);
    // an identifier nobody holds matches nothing
    assert!(collect(SceneView::new(&scene, vec![usize::MAX])).is_empty());
}

#[test]
fn scenario_assign_view_remove() {
    let mut scene = Scene::new();
    let e0 = scene.create_entity();
    scene.assign(e0, 1i32).unwrap();
    scene.assign(e0, String::from("x")).unwrap();
    assert_eq!(collect(scene.view::<(i32, ())>()), vec![e0]);
    assert_eq!(collect(scene.view::<(String, (i32, ()))>()), vec![e0]);
    assert!(collect(scene.view::<(bool, ())>()).is_empty());
    scene.remove::<i32>(e0).unwrap();
    assert!(collect(scene.view::<(i32, ())>()).is_empty());
    assert_eq!(collect(scene.view::<(String, ())>()), vec![e0]);
}

#[test]
fn destroyed_entity_leaves_every_view() {
    let mut scene = Scene::new();
    let e0 = scene.create_entity();
    let e1 = scene.create_entity();
    scene.assign(e0, 1i32).unwrap();
    scene.assign(e1, 2i32).unwrap();
    scene.destroy_entity(e0);
    assert_eq!(collect(scene.view::<(i32, ())>()), vec![e1]);
    assert_eq!(collect(scene.view::<()>()), vec![e1]);
}
