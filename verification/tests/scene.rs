use pixgine::scene::components::ComponentKind;
use pixgine::scene::hierarchy::{entity_position, link_scene, saved_entity_names, saved_parent_names};
use pixgine::text::numbered;

#[test]
fn component_names_roundtrip() {
    let kinds = [
        ComponentKind::Transform,
        ComponentKind::Sprite,
        ComponentKind::Animation,
        ComponentKind::Physics,
        ComponentKind::Velocity,
        ComponentKind::Player,
        ComponentKind::CameraTag,
        ComponentKind::ParticleEmitter,
        ComponentKind::AudioSource,
        ComponentKind::Script,
    ];
    for k in kinds {
        assert_eq!(ComponentKind::from_name(k.name()), Some(k));
    }
}

#[test]
fn unknown_component_names() {
    assert_eq!(ComponentKind::from_name("Parent"), None);
    assert_eq!(ComponentKind::from_name("transform"), None);
    assert_eq!(ComponentKind::from_name(""), None);
}

#[test]
fn saved_names_are_numbered() {
    assert_eq!(saved_entity_names(3), vec!["Entity_0".to_string(), "Entity_1".to_string(), "Entity_2".to_string()]);
    assert_eq!(numbered("Entity_", 105), "Entity_105");
}

#[test]
fn parent_names_point_to_positions() {
    let ids = vec![40u64, 7, 13];
    assert_eq!(entity_position(&ids, 13), Some(2));
    assert_eq!(entity_position(&ids, 99), None);
    let refs = saved_parent_names(&ids, &vec![None, Some(40), Some(99)]);
    assert_eq!(refs, vec![None, Some("Entity_0".to_string()), None]);
}

#[test]
fn link_scene_wires_parents_and_children() {
    let names = vec!["root".to_string(), "a".to_string(), "b".to_string()];
    let refs = vec![None, Some("root".to_string()), Some("root".to_string())];
    let l = link_scene(&names, &refs);
    assert_eq!(l.parent_of, vec![None, Some(0), Some(0)]);
    assert_eq!(l.children_of, vec![vec![1, 2], vec![], vec![]]);
}

#[test]
fn link_scene_unknown_parent_and_duplicate_names() {
    let names = vec!["x".to_string(), "x".to_string(), "c".to_string(), "d".to_string()];
    let refs = vec![None, None, Some("x".to_string()), Some("nobody".to_string())];
    let l = link_scene(&names, &refs);
    // The last entity named "x" wins.
    assert_eq!(l.parent_of, vec![None, None, Some(1), None]);
    assert_eq!(l.children_of, vec![vec![], vec![2], vec![], vec![]]);
}

#[test]
fn save_then_load_restores_hierarchy() {
    let ids = vec![100u64, 200, 300, 400];
    let parents = vec![None, Some(100), Some(200), Some(100)];
    let names = saved_entity_names(ids.len());
    let refs = saved_parent_names(&ids, &parents);
    let l = link_scene(&names, &refs);
    assert_eq!(l.parent_of, vec![None, Some(0), Some(1), Some(0)]);
    assert_eq!(l.children_of, vec![vec![1, 3], vec![2], vec![], vec![]]);
}
