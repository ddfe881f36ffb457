use pixgine::assets::watcher::add_changed_paths;
use pixgine::assets::{AssetHandle, AssetRegistry, AssetType, ReloadAction};

#[test]
fn handle_new_and_id() {
    let h = AssetHandle::new(42);
    assert_eq!(h.id(), 42);
    assert_eq!(h, AssetHandle::new(42));
    assert_ne!(h, AssetHandle::new(43));
}

#[test]
fn generate_takes_counter_and_advances() {
    let mut next = 1u64;
    let a = AssetHandle::generate(&mut next);
    let b = AssetHandle::generate(&mut next);
    assert_eq!(a.id(), 1);
    assert_eq!(b.id(), 2);
    assert_eq!(next, 3);
}

#[test]
fn generate_wraps_like_fetch_add() {
    let mut next = u64::MAX;
    let a = AssetHandle::generate(&mut next);
    assert_eq!(a.id(), u64::MAX);
    assert_eq!(next, 0);
}

#[test]
fn registry_hands_out_fresh_handles() {
    let mut r = AssetRegistry::new();
    let a = r.register("assets/a.png".to_string(), AssetType::Texture);
    let b = r.register("assets/b.lua".to_string(), AssetType::Script);
    assert_eq!(a.id(), 1);
    assert_eq!(b.id(), 2);
    assert_eq!(r.len(), 2);
    let m = r.get(b).unwrap();
    assert_eq!(m.path, "assets/b.lua");
    assert_eq!(m.asset_type, AssetType::Script);
    assert!(m.loaded);
    assert!(r.get(AssetHandle::new(7)).is_none());
}

#[test]
fn registry_path_leads_to_last_load() {
    let mut r = AssetRegistry::new();
    let _a = r.register("assets/a.png".to_string(), AssetType::Texture);
    let b = r.register("assets/a.png".to_string(), AssetType::Texture);
    assert_eq!(r.handle_for_path("assets/a.png"), Some(b));
    assert_eq!(r.handle_for_path("assets/none.png"), None);
}

#[test]
fn reload_actions_by_type() {
    let mut r = AssetRegistry::new();
    r.register("t.png".to_string(), AssetType::Texture);
    r.register("s.lua".to_string(), AssetType::Script);
    r.register("m.ogg".to_string(), AssetType::Audio);
    assert_eq!(r.reload_action("t.png"), ReloadAction::ReloadTexture);
    assert_eq!(r.reload_action("s.lua"), ReloadAction::ScriptChanged);
    assert_eq!(r.reload_action("m.ogg"), ReloadAction::Ignore);
    assert_eq!(r.reload_action("unknown"), ReloadAction::Ignore);
}

#[test]
fn changed_paths_skip_repeats() {
    let mut changed = vec!["a".to_string()];
    add_changed_paths(&mut changed, vec!["b".to_string(), "a".to_string(), "b".to_string(), "c".to_string()]);
    assert_eq!(changed, vec!["a".to_string(), "b".to_string(), "c".to_string()]);
}

#[test]
fn registry_compares_paths_by_component() {
    let mut r = AssetRegistry::new();
    let h = r.register("assets/./player.png".to_string(), AssetType::Texture);
    assert_eq!(r.handle_for_path("assets/player.png"), Some(h));
    assert_eq!(r.handle_for_path("assets//player.png"), Some(h));
    assert_eq!(r.reload_action("assets/player.png"), ReloadAction::ReloadTexture);
    assert_eq!(r.handle_for_path("assets/enemy.png"), None);
    assert_eq!(r.handle_for_path("assets/player.png.bak"), None);
}

#[test]
fn changed_paths_skip_same_location() {
    let mut changed = vec!["assets/a.png".to_string()];
    add_changed_paths(&mut changed, vec!["assets/./a.png".to_string(), "assets//b.png".to_string(), "assets/b.png".to_string()]);
    assert_eq!(changed, vec!["assets/a.png".to_string(), "assets//b.png".to_string()]);
}
