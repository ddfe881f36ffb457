use pixgine::scripting::{scripts_to_reload, ScriptStamp};

#[test]
fn only_scripts_modified_after_loading_reload() {
    let stamps = vec![
        ScriptStamp { name: "player.lua".to_string(), loaded_modified: 100, current_modified: Some(150) },
        ScriptStamp { name: "enemy.lua".to_string(), loaded_modified: 100, current_modified: Some(100) },
        ScriptStamp { name: "gone.lua".to_string(), loaded_modified: 100, current_modified: None },
        ScriptStamp { name: "older.lua".to_string(), loaded_modified: 100, current_modified: Some(90) },
        ScriptStamp { name: "ui.lua".to_string(), loaded_modified: 5, current_modified: Some(6) },
    ];
    assert_eq!(scripts_to_reload(&stamps), vec!["player.lua".to_string(), "ui.lua".to_string()]);
    assert!(scripts_to_reload(&Vec::new()).is_empty());
}
