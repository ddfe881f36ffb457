use pixgine::input::InputManager;

#[test]
fn new_manager_has_nothing_pressed() {
    let m = InputManager::new();
    assert!(!m.is_key_down(1));
    assert!(!m.is_key_just_pressed(1));
    assert!(!m.is_key_just_released(1));
    assert!(!m.is_mouse_button_down(0));
    assert!(!m.is_mouse_just_pressed(0));
}

#[test]
fn key_press_is_just_pressed_for_one_frame() {
    let mut m = InputManager::new();
    m.handle_key_down(7);
    assert!(m.is_key_down(7));
    assert!(m.is_key_just_pressed(7));
    m.end_frame();
    assert!(m.is_key_down(7));
    assert!(!m.is_key_just_pressed(7));
    // A repeated key-down while held is not a new press.
    m.handle_key_down(7);
    assert!(!m.is_key_just_pressed(7));
}

#[test]
fn press_and_release_in_one_frame() {
    let mut m = InputManager::new();
    m.handle_key_down(3);
    m.handle_key_up(3);
    assert!(!m.is_key_down(3));
    assert!(m.is_key_just_pressed(3));
    assert!(m.is_key_just_released(3));
    m.end_frame();
    assert!(!m.is_key_just_released(3));
}

#[test]
fn mouse_buttons_tracked_separately_from_keys() {
    let mut m = InputManager::new();
    m.handle_mouse_down(1);
    assert!(m.is_mouse_button_down(1));
    assert!(m.is_mouse_just_pressed(1));
    assert!(!m.is_key_down(1));
    m.handle_mouse_up(1);
    assert!(!m.is_mouse_button_down(1));
    assert!(m.is_mouse_just_pressed(1));
    m.end_frame();
    assert!(!m.is_mouse_just_pressed(1));
}
