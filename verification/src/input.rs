//! Input state across frames: which keys and mouse buttons are held, and
//! which were pressed or released during the current frame.
//!
//! Keys and buttons are identified by integer codes; the window layer maps
//! its own key type onto these codes.
use std::collections::HashSet;
use vstd::prelude::*;

verus! {

broadcast use vstd::std_specs::hash::group_hash_axioms;

/// The abstract state of an [`InputManager`].
pub struct InputState {
    pub keys_down: Set<u32>,
    pub keys_just_pressed: Set<u32>,
    pub keys_just_released: Set<u32>,
    pub buttons_down: Set<u32>,
    pub buttons_just_pressed: Set<u32>,
}

/// Tracks input state across frames.
#[derive(Debug)]
pub struct InputManager {
    keys_pressed: HashSet<u32>,
    keys_just_pressed: HashSet<u32>,
    keys_just_released: HashSet<u32>,
    mouse_buttons_pressed: HashSet<u32>,
    mouse_buttons_just_pressed: HashSet<u32>,
}

impl View for InputManager {
    type V = InputState;

    closed spec fn view(&self) -> InputState {
        InputState {
            keys_down: self.keys_pressed@,
            keys_just_pressed: self.keys_just_pressed@,
            keys_just_released: self.keys_just_released@,
            buttons_down: self.mouse_buttons_pressed@,
            buttons_just_pressed: self.mouse_buttons_just_pressed@,
        }
    }
}

/// The state with nothing held and nothing pressed or released.
pub open spec fn empty_input() -> InputState {
    InputState {
        keys_down: Set::empty(),
        keys_just_pressed: Set::empty(),
        keys_just_released: Set::empty(),
        buttons_down: Set::empty(),
        buttons_just_pressed: Set::empty(),
    }
}

/// The state after the frame ends: held keys and buttons stay, the
/// per-frame sets are emptied.
pub open spec fn after_end_frame(s: InputState) -> InputState {
    InputState {
        keys_just_pressed: Set::empty(),
        keys_just_released: Set::empty(),
        buttons_just_pressed: Set::empty(),
        ..s
    }
}

/// The state after a key goes down: it is held, and it counts as just
/// pressed unless it was already held.
pub open spec fn after_key_down(s: InputState, key: u32) -> InputState {
    InputState {
        keys_down: s.keys_down.insert(key),
        keys_just_pressed: if s.keys_down.contains(key) {
            s.keys_just_pressed
        } else {
            s.keys_just_pressed.insert(key)
        },
        ..s
    }
}

/// The state after a key goes up: it is no longer held and counts as just released.
pub open spec fn after_key_up(s: InputState, key: u32) -> InputState {
    InputState {
        keys_down: s.keys_down.remove(key),
        keys_just_released: s.keys_just_released.insert(key),
        ..s
    }
}

/// The state after a mouse button goes down.
pub open spec fn after_button_down(s: InputState, button: u32) -> InputState {
    InputState {
        buttons_down: s.buttons_down.insert(button),
        buttons_just_pressed: if s.buttons_down.contains(button) {
            s.buttons_just_pressed
        } else {
            s.buttons_just_pressed.insert(button)
        },
        ..s
    }
}

/// The state after a mouse button goes up.
pub open spec fn after_button_up(s: InputState, button: u32) -> InputState {
    InputState { buttons_down: s.buttons_down.remove(button), ..s }
}

impl InputManager {
    /// Nothing held, nothing pressed.
    pub fn new() -> (m: Self)
        ensures
            m@ == empty_input(),
    {
        InputManager {
            keys_pressed: HashSet::new(),
            keys_just_pressed: HashSet::new(),
            keys_just_released: HashSet::new(),
            mouse_buttons_pressed: HashSet::new(),
            mouse_buttons_just_pressed: HashSet::new(),
        }
    }

    /// Call at the end of each frame to reset frame-scoped state.
    pub fn end_frame(&mut self)
        ensures
            final(self)@ == after_end_frame(old(self)@),
    {
        self.keys_just_pressed.clear();
        self.keys_just_released.clear();
        self.mouse_buttons_just_pressed.clear();
    }

    /// Handle a key press event.
    pub fn handle_key_down(&mut self, key: u32)
        ensures
            final(self)@ == after_key_down(old(self)@, key),
    {
        if !self.keys_pressed.contains(&key) {
            self.keys_just_pressed.insert(key);
        }
        self.keys_pressed.insert(key);
    }

    /// Handle a key release event.
    pub fn handle_key_up(&mut self, key: u32)
        ensures
            final(self)@ == after_key_up(old(self)@, key),
    {
        self.keys_pressed.remove(&key);
        self.keys_just_released.insert(key);
    }

    /// Is the key currently held down?
    pub fn is_key_down(&self, key: u32) -> (b: bool)
        ensures
            b == self@.keys_down.contains(key),
    {
        self.keys_pressed.contains(&key)
    }

    /// Was the key pressed during this frame?
    pub fn is_key_just_pressed(&self, key: u32) -> (b: bool)
        ensures
            b == self@.keys_just_pressed.contains(key),
    {
        self.keys_just_pressed.contains(&key)
    }

    /// Was the key released during this frame?
    pub fn is_key_just_released(&self, key: u32) -> (b: bool)
        ensures
            b == self@.keys_just_released.contains(key),
    {
        self.keys_just_released.contains(&key)
    }

    /// Handle a mouse button press event.
    pub fn handle_mouse_down(&mut self, button: u32)
        ensures
            final(self)@ == after_button_down(old(self)@, button),
    {
        if !self.mouse_buttons_pressed.contains(&button) {
            self.mouse_buttons_just_pressed.insert(button);
        }
        self.mouse_buttons_pressed.insert(button);
    }

    /// Handle a mouse button release event.
    pub fn handle_mouse_up(&mut self, button: u32)
        ensures
            final(self)@ == after_button_up(old(self)@, button),
    {
        self.mouse_buttons_pressed.remove(&button);
    }

    /// Is the mouse button currently held down?
    pub fn is_mouse_button_down(&self, button: u32) -> (b: bool)
        ensures
            b == self@.buttons_down.contains(button),
    {
        self.mouse_buttons_pressed.contains(&button)
    }

    /// Was the mouse button pressed during this frame?
    pub fn is_mouse_just_pressed(&self, button: u32) -> (b: bool)
        ensures
            b == self@.buttons_just_pressed.contains(button),
    {
        self.mouse_buttons_just_pressed.contains(&button)
    }
}

/// A key that goes down is held and, unless it was already held, counts as
/// pressed this frame; a key that was already held is not pressed again.
pub proof fn law_key_down_marks_press(s: InputState, key: u32)
    ensures
        after_key_down(s, key).keys_down.contains(key),
        !s.keys_down.contains(key) ==> after_key_down(s, key).keys_just_pressed.contains(key),
        s.keys_down.contains(key) ==> after_key_down(s, key).keys_just_pressed
            == s.keys_just_pressed,
{
}

/// Holding a key down and receiving the event again changes nothing.
pub proof fn law_key_down_idempotent(s: InputState, key: u32)
    ensures
        after_key_down(after_key_down(s, key), key) == after_key_down(s, key),
{
    assert(after_key_down(after_key_down(s, key), key).keys_down =~= after_key_down(s, key).keys_down);
}

/// A press followed by a release of a key that was not held leaves it not
/// held, but both pressed and released during the frame.
pub proof fn law_press_release_in_one_frame(s: InputState, key: u32)
    requires
        !s.keys_down.contains(key),
    ensures
        !after_key_up(after_key_down(s, key), key).keys_down.contains(key),
        after_key_up(after_key_down(s, key), key).keys_just_pressed.contains(key),
        after_key_up(after_key_down(s, key), key).keys_just_released.contains(key),
        after_key_up(after_key_down(s, key), key).keys_down == s.keys_down,
{
    assert(after_key_up(after_key_down(s, key), key).keys_down =~= s.keys_down);
}

/// Ending the frame forgets every press and release but keeps what is held:
/// a key held across the frame boundary is down but not just pressed.
pub proof fn law_end_frame_keeps_held(s: InputState, key: u32)
    ensures
        after_end_frame(s).keys_down == s.keys_down,
        after_end_frame(s).buttons_down == s.buttons_down,
        !after_end_frame(s).keys_just_pressed.contains(key),
        !after_end_frame(s).keys_just_released.contains(key),
        !after_end_frame(s).buttons_just_pressed.contains(key),
        s.keys_down.contains(key) ==> !after_key_down(after_end_frame(s), key).keys_just_pressed.contains(key),
{
}

/// Key events and mouse-button events do not affect each other.
pub proof fn law_keys_and_buttons_independent(s: InputState, key: u32, button: u32)
    ensures
        after_key_down(s, key).buttons_down == s.buttons_down,
        after_key_down(s, key).buttons_just_pressed == s.buttons_just_pressed,
        after_key_up(s, key).buttons_down == s.buttons_down,
        after_button_down(s, button).keys_down == s.keys_down,
        after_button_up(s, button).keys_down == s.keys_down,
        after_button_up(s, button).keys_just_pressed == s.keys_just_pressed,
{
}

} // verus!
