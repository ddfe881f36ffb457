//! The editor's tabs, transform modes and keyboard shortcuts.
use vstd::prelude::*;

verus! {

/// The tabs of the editor's side panel.
#[derive(Debug, Clone, Copy, PartialEq, Eq, Structural)]
pub enum Tab {
    Scene,
    Tilemap,
    Anim,
    Scripts,
    Import,
}

/// What dragging the gizmo does to the selected entity.
#[derive(Debug, Clone, Copy, PartialEq, Eq, Structural)]
pub enum TransformMode {
    Move,
    Rotate,
    Scale,
}

/// The keys the editor has shortcuts for.
#[derive(Debug, Clone, Copy, PartialEq, Eq, Structural)]
pub enum EditorKey {
    W,
    E,
    R,
    C,
    V,
    Z,
    Y,
    S,
    O,
    Equal,
    Minus,
    Digit0,
    Delete,
    Backspace,
    Other,
}

/// What a key press asks the editor to do.
#[derive(Debug, Clone, Copy, PartialEq, Eq, Structural)]
pub enum EditorCommand {
    SetTransformMode(TransformMode),
    CopySelected,
    PasteEntity,
    Undo,
    Redo,
    SaveScene,
    OpenFileDialog,
    ZoomIn,
    ZoomOut,
    ResetView,
    DeleteSelected,
    Nothing,
}

/// The command bound to `key`, with Ctrl held or not: W, E, R pick the
/// transform mode; C and V copy and paste; Ctrl+Z, Ctrl+Y undo and redo;
/// Ctrl+S saves; Ctrl+O opens a scene; = and - zoom; Ctrl+0 resets the
/// view; Delete and Backspace delete the selection.
pub open spec fn spec_key_command(key: EditorKey, ctrl: bool) -> EditorCommand {
    match key {
        EditorKey::W => EditorCommand::SetTransformMode(TransformMode::Move),
        EditorKey::E => EditorCommand::SetTransformMode(TransformMode::Rotate),
        EditorKey::R => EditorCommand::SetTransformMode(TransformMode::Scale),
        EditorKey::C => EditorCommand::CopySelected,
        EditorKey::V => EditorCommand::PasteEntity,
        EditorKey::Z => if ctrl { EditorCommand::Undo } else { EditorCommand::Nothing },
        EditorKey::Y => if ctrl { EditorCommand::Redo } else { EditorCommand::Nothing },
        EditorKey::S => if ctrl { EditorCommand::SaveScene } else { EditorCommand::Nothing },
        EditorKey::O => if ctrl { EditorCommand::OpenFileDialog } else { EditorCommand::Nothing },
        EditorKey::Equal => EditorCommand::ZoomIn,
        EditorKey::Minus => EditorCommand::ZoomOut,
        EditorKey::Digit0 => if ctrl { EditorCommand::ResetView } else { EditorCommand::Nothing },
        EditorKey::Delete => EditorCommand::DeleteSelected,
        EditorKey::Backspace => EditorCommand::DeleteSelected,
        EditorKey::Other => EditorCommand::Nothing,
    }
}

/// The command a key press asks for.
pub fn key_command(key: EditorKey, ctrl: bool) -> (c: EditorCommand)
    ensures
        c == spec_key_command(key, ctrl),
{
    match key {
        EditorKey::W => EditorCommand::SetTransformMode(TransformMode::Move),
        EditorKey::E => EditorCommand::SetTransformMode(TransformMode::Rotate),
        EditorKey::R => EditorCommand::SetTransformMode(TransformMode::Scale),
        EditorKey::C => EditorCommand::CopySelected,
        EditorKey::V => EditorCommand::PasteEntity,
        EditorKey::Z => if ctrl { EditorCommand::Undo } else { EditorCommand::Nothing },
        EditorKey::Y => if ctrl { EditorCommand::Redo } else { EditorCommand::Nothing },
        EditorKey::S => if ctrl { EditorCommand::SaveScene } else { EditorCommand::Nothing },
        EditorKey::O => if ctrl { EditorCommand::OpenFileDialog } else { EditorCommand::Nothing },
        EditorKey::Equal => EditorCommand::ZoomIn,
        EditorKey::Minus => EditorCommand::ZoomOut,
        EditorKey::Digit0 => if ctrl { EditorCommand::ResetView } else { EditorCommand::Nothing },
        EditorKey::Delete => EditorCommand::DeleteSelected,
        EditorKey::Backspace => EditorCommand::DeleteSelected,
        EditorKey::Other => EditorCommand::Nothing,
    }
}

/// What each key does: W, E and R pick the move, rotate and scale tools, C
/// and V copy and paste, = and - zoom, Delete and Backspace delete the
/// selection, all with or without Ctrl; Z, Y, S, O and 0 undo, redo, save,
/// open and reset the view only with Ctrl; any other key does nothing.
pub proof fn law_key_table(ctrl: bool)
    ensures
        spec_key_command(EditorKey::W, ctrl) == EditorCommand::SetTransformMode(TransformMode::Move),
        spec_key_command(EditorKey::E, ctrl) == EditorCommand::SetTransformMode(TransformMode::Rotate),
        spec_key_command(EditorKey::R, ctrl) == EditorCommand::SetTransformMode(TransformMode::Scale),
        spec_key_command(EditorKey::C, ctrl) == EditorCommand::CopySelected,
        spec_key_command(EditorKey::V, ctrl) == EditorCommand::PasteEntity,
        spec_key_command(EditorKey::Equal, ctrl) == EditorCommand::ZoomIn,
        spec_key_command(EditorKey::Minus, ctrl) == EditorCommand::ZoomOut,
        spec_key_command(EditorKey::Delete, ctrl) == EditorCommand::DeleteSelected,
        spec_key_command(EditorKey::Backspace, ctrl) == EditorCommand::DeleteSelected,
        spec_key_command(EditorKey::Z, ctrl) == (if ctrl { EditorCommand::Undo } else { EditorCommand::Nothing }),
        spec_key_command(EditorKey::Y, ctrl) == (if ctrl { EditorCommand::Redo } else { EditorCommand::Nothing }),
        spec_key_command(EditorKey::S, ctrl) == (if ctrl { EditorCommand::SaveScene } else { EditorCommand::Nothing }),
        spec_key_command(EditorKey::O, ctrl) == (if ctrl { EditorCommand::OpenFileDialog } else { EditorCommand::Nothing }),
        spec_key_command(EditorKey::Digit0, ctrl) == (if ctrl { EditorCommand::ResetView } else { EditorCommand::Nothing }),
        spec_key_command(EditorKey::Other, ctrl) == EditorCommand::Nothing,
{
}

/// Ctrl changes only what Z, Y, S, O and 0 do.
pub proof fn law_ctrl_only_gates_history_keys(key: EditorKey)
    ensures
        !(key == EditorKey::Z || key == EditorKey::Y || key == EditorKey::S || key == EditorKey::O
            || key == EditorKey::Digit0) ==> spec_key_command(key, true) == spec_key_command(key, false),
{
    law_key_table(true);
    law_key_table(false);
}

/// Undo, redo, save, open and view reset need Ctrl: the same letters and
/// digit alone do nothing.
pub proof fn law_history_keys_need_ctrl(key: EditorKey)
    ensures
        (key == EditorKey::Z || key == EditorKey::Y || key == EditorKey::S || key == EditorKey::O
            || key == EditorKey::Digit0) ==> spec_key_command(key, false) == EditorCommand::Nothing,
        spec_key_command(key, true) == EditorCommand::Undo <==> key == EditorKey::Z,
        spec_key_command(key, true) == EditorCommand::Redo <==> key == EditorKey::Y,
{
}

} // verus!
