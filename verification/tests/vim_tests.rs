use collaborate::types::{Tool, VimMode};
use collaborate::vim::{VimAction, VimStateMachine};

#[test]
fn normal_to_insert_via_r() {
    let mut vim = VimStateMachine::new();
    assert_eq!(vim.mode(), VimMode::Normal);
    let action = vim.handle_key("r", false, false);
    assert_eq!(vim.mode(), VimMode::Insert);
    assert!(matches!(action, VimAction::SetTool(Tool::Rectangle)));
}

#[test]
fn insert_to_normal_via_escape() {
    let mut vim = VimStateMachine::new();
    vim.handle_key("r", false, false);
    let action = vim.handle_key("Escape", false, false);
    assert_eq!(vim.mode(), VimMode::Normal);
    assert!(matches!(action, VimAction::SetTool(Tool::Select)));
}

#[test]
fn normal_dd_deletes() {
    let mut vim = VimStateMachine::new();
    let a1 = vim.handle_key("d", false, false);
    assert!(matches!(a1, VimAction::Nothing));
    let a2 = vim.handle_key("d", false, false);
    assert!(matches!(a2, VimAction::DeleteSelected));
}

#[test]
fn normal_to_command_mode() {
    let mut vim = VimStateMachine::new();
    let action = vim.handle_key(":", false, false);
    assert_eq!(vim.mode(), VimMode::Command);
    assert!(matches!(action, VimAction::EnterCommand));
}

#[test]
fn hjkl_movement() {
    let mut vim = VimStateMachine::new();
    assert!(matches!(vim.handle_key("h", false, false), VimAction::MoveCursor(dx, _) if dx == -20));
    assert!(matches!(vim.handle_key("j", false, false), VimAction::MoveCursor(_, dy) if dy == 20));
    assert!(matches!(vim.handle_key("k", false, false), VimAction::MoveCursor(_, dy) if dy == -20));
    assert!(matches!(vim.handle_key("l", false, false), VimAction::MoveCursor(dx, _) if dx == 20));
}

#[test]
fn shift_hjkl_move_selected() {
    let mut vim = VimStateMachine::new();
    assert!(matches!(vim.handle_key("H", true, false), VimAction::MoveSelected(dx, _) if dx == -10));
    assert!(matches!(vim.handle_key("J", true, false), VimAction::MoveSelected(_, dy) if dy == 10));
    assert!(matches!(vim.handle_key("K", true, false), VimAction::MoveSelected(_, dy) if dy == -10));
    assert!(matches!(vim.handle_key("L", true, false), VimAction::MoveSelected(dx, _) if dx == 10));
}

#[test]
fn space_selects_at_cursor() {
    let mut vim = VimStateMachine::new();
    assert!(matches!(vim.handle_key(" ", false, false), VimAction::SelectAtCursor));
}

#[test]
fn undo_redo() {
    let mut vim = VimStateMachine::new();
    assert!(matches!(vim.handle_key("u", false, false), VimAction::Undo));
    assert!(matches!(vim.handle_key("r", false, true), VimAction::Redo));
}

#[test]
fn visual_mode() {
    let mut vim = VimStateMachine::new();
    let a = vim.handle_key("v", false, false);
    assert_eq!(vim.mode(), VimMode::Visual);
    assert!(matches!(a, VimAction::EnterVisual));
}

#[test]
fn command_submit() {
    let mut vim = VimStateMachine::new();
    vim.handle_key(":", false, false);
    vim.handle_key("w", false, false);
    let a = vim.handle_key("Enter", false, false);
    assert_eq!(vim.mode(), VimMode::Normal);
    assert!(matches!(a, VimAction::CommandSubmit(ref s) if s == "w"));
}

#[test]
fn command_backspace() {
    let mut vim = VimStateMachine::new();
    vim.handle_key(":", false, false);
    vim.handle_key("w", false, false);
    vim.handle_key("q", false, false);
    vim.handle_key("Backspace", false, false);
    assert_eq!(vim.command_buffer(), "w");
}

// Laws on concrete values.

#[test]
fn escape_from_every_mode_returns_to_normal() {
    for first in ["r", "v", ":"] {
        let mut vim = VimStateMachine::new();
        vim.handle_key(first, false, false);
        vim.handle_key("Escape", false, false);
        assert_eq!(vim.mode(), VimMode::Normal);
        assert_eq!(vim.key_buffer(), "");
        assert_eq!(vim.command_buffer(), "");
    }
}

#[test]
fn yy_copies_and_p_pastes() {
    let mut vim = VimStateMachine::new();
    assert_eq!(vim.handle_key("y", false, false), VimAction::Nothing);
    assert_eq!(vim.key_buffer(), "y");
    assert_eq!(vim.handle_key("y", false, false), VimAction::CopySelected);
    assert_eq!(vim.key_buffer(), "");
    assert_eq!(vim.handle_key("p", false, false), VimAction::Paste);
}

#[test]
fn pending_d_is_dropped_by_another_key() {
    let mut vim = VimStateMachine::new();
    vim.handle_key("d", false, false);
    let a = vim.handle_key("u", false, false);
    assert_eq!(vim.key_buffer(), "");
    assert_eq!(a, VimAction::Undo);
    assert_eq!(vim.handle_key("d", false, false), VimAction::Nothing);
}

#[test]
fn typed_command_is_submitted_whole() {
    let mut vim = VimStateMachine::new();
    vim.handle_key(":", false, false);
    for k in ["c", "o", "l", "o", "r", " ", "#", "f", "0", "0"] {
        assert!(matches!(vim.handle_key(k, false, false), VimAction::CommandChar(_)));
    }
    assert_eq!(vim.command_buffer(), "color #f00");
    assert_eq!(vim.handle_key("Enter", false, false), VimAction::CommandSubmit("color #f00".to_string()));
    assert_eq!(vim.command_buffer(), "");
}

#[test]
fn command_line_ignores_long_key_names() {
    let mut vim = VimStateMachine::new();
    vim.handle_key(":", false, false);
    assert_eq!(vim.handle_key("Shift", false, false), VimAction::Nothing);
    assert_eq!(vim.handle_key("é", false, false), VimAction::Nothing);
    assert_eq!(vim.command_buffer(), "");
}

#[test]
fn insert_mode_moves_cursor_and_creates() {
    let mut vim = VimStateMachine::new();
    vim.handle_key("e", false, false);
    assert_eq!(vim.mode(), VimMode::Insert);
    assert_eq!(vim.handle_key("Enter", false, false), VimAction::CreateAtCenter);
}

#[test]
fn visual_mode_moves_and_deletes_selection() {
    let mut vim = VimStateMachine::new();
    vim.handle_key("v", false, false);
    assert_eq!(vim.handle_key("l", false, false), VimAction::MoveSelected(10, 0));
    assert_eq!(vim.handle_key("k", true, false), VimAction::MoveSelected(0, -1));
    assert_eq!(vim.handle_key("d", false, false), VimAction::DeleteSelected);
    assert_eq!(vim.mode(), VimMode::Normal);
}
