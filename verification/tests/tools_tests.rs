use collaborate::point::Point;
use collaborate::tools::{DrawingState, ToolEffect, ToolHandler};
use collaborate::types::{ElementKind, Tool, VimMode};
use collaborate::vim::{VimAction, VimStateMachine};

fn pt(x: f64, y: f64) -> Point {
    Point { x: x.to_bits(), y: y.to_bits() }
}

fn is_idle(h: &ToolHandler) -> bool {
    matches!(h.drawing, DrawingState::Idle)
}

#[test]
fn normal_mode_select_tool_selects() {
    let mut h = ToolHandler::new();
    assert!(matches!(h.on_mouse_down(VimMode::Normal, Tool::Select, pt(1.0, 2.0)), ToolEffect::SelectAt(p) if p == pt(1.0, 2.0)));
    assert!(matches!(h.on_mouse_down(VimMode::Normal, Tool::Rectangle, pt(1.0, 2.0)), ToolEffect::Nothing));
    assert!(is_idle(&h));
}

#[test]
fn drag_makes_a_shape() {
    let mut h = ToolHandler::new();
    assert!(matches!(h.on_mouse_down(VimMode::Insert, Tool::Ellipse, pt(5.0, 6.0)), ToolEffect::Nothing));
    let eff = h.on_mouse_up(Tool::Ellipse, pt(1.0, 2.0));
    assert!(matches!(eff, ToolEffect::CreateShape { kind: ElementKind::Ellipse, start, end } if start == pt(5.0, 6.0) && end == pt(1.0, 2.0)));
    assert!(is_idle(&h));
}

#[test]
fn two_presses_make_a_line() {
    let mut h = ToolHandler::new();
    h.on_mouse_down(VimMode::Insert, Tool::Arrow, pt(0.0, 0.0));
    assert!(matches!(h.on_mouse_up(Tool::Arrow, pt(0.0, 0.0)), ToolEffect::Nothing));
    let eff = h.on_mouse_down(VimMode::Insert, Tool::Arrow, pt(3.0, 4.0));
    match eff {
        ToolEffect::CreateLine { kind, points } => {
            assert_eq!(kind, ElementKind::Arrow);
            assert_eq!(points, vec![pt(0.0, 0.0), pt(3.0, 4.0)]);
        }
        _ => panic!("expected a line"),
    }
    assert!(is_idle(&h));
}

#[test]
fn stroke_follows_the_mouse() {
    let mut h = ToolHandler::new();
    h.on_mouse_down(VimMode::Insert, Tool::Freehand, pt(0.0, 0.0));
    h.on_mouse_move(pt(1.0, 1.0));
    h.on_mouse_move(pt(2.0, 1.0));
    match h.on_mouse_up(Tool::Freehand, pt(9.0, 9.0)) {
        ToolEffect::CreateFreehand { points } => assert_eq!(points, vec![pt(0.0, 0.0), pt(1.0, 1.0), pt(2.0, 1.0)]),
        _ => panic!("expected a stroke"),
    }
    h.on_mouse_down(VimMode::Insert, Tool::Freehand, pt(0.0, 0.0));
    assert!(matches!(h.on_mouse_up(Tool::Freehand, pt(0.0, 0.0)), ToolEffect::Nothing));
    assert!(is_idle(&h));
}

#[test]
fn text_input_types_and_commits() {
    let mut h = ToolHandler::new();
    h.on_mouse_down(VimMode::Insert, Tool::Text, pt(1.0, 2.0));
    for k in ["h", "i", "x", "Backspace", "Shift", "é", "!"] {
        assert!(matches!(h.on_text_key(k), ToolEffect::Nothing));
    }
    match h.on_text_key("Enter") {
        ToolEffect::CreateText { x, y, text } => {
            assert_eq!((x, y), (1.0f64.to_bits(), 2.0f64.to_bits()));
            assert_eq!(text, "hi!");
        }
        _ => panic!("expected text"),
    }
    assert!(is_idle(&h));
    h.on_mouse_down(VimMode::Insert, Tool::Text, pt(0.0, 0.0));
    assert!(matches!(h.on_text_key("Escape"), ToolEffect::Nothing));
}

#[test]
fn pressing_elsewhere_commits_the_text() {
    let mut h = ToolHandler::new();
    h.on_mouse_down(VimMode::Insert, Tool::Text, pt(1.0, 1.0));
    h.on_text_key("a");
    assert!(matches!(h.on_mouse_down(VimMode::Insert, Tool::Text, pt(5.0, 5.0)), ToolEffect::CreateText { ref text, .. } if text == "a"));
    assert!(matches!(h.drawing, DrawingState::TextInput { ref text, .. } if text.is_empty()));
}

#[test]
fn exit_and_tool_switch_commit_strokes() {
    let mut h = ToolHandler::new();
    h.on_mouse_down(VimMode::Insert, Tool::Freehand, pt(0.0, 0.0));
    h.on_mouse_move(pt(1.0, 0.0));
    assert!(matches!(h.on_set_tool(), ToolEffect::CreateFreehand { ref points } if points.len() == 2));
    assert!(is_idle(&h));
    h.on_mouse_down(VimMode::Insert, Tool::Line, pt(0.0, 0.0));
    assert!(matches!(h.on_set_tool(), ToolEffect::Nothing));
    assert!(matches!(h.drawing, DrawingState::LinePlacement { .. }));
    assert!(matches!(h.on_exit(), ToolEffect::Nothing));
    assert!(is_idle(&h));
}

#[test]
fn vim_create_key_per_tool() {
    let mut h = ToolHandler::new();
    assert!(matches!(h.on_create_at(Tool::Rectangle, pt(5.0, 5.0)), ToolEffect::CreateShapeAt { kind: ElementKind::Rectangle, center } if center == pt(5.0, 5.0)));
    assert!(matches!(h.on_create_at(Tool::Line, pt(0.0, 0.0)), ToolEffect::Nothing));
    assert!(matches!(h.on_create_at(Tool::Line, pt(2.0, 0.0)), ToolEffect::CreateLine { kind: ElementKind::Line, ref points } if points.len() == 2));
    assert!(matches!(h.on_create_at(Tool::Freehand, pt(0.0, 0.0)), ToolEffect::Nothing));
    h.on_mouse_move(pt(1.0, 1.0));
    assert!(matches!(h.on_create_at(Tool::Freehand, pt(0.0, 0.0)), ToolEffect::CreateFreehand { ref points } if points.len() == 2));
    assert!(matches!(h.on_create_at(Tool::Text, pt(0.0, 0.0)), ToolEffect::Nothing));
    assert!(matches!(h.drawing, DrawingState::TextInput { .. }));
    assert!(matches!(h.on_create_at(Tool::Select, pt(0.0, 0.0)), ToolEffect::Nothing));
}

#[test]
fn drawing_a_rectangle_from_the_keyboard_and_mouse() {
    let mut vim = VimStateMachine::new();
    let mut h = ToolHandler::new();
    assert_eq!(vim.handle_key("r", false, false), VimAction::SetTool(Tool::Rectangle));
    assert!(matches!(h.on_set_tool(), ToolEffect::Nothing));
    assert_eq!(vim.mode(), VimMode::Insert);
    h.on_mouse_down(vim.mode(), Tool::Rectangle, pt(10.0, 10.0));
    h.on_mouse_move(pt(40.0, 30.0));
    let eff = h.on_mouse_up(Tool::Rectangle, pt(40.0, 30.0));
    assert!(matches!(eff, ToolEffect::CreateShape { kind: ElementKind::Rectangle, .. }));
    assert_eq!(vim.handle_key("Escape", false, false), VimAction::SetTool(Tool::Select));
    assert_eq!(vim.mode(), VimMode::Normal);
}

#[test]
fn typing_a_text_and_committing_it_with_escape() {
    let mut h = ToolHandler::new();
    h.on_mouse_down(VimMode::Insert, Tool::Text, pt(3.0, 4.0));
    for k in ["h", "i"] {
        h.on_text_key(k);
    }
    assert!(matches!(h.on_text_key("Escape"), ToolEffect::CreateText { ref text, .. } if text == "hi"));
}

#[test]
fn tool_switch_and_exit_commit_typed_text() {
    let mut h = ToolHandler::new();
    h.on_mouse_down(VimMode::Insert, Tool::Text, pt(3.0, 4.0));
    h.on_text_key("o");
    h.on_text_key("k");
    assert!(matches!(h.on_set_tool(), ToolEffect::CreateText { x, y, ref text } if x == 3.0f64.to_bits() && y == 4.0f64.to_bits() && text == "ok"));
    assert!(is_idle(&h));
    h.on_mouse_down(VimMode::Insert, Tool::Text, pt(1.0, 1.0));
    assert!(matches!(h.on_set_tool(), ToolEffect::Nothing));
    assert!(is_idle(&h));
    h.on_mouse_down(VimMode::Insert, Tool::Text, pt(5.0, 6.0));
    h.on_text_key("z");
    assert!(matches!(h.on_exit(), ToolEffect::CreateText { ref text, .. } if text == "z"));
    assert!(is_idle(&h));
}

#[test]
fn escape_in_insert_mode_commits_text_through_the_tool_switch() {
    let mut vim = VimStateMachine::new();
    let mut h = ToolHandler::new();
    assert_eq!(vim.handle_key("t", false, false), VimAction::SetTool(Tool::Text));
    h.on_set_tool();
    h.on_mouse_down(vim.mode(), Tool::Text, pt(7.0, 8.0));
    h.on_text_key("a");
    assert_eq!(vim.handle_key("Escape", false, false), VimAction::SetTool(Tool::Select));
    assert!(matches!(h.on_set_tool(), ToolEffect::CreateText { ref text, .. } if text == "a"));
    assert!(is_idle(&h));
}
