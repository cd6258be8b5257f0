//! The drawing interaction: what a press, move or release of the mouse, a
//! key typed into a text box, or a vim command does to the drawing in
//! progress, and which element (if any) it asks to be created. Positions are
//! world coordinates as IEEE-754 double bits.
use vstd::prelude::*;

use crate::point::Point;
use crate::text::{pop_char, push_char, str_eq};
use crate::types::{ElementKind, Tool, VimMode};

verus! {

/// Current drawing interaction state.
#[derive(Clone, Debug)]
pub enum DrawingState {
    Idle,
    ShapeDrag { start_x: u64, start_y: u64 },
    LinePlacement { points: Vec<Point> },
    TextInput { x: u64, y: u64, text: String },
    FreehandDraw { points: Vec<Point> },
}

/// The mathematical value of a drawing state.
pub enum DrawingView {
    Idle,
    ShapeDrag { start_x: u64, start_y: u64 },
    LinePlacement { points: Seq<Point> },
    TextInput { x: u64, y: u64, text: Seq<char> },
    FreehandDraw { points: Seq<Point> },
}

impl View for DrawingState {
    type V = DrawingView;

    open spec fn view(&self) -> DrawingView {
        match self {
            DrawingState::Idle => DrawingView::Idle,
            DrawingState::ShapeDrag { start_x, start_y } => DrawingView::ShapeDrag {
                start_x: *start_x,
                start_y: *start_y,
            },
            DrawingState::LinePlacement { points } => DrawingView::LinePlacement { points: points@ },
            DrawingState::TextInput { x, y, text } => DrawingView::TextInput { x: *x, y: *y, text: text@ },
            DrawingState::FreehandDraw { points } => DrawingView::FreehandDraw { points: points@ },
        }
    }
}

/// What the drawing asks the application to do.
#[derive(Clone, Debug)]
pub enum ToolEffect {
    Nothing,
    /// Select the topmost element under this point, or clear the selection.
    SelectAt(Point),
    /// Create a shape spanning a drag from `start` to `end` (when it is
    /// larger than a pixel).
    CreateShape { kind: ElementKind, start: Point, end: Point },
    /// Create a shape of the default size centred on a point.
    CreateShapeAt { kind: ElementKind, center: Point },
    CreateLine { kind: ElementKind, points: Vec<Point> },
    CreateText { x: u64, y: u64, text: String },
    CreateFreehand { points: Vec<Point> },
}

/// The mathematical value of an effect.
pub enum EffectView {
    Nothing,
    SelectAt(Point),
    CreateShape { kind: ElementKind, start: Point, end: Point },
    CreateShapeAt { kind: ElementKind, center: Point },
    CreateLine { kind: ElementKind, points: Seq<Point> },
    CreateText { x: u64, y: u64, text: Seq<char> },
    CreateFreehand { points: Seq<Point> },
}

impl View for ToolEffect {
    type V = EffectView;

    open spec fn view(&self) -> EffectView {
        match self {
            ToolEffect::Nothing => EffectView::Nothing,
            ToolEffect::SelectAt(p) => EffectView::SelectAt(*p),
            ToolEffect::CreateShape { kind, start, end } => EffectView::CreateShape {
                kind: *kind,
                start: *start,
                end: *end,
            },
            ToolEffect::CreateShapeAt { kind, center } => EffectView::CreateShapeAt { kind: *kind, center: *center },
            ToolEffect::CreateLine { kind, points } => EffectView::CreateLine { kind: *kind, points: points@ },
            ToolEffect::CreateText { x, y, text } => EffectView::CreateText { x: *x, y: *y, text: text@ },
            ToolEffect::CreateFreehand { points } => EffectView::CreateFreehand { points: points@ },
        }
    }
}

/// The line kind a line tool draws.
pub open spec fn line_kind(tool: Tool) -> ElementKind {
    if tool == Tool::Arrow {
        ElementKind::Arrow
    } else {
        ElementKind::Line
    }
}

/// A stroke in progress, committed when it has at least two points.
pub open spec fn commit_stroke(points: Seq<Point>) -> EffectView {
    if points.len() >= 2 {
        EffectView::CreateFreehand { points }
    } else {
        EffectView::Nothing
    }
}

/// Text being typed, committed when it is not empty.
pub open spec fn commit_text(x: u64, y: u64, text: Seq<char>) -> EffectView {
    if text.len() > 0 {
        EffectView::CreateText { x, y, text }
    } else {
        EffectView::Nothing
    }
}

/// A mouse press at `at`.
pub open spec fn mouse_down_step(mode: VimMode, tool: Tool, d: DrawingView, at: Point) -> (DrawingView, EffectView) {
    match mode {
        VimMode::Normal => if tool == Tool::Select {
            (d, EffectView::SelectAt(at))
        } else {
            (d, EffectView::Nothing)
        },
        VimMode::Insert => match tool {
            Tool::Rectangle | Tool::Ellipse => (DrawingView::ShapeDrag { start_x: at.x, start_y: at.y }, EffectView::Nothing),
            Tool::Arrow | Tool::Line => match d {
                DrawingView::LinePlacement { points } => (
                    DrawingView::Idle,
                    EffectView::CreateLine { kind: line_kind(tool), points: points.push(at) },
                ),
                _ => (DrawingView::LinePlacement { points: seq![at] }, EffectView::Nothing),
            },
            Tool::Text => {
                let eff = match d {
                    DrawingView::TextInput { x, y, text } => commit_text(x, y, text),
                    _ => EffectView::Nothing,
                };
                (DrawingView::TextInput { x: at.x, y: at.y, text: Seq::empty() }, eff)
            },
            Tool::Freehand => (DrawingView::FreehandDraw { points: seq![at] }, EffectView::Nothing),
            Tool::Select => (d, EffectView::SelectAt(at)),
        },
        _ => (d, EffectView::Nothing),
    }
}

/// A mouse move (or a vim cursor move) to `at`: a stroke in progress grows.
pub open spec fn move_step(d: DrawingView, at: Point) -> DrawingView {
    match d {
        DrawingView::FreehandDraw { points } => DrawingView::FreehandDraw { points: points.push(at) },
        _ => d,
    }
}

/// A mouse release at `at`: a drag ends in a shape of the tool's kind, a
/// stroke is committed; line placement and text input go on.
pub open spec fn mouse_up_step(tool: Tool, d: DrawingView, at: Point) -> (DrawingView, EffectView) {
    match d {
        DrawingView::ShapeDrag { start_x, start_y } => (
            DrawingView::Idle,
            EffectView::CreateShape {
                kind: if tool == Tool::Ellipse { ElementKind::Ellipse } else { ElementKind::Rectangle },
                start: Point { x: start_x, y: start_y },
                end: at,
            },
        ),
        DrawingView::FreehandDraw { points } => (DrawingView::Idle, commit_stroke(points)),
        _ => (d, EffectView::Nothing),
    }
}

/// A key typed while entering text: Escape or Enter commits non-empty text
/// and ends the input, Backspace removes the last character, a single-byte
/// key is appended.
pub open spec fn text_key_step(d: DrawingView, key: Seq<char>) -> (DrawingView, EffectView) {
    match d {
        DrawingView::TextInput { x, y, text } => if key == "Escape"@ || key == "Enter"@ {
            (DrawingView::Idle, commit_text(x, y, text))
        } else if key == "Backspace"@ {
            (
                DrawingView::TextInput { x, y, text: if text.len() > 0 { text.drop_last() } else { text } },
                EffectView::Nothing,
            )
        } else if key.len() == 1 && (key[0] as u32) < 0x80 {
            (DrawingView::TextInput { x, y, text: text.push(key[0]) }, EffectView::Nothing)
        } else {
            (d, EffectView::Nothing)
        },
        _ => (d, EffectView::Nothing),
    }
}

/// Switching tools commits a stroke in progress (or drops one too short) and
/// commits text being typed (or drops it when empty); any other drawing in
/// progress stays.
pub open spec fn set_tool_step(d: DrawingView) -> (DrawingView, EffectView) {
    match d {
        DrawingView::FreehandDraw { points } => (DrawingView::Idle, commit_stroke(points)),
        DrawingView::TextInput { x, y, text } => (DrawingView::Idle, commit_text(x, y, text)),
        _ => (d, EffectView::Nothing),
    }
}

/// Leaving for Normal mode commits a stroke in progress and text being typed,
/// and drops any other drawing in progress.
pub open spec fn exit_step(d: DrawingView) -> (DrawingView, EffectView) {
    match d {
        DrawingView::FreehandDraw { points } => (DrawingView::Idle, commit_stroke(points)),
        DrawingView::TextInput { x, y, text } => (DrawingView::Idle, commit_text(x, y, text)),
        _ => (DrawingView::Idle, EffectView::Nothing),
    }
}

/// The vim create key with the cursor at `at`: a shape of the default size
/// there; a text input there; a line started there, or finished there when
/// one is placed; a stroke started there, or committed when one of two or
/// more points is in progress.
pub open spec fn create_at_step(tool: Tool, d: DrawingView, at: Point) -> (DrawingView, EffectView) {
    match tool {
        Tool::Rectangle => (d, EffectView::CreateShapeAt { kind: ElementKind::Rectangle, center: at }),
        Tool::Ellipse => (d, EffectView::CreateShapeAt { kind: ElementKind::Ellipse, center: at }),
        Tool::Text => (DrawingView::TextInput { x: at.x, y: at.y, text: Seq::empty() }, EffectView::Nothing),
        Tool::Arrow | Tool::Line => match d {
            DrawingView::LinePlacement { points } => if points.len() > 0 {
                (DrawingView::Idle, EffectView::CreateLine { kind: line_kind(tool), points: points.push(at) })
            } else {
                (DrawingView::LinePlacement { points: seq![at] }, EffectView::Nothing)
            },
            _ => (DrawingView::LinePlacement { points: seq![at] }, EffectView::Nothing),
        },
        Tool::Freehand => match d {
            DrawingView::FreehandDraw { points } => if points.len() >= 2 {
                (DrawingView::Idle, EffectView::CreateFreehand { points })
            } else {
                (DrawingView::FreehandDraw { points: seq![at] }, EffectView::Nothing)
            },
            _ => (DrawingView::FreehandDraw { points: seq![at] }, EffectView::Nothing),
        },
        Tool::Select => (d, EffectView::Nothing),
    }
}

/// Handles tool interactions on the canvas.
pub struct ToolHandler {
    pub drawing: DrawingState,
}

fn take_drawing(d: &mut DrawingState) -> (r: DrawingState)
    ensures
        r@ == old(d)@,
        final(d)@ == DrawingView::Idle,
{
    let mut r = DrawingState::Idle;
    std::mem::swap(&mut r, d);
    r
}

impl ToolHandler {
    /// Nothing in progress.
    pub fn new() -> (h: Self)
        ensures
            h.drawing@ == DrawingView::Idle,
    {
        ToolHandler { drawing: DrawingState::Idle }
    }

    /// Handles a mouse press at world position `at`.
    pub fn on_mouse_down(&mut self, mode: VimMode, tool: Tool, at: Point) -> (eff: ToolEffect)
        ensures
            (final(self).drawing@, eff@) == mouse_down_step(mode, tool, old(self).drawing@, at),
    {
        match mode {
            VimMode::Normal => {
                if tool == Tool::Select {
                    ToolEffect::SelectAt(at)
                } else {
                    ToolEffect::Nothing
                }
            },
            VimMode::Insert => match tool {
                Tool::Rectangle | Tool::Ellipse => {
                    self.drawing = DrawingState::ShapeDrag { start_x: at.x, start_y: at.y };
                    ToolEffect::Nothing
                },
                Tool::Arrow | Tool::Line => {
                    let d = take_drawing(&mut self.drawing);
                    match d {
                        DrawingState::LinePlacement { mut points } => {
                            points.push(at);
                            let kind = if tool == Tool::Arrow {
                                ElementKind::Arrow
                            } else {
                                ElementKind::Line
                            };
                            ToolEffect::CreateLine { kind, points }
                        },
                        _ => {
                            let mut points = Vec::new();
                            points.push(at);
                            assert(points@ =~= seq![at]);
                            self.drawing = DrawingState::LinePlacement { points };
                            ToolEffect::Nothing
                        },
                    }
                },
                Tool::Text => {
                    let d = take_drawing(&mut self.drawing);
                    self.drawing = DrawingState::TextInput { x: at.x, y: at.y, text: String::new() };
                    match d {
                        DrawingState::TextInput { x, y, text } => {
                            if text.unicode_len() > 0 {
                                ToolEffect::CreateText { x, y, text }
                            } else {
                                ToolEffect::Nothing
                            }
                        },
                        _ => ToolEffect::Nothing,
                    }
                },
                Tool::Freehand => {
                    let mut points = Vec::new();
                    points.push(at);
                    assert(points@ =~= seq![at]);
                    self.drawing = DrawingState::FreehandDraw { points };
                    ToolEffect::Nothing
                },
                Tool::Select => ToolEffect::SelectAt(at),
            },
            _ => ToolEffect::Nothing,
        }
    }

    /// Handles a mouse move to world position `at`; also what a vim cursor
    /// move does to the drawing.
    pub fn on_mouse_move(&mut self, at: Point)
        ensures
            final(self).drawing@ == move_step(old(self).drawing@, at),
    {
        match &mut self.drawing {
            DrawingState::FreehandDraw { points } => {
                points.push(at);
            },
            _ => {},
        }
    }

    /// Handles a mouse release at world position `at`.
    pub fn on_mouse_up(&mut self, tool: Tool, at: Point) -> (eff: ToolEffect)
        ensures
            (final(self).drawing@, eff@) == mouse_up_step(tool, old(self).drawing@, at),
    {
        let d = take_drawing(&mut self.drawing);
        match d {
            DrawingState::ShapeDrag { start_x, start_y } => {
                let kind = if tool == Tool::Ellipse {
                    ElementKind::Ellipse
                } else {
                    ElementKind::Rectangle
                };
                ToolEffect::CreateShape { kind, start: Point { x: start_x, y: start_y }, end: at }
            },
            DrawingState::FreehandDraw { points } => {
                if points.len() >= 2 {
                    ToolEffect::CreateFreehand { points }
                } else {
                    ToolEffect::Nothing
                }
            },
            other => {
                self.drawing = other;
                ToolEffect::Nothing
            },
        }
    }

    /// Handles a key typed during text input.
    pub fn on_text_key(&mut self, key: &str) -> (eff: ToolEffect)
        ensures
            (final(self).drawing@, eff@) == text_key_step(old(self).drawing@, key@),
    {
        let d = take_drawing(&mut self.drawing);
        match d {
            DrawingState::TextInput { x, y, mut text } => {
                if str_eq(key, "Escape") || str_eq(key, "Enter") {
                    if text.unicode_len() > 0 {
                        ToolEffect::CreateText { x, y, text }
                    } else {
                        ToolEffect::Nothing
                    }
                } else {
                    if str_eq(key, "Backspace") {
                        let _ = pop_char(&mut text);
                    } else if key.unicode_len() == 1 && (key.get_char(0) as u32) < 0x80 {
                        push_char(&mut text, key.get_char(0));
                    }
                    self.drawing = DrawingState::TextInput { x, y, text };
                    ToolEffect::Nothing
                }
            },
            other => {
                self.drawing = other;
                ToolEffect::Nothing
            },
        }
    }

    /// What switching tools does to the drawing in progress.
    pub fn on_set_tool(&mut self) -> (eff: ToolEffect)
        ensures
            (final(self).drawing@, eff@) == set_tool_step(old(self).drawing@),
    {
        let d = take_drawing(&mut self.drawing);
        match d {
            DrawingState::FreehandDraw { points } => {
                if points.len() >= 2 {
                    ToolEffect::CreateFreehand { points }
                } else {
                    ToolEffect::Nothing
                }
            },
            DrawingState::TextInput { x, y, text } => {
                if text.unicode_len() > 0 {
                    ToolEffect::CreateText { x, y, text }
                } else {
                    ToolEffect::Nothing
                }
            },
            other => {
                self.drawing = other;
                ToolEffect::Nothing
            },
        }
    }

    /// What leaving for Normal mode does to the drawing in progress.
    pub fn on_exit(&mut self) -> (eff: ToolEffect)
        ensures
            (final(self).drawing@, eff@) == exit_step(old(self).drawing@),
    {
        let d = take_drawing(&mut self.drawing);
        match d {
            DrawingState::FreehandDraw { points } => {
                if points.len() >= 2 {
                    ToolEffect::CreateFreehand { points }
                } else {
                    ToolEffect::Nothing
                }
            },
            DrawingState::TextInput { x, y, text } => {
                if text.unicode_len() > 0 {
                    ToolEffect::CreateText { x, y, text }
                } else {
                    ToolEffect::Nothing
                }
            },
            _ => ToolEffect::Nothing,
        }
    }

    /// What the vim create key does with the tool `tool` and the vim cursor
    /// at `at`.
    pub fn on_create_at(&mut self, tool: Tool, at: Point) -> (eff: ToolEffect)
        ensures
            (final(self).drawing@, eff@) == create_at_step(tool, old(self).drawing@, at),
    {
        match tool {
            Tool::Rectangle => ToolEffect::CreateShapeAt { kind: ElementKind::Rectangle, center: at },
            Tool::Ellipse => ToolEffect::CreateShapeAt { kind: ElementKind::Ellipse, center: at },
            Tool::Text => {
                self.drawing = DrawingState::TextInput { x: at.x, y: at.y, text: String::new() };
                ToolEffect::Nothing
            },
            Tool::Arrow | Tool::Line => {
                let d = take_drawing(&mut self.drawing);
                match d {
                    DrawingState::LinePlacement { mut points } if points.len() > 0 => {
                        points.push(at);
                        let kind = if tool == Tool::Arrow {
                            ElementKind::Arrow
                        } else {
                            ElementKind::Line
                        };
                        ToolEffect::CreateLine { kind, points }
                    },
                    _ => {
                        let mut points = Vec::new();
                        points.push(at);
                        assert(points@ =~= seq![at]);
                        self.drawing = DrawingState::LinePlacement { points };
                        ToolEffect::Nothing
                    },
                }
            },
            Tool::Freehand => {
                let d = take_drawing(&mut self.drawing);
                match d {
                    DrawingState::FreehandDraw { points } if points.len() >= 2 => {
                        ToolEffect::CreateFreehand { points }
                    },
                    _ => {
                        let mut points = Vec::new();
                        points.push(at);
                        assert(points@ =~= seq![at]);
                        self.drawing = DrawingState::FreehandDraw { points };
                        ToolEffect::Nothing
                    },
                }
            },
            Tool::Select => ToolEffect::Nothing,
        }
    }
}

/// In Insert mode with a line tool, two presses place a line: the first
/// starts it (unless one is already being placed), the second ends it, and a
/// line of the tool's kind through exactly the two points is created.
pub proof fn law_two_presses_make_a_line(tool: Tool, d: DrawingView, p: Point, q: Point)
    requires
        tool == Tool::Line || tool == Tool::Arrow,
        !(d is LinePlacement),
    ensures
        ({
            let (d1, e1) = mouse_down_step(VimMode::Insert, tool, d, p);
            let (d2, e2) = mouse_down_step(VimMode::Insert, tool, d1, q);
            &&& e1 == EffectView::Nothing
            &&& d2 == DrawingView::Idle
            &&& e2 == EffectView::CreateLine { kind: line_kind(tool), points: seq![p, q] }
        }),
{
    assert(seq![p].push(q) =~= seq![p, q]);
}

/// In Insert mode with a shape tool, a press and a release ask for a shape of
/// the tool's kind spanning the two points, and end the drag.
pub proof fn law_drag_makes_a_shape(tool: Tool, d: DrawingView, p: Point, q: Point)
    requires
        tool == Tool::Rectangle || tool == Tool::Ellipse,
    ensures
        ({
            let (d1, e1) = mouse_down_step(VimMode::Insert, tool, d, p);
            let (d2, e2) = mouse_up_step(tool, d1, q);
            &&& e1 == EffectView::Nothing
            &&& d2 == DrawingView::Idle
            &&& e2 == EffectView::CreateShape {
                kind: if tool == Tool::Ellipse { ElementKind::Ellipse } else { ElementKind::Rectangle },
                start: p,
                end: q,
            }
        }),
{
}

/// The drawing after a freehand press at `p` and moves through `ms`.
pub open spec fn stroke_after(d: DrawingView, ms: Seq<Point>) -> DrawingView
    decreases ms.len(),
{
    if ms.len() == 0 {
        d
    } else {
        move_step(stroke_after(d, ms.drop_last()), ms.last())
    }
}

/// In Insert mode with the freehand tool, a press at `p`, moves through `ms`
/// and a release create a stroke through `p` and the points moved through,
/// in order, when there was at least one move; with none, nothing is
/// created. Either way the stroke ends.
pub proof fn law_stroke_follows_the_mouse(d: DrawingView, p: Point, ms: Seq<Point>, q: Point)
    ensures
        ({
            let (d1, _e1) = mouse_down_step(VimMode::Insert, Tool::Freehand, d, p);
            let (d2, e2) = mouse_up_step(Tool::Freehand, stroke_after(d1, ms), q);
            &&& d2 == DrawingView::Idle
            &&& e2 == (if ms.len() >= 1 {
                EffectView::CreateFreehand { points: seq![p] + ms }
            } else {
                EffectView::Nothing
            })
        }),
{
    lemma_stroke_after(p, ms);
}

proof fn lemma_stroke_after(p: Point, ms: Seq<Point>)
    ensures
        stroke_after(DrawingView::FreehandDraw { points: seq![p] }, ms) == (DrawingView::FreehandDraw {
            points: seq![p] + ms,
        }),
    decreases ms.len(),
{
    if ms.len() > 0 {
        lemma_stroke_after(p, ms.drop_last());
        assert((seq![p] + ms.drop_last()).push(ms.last()) =~= seq![p] + ms);
    }
}

/// Leaving for Normal mode always ends the drawing in progress.
pub proof fn law_exit_ends_drawing(d: DrawingView)
    ensures
        exit_step(d).0 == DrawingView::Idle,
{
}

/// Text being typed is never lost to a tool switch or to leaving for Normal
/// mode: either ends the input and creates the text where it was placed,
/// unless it is empty.
pub proof fn law_text_is_committed(x: u64, y: u64, text: Seq<char>)
    ensures
        set_tool_step(DrawingView::TextInput { x, y, text }) == (DrawingView::Idle, commit_text(x, y, text)),
        exit_step(DrawingView::TextInput { x, y, text }) == (DrawingView::Idle, commit_text(x, y, text)),
        text.len() > 0 ==> commit_text(x, y, text) == (EffectView::CreateText { x, y, text }),
{
}

/// No step creates a stroke of fewer than two points or an empty text.
pub proof fn law_no_degenerate_elements(mode: VimMode, tool: Tool, d: DrawingView, at: Point, key: Seq<char>)
    ensures
        mouse_down_step(mode, tool, d, at).1 matches EffectView::CreateText { text, .. } ==> text.len() > 0,
        mouse_up_step(tool, d, at).1 matches EffectView::CreateFreehand { points } ==> points.len() >= 2,
        text_key_step(d, key).1 matches EffectView::CreateText { text, .. } ==> text.len() > 0,
        set_tool_step(d).1 matches EffectView::CreateFreehand { points } ==> points.len() >= 2,
        set_tool_step(d).1 matches EffectView::CreateText { text, .. } ==> text.len() > 0,
        exit_step(d).1 matches EffectView::CreateFreehand { points } ==> points.len() >= 2,
        exit_step(d).1 matches EffectView::CreateText { text, .. } ==> text.len() > 0,
        create_at_step(tool, d, at).1 matches EffectView::CreateFreehand { points } ==> points.len() >= 2,
{
}

/// The vim create key with a shape tool asks for a shape of that tool's kind
/// centred on the cursor, whatever is being drawn, and leaves the drawing as
/// it was: an ellipse for the ellipse tool, a rectangle for the rectangle
/// tool, the same kinds a drag with those tools creates.
pub proof fn law_create_key_shape_kind(d: DrawingView, at: Point, p: Point)
    ensures
        create_at_step(Tool::Ellipse, d, at) == (d, EffectView::CreateShapeAt { kind: ElementKind::Ellipse, center: at }),
        create_at_step(Tool::Rectangle, d, at) == (d, EffectView::CreateShapeAt { kind: ElementKind::Rectangle, center: at }),
        mouse_up_step(Tool::Ellipse, DrawingView::ShapeDrag { start_x: p.x, start_y: p.y }, at).1
            matches EffectView::CreateShape { kind, .. } && kind == ElementKind::Ellipse,
        mouse_up_step(Tool::Rectangle, DrawingView::ShapeDrag { start_x: p.x, start_y: p.y }, at).1
            matches EffectView::CreateShape { kind, .. } && kind == ElementKind::Rectangle,
{
}

/// With a line tool, two presses of the vim create key, at `p` and then at
/// `q`, place a line through exactly those two points, of the tool's own
/// kind (an arrow for the arrow tool, a plain line for the line tool); the
/// same two points pressed with the mouse in Insert mode give the same line.
pub proof fn law_create_key_places_lines(d: DrawingView, p: Point, q: Point)
    requires
        !(d is LinePlacement),
    ensures
        ({
            let (d1, e1) = create_at_step(Tool::Arrow, d, p);
            let (d2, e2) = create_at_step(Tool::Arrow, d1, q);
            &&& e1 == EffectView::Nothing
            &&& d2 == DrawingView::Idle
            &&& e2 == EffectView::CreateLine { kind: ElementKind::Arrow, points: seq![p, q] }
        }),
        ({
            let (d1, e1) = create_at_step(Tool::Line, d, p);
            let (d2, e2) = create_at_step(Tool::Line, d1, q);
            &&& e1 == EffectView::Nothing
            &&& d2 == DrawingView::Idle
            &&& e2 == EffectView::CreateLine { kind: ElementKind::Line, points: seq![p, q] }
        }),
        mouse_down_step(VimMode::Insert, Tool::Arrow, mouse_down_step(VimMode::Insert, Tool::Arrow, d, p).0, q).1
            == (EffectView::CreateLine { kind: ElementKind::Arrow, points: seq![p, q] }),
        mouse_down_step(VimMode::Insert, Tool::Line, mouse_down_step(VimMode::Insert, Tool::Line, d, p).0, q).1
            == (EffectView::CreateLine { kind: ElementKind::Line, points: seq![p, q] }),
{
    assert(seq![p].push(q) =~= seq![p, q]);
}

/// With the freehand tool, the vim create key starts a stroke at the cursor;
/// cursor moves extend it, and a second press commits it, through the start
/// and every point moved through in order, once it has two points.
pub proof fn law_create_key_draws_strokes(d: DrawingView, p: Point, m: Point, q: Point)
    requires
        !(d is FreehandDraw),
    ensures
        ({
            let (d1, e1) = create_at_step(Tool::Freehand, d, p);
            let d2 = move_step(d1, m);
            let (d3, e3) = create_at_step(Tool::Freehand, d2, q);
            &&& e1 == EffectView::Nothing
            &&& d1 == (DrawingView::FreehandDraw { points: seq![p] })
            &&& d3 == DrawingView::Idle
            &&& e3 == EffectView::CreateFreehand { points: seq![p, m] }
        }),
{
    assert(seq![p].push(m) =~= seq![p, m]);
}

} // verus!
