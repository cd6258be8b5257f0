use vstd::prelude::*;

verus! {

/// The shapes an element can take.
#[derive(Clone, Copy, Debug, PartialEq, Eq, Structural)]
pub enum ElementKind {
    Rectangle,
    Ellipse,
    Arrow,
    Line,
    Text,
    Freehand,
}

/// What an undo entry records.
#[derive(Clone, Copy, Debug, PartialEq, Eq, Structural)]
pub enum UndoAction {
    Create,
    Update,
    Delete,
}

/// Modes of the vim-style key handler.
#[derive(Clone, Copy, Debug, PartialEq, Eq, Structural)]
pub enum VimMode {
    Normal,
    Insert,
    Visual,
    Command,
}

/// The active drawing tool.
#[derive(Clone, Copy, Debug, PartialEq, Eq, Structural)]
pub enum Tool {
    Select,
    Rectangle,
    Ellipse,
    Arrow,
    Line,
    Text,
    Freehand,
}

/// Default stroke colour of new elements: opaque white (RGBA packed).
pub const DEFAULT_STROKE_COLOR: u32 = 0xFFFF_FFFFu32;

/// Default fill colour of new elements: fully transparent.
pub const DEFAULT_FILL_COLOR: u32 = 0x0000_0000u32;

/// Default stroke width of new elements, `2.0` as IEEE-754 single-precision bits.
pub const DEFAULT_STROKE_WIDTH_BITS: u32 = 0x4000_0000u32;

/// Default opacity of new elements, `1.0` as IEEE-754 single-precision bits.
pub const DEFAULT_OPACITY_BITS: u32 = 0x3F80_0000u32;

/// Default font size of new elements, `20.0` as IEEE-754 single-precision bits.
pub const DEFAULT_FONT_SIZE_BITS: u32 = 0x41A0_0000u32;

/// The wire tag of an element kind (its declaration index).
pub open spec fn kind_tag(k: ElementKind) -> u8 {
    match k {
        ElementKind::Rectangle => 0,
        ElementKind::Ellipse => 1,
        ElementKind::Arrow => 2,
        ElementKind::Line => 3,
        ElementKind::Text => 4,
        ElementKind::Freehand => 5,
    }
}

/// The element kind a wire tag stands for, if any.
pub open spec fn kind_of_tag(t: u8) -> Option<ElementKind> {
    if t == 0 {
        Some(ElementKind::Rectangle)
    } else if t == 1 {
        Some(ElementKind::Ellipse)
    } else if t == 2 {
        Some(ElementKind::Arrow)
    } else if t == 3 {
        Some(ElementKind::Line)
    } else if t == 4 {
        Some(ElementKind::Text)
    } else if t == 5 {
        Some(ElementKind::Freehand)
    } else {
        None
    }
}

impl ElementKind {
    /// The wire tag of this kind.
    pub fn tag(&self) -> (t: u8)
        ensures
            t == kind_tag(*self),
    {
        match self {
            ElementKind::Rectangle => 0,
            ElementKind::Ellipse => 1,
            ElementKind::Arrow => 2,
            ElementKind::Line => 3,
            ElementKind::Text => 4,
            ElementKind::Freehand => 5,
        }
    }

    /// The kind a wire tag stands for; `None` for a tag past the last kind.
    pub fn from_tag(t: u8) -> (k: Option<ElementKind>)
        ensures
            k == kind_of_tag(t),
    {
        if t == 0 {
            Some(ElementKind::Rectangle)
        } else if t == 1 {
            Some(ElementKind::Ellipse)
        } else if t == 2 {
            Some(ElementKind::Arrow)
        } else if t == 3 {
            Some(ElementKind::Line)
        } else if t == 4 {
            Some(ElementKind::Text)
        } else if t == 5 {
            Some(ElementKind::Freehand)
        } else {
            None
        }
    }
}

/// Decoding a kind's tag gives the kind back.
pub proof fn lemma_kind_tag_round_trip(k: ElementKind)
    ensures
        kind_of_tag(kind_tag(k)) == Some(k),
{
}

/// A tag that decodes to a kind is that kind's tag.
pub proof fn lemma_kind_of_tag_inverse(t: u8)
    ensures
        kind_of_tag(t) matches Some(k) ==> kind_tag(k) == t,
        kind_of_tag(t) is Some <==> t < 6,
{
}

/// The wire tag of an undo action (its declaration index).
pub open spec fn action_tag(a: UndoAction) -> u8 {
    match a {
        UndoAction::Create => 0,
        UndoAction::Update => 1,
        UndoAction::Delete => 2,
    }
}

/// The undo action a wire tag stands for, if any.
pub open spec fn action_of_tag(t: u8) -> Option<UndoAction> {
    if t == 0 {
        Some(UndoAction::Create)
    } else if t == 1 {
        Some(UndoAction::Update)
    } else if t == 2 {
        Some(UndoAction::Delete)
    } else {
        None
    }
}

impl UndoAction {
    /// The wire tag of this action.
    pub fn tag(&self) -> (t: u8)
        ensures
            t == action_tag(*self),
    {
        match self {
            UndoAction::Create => 0,
            UndoAction::Update => 1,
            UndoAction::Delete => 2,
        }
    }

    /// The action a wire tag stands for; `None` for a tag past the last action.
    pub fn from_tag(t: u8) -> (a: Option<UndoAction>)
        ensures
            a == action_of_tag(t),
    {
        if t == 0 {
            Some(UndoAction::Create)
        } else if t == 1 {
            Some(UndoAction::Update)
        } else if t == 2 {
            Some(UndoAction::Delete)
        } else {
            None
        }
    }
}

/// Decoding an action's tag gives the action back, and a tag that decodes is
/// that action's tag.
pub proof fn lemma_action_tag_round_trip(a: UndoAction, t: u8)
    ensures
        action_of_tag(action_tag(a)) == Some(a),
        action_of_tag(t) matches Some(b) ==> action_tag(b) == t,
        action_of_tag(t) is Some <==> t < 3,
{
}

/// The element kinds in the order the server's enum declares them.
pub open spec fn kinds_in_declaration_order() -> Seq<ElementKind> {
    seq![
        ElementKind::Rectangle,
        ElementKind::Ellipse,
        ElementKind::Arrow,
        ElementKind::Line,
        ElementKind::Text,
        ElementKind::Freehand,
    ]
}

/// The wire tag of a kind is its index in the server enum's declaration
/// order, as the derived BSATN encoding makes it: tag `t` below 6 names the
/// `t`-th declared kind (0 Rectangle, 1 Ellipse, 2 Arrow, 3 Line, 4 Text,
/// 5 Freehand), every kind is written as its index, and no other tag names
/// a kind.
pub proof fn law_kind_tags_follow_declaration_order(t: u8, k: ElementKind)
    ensures
        t < 6 ==> kind_of_tag(t) == Some(kinds_in_declaration_order()[t as int]),
        t >= 6 ==> kind_of_tag(t) is None,
        kinds_in_declaration_order()[kind_tag(k) as int] == k,
        kind_tag(k) < 6,
{
}

/// The undo actions in the order the server's enum declares them.
pub open spec fn actions_in_declaration_order() -> Seq<UndoAction> {
    seq![UndoAction::Create, UndoAction::Update, UndoAction::Delete]
}

/// The wire tag of an undo action is its index in the declaration order:
/// 0 Create, 1 Update, 2 Delete.
pub proof fn law_action_tags_follow_declaration_order(t: u8, a: UndoAction)
    ensures
        t < 3 ==> action_of_tag(t) == Some(actions_in_declaration_order()[t as int]),
        t >= 3 ==> action_of_tag(t) is None,
        actions_in_declaration_order()[action_tag(a) as int] == a,
        action_tag(a) < 3,
{
}

} // verus!
