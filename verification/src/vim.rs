use vstd::prelude::*;
use vstd::string::*;

use crate::text::{is_single_byte, one_byte_chars, pop_char, push_char, str_eq};
use crate::types::{Tool, VimMode};

verus! {

/// What a key press asks the application to do.
///
/// Movement deltas are whole pixels in world coordinates.
#[derive(Debug, PartialEq)]
pub enum VimAction {
    Nothing,
    SetTool(Tool),
    MoveSelected(i32, i32),
    MoveCursor(i32, i32),
    SelectAtCursor,
    DeleteSelected,
    CopySelected,
    Paste,
    Undo,
    Redo,
    EnterCommand,
    EnterVisual,
    ExitToNormal,
    CommandChar(char),
    CommandSubmit(String),
    CommandBackspace,
    ToggleHelp,
    CreateAtCenter,
    SelectNext,
    ZoomIn,
    ZoomOut,
}

/// The mathematical value of a [`VimAction`]: the submitted command as characters.
pub enum ActionView {
    Nothing,
    SetTool(Tool),
    MoveSelected(i32, i32),
    MoveCursor(i32, i32),
    SelectAtCursor,
    DeleteSelected,
    CopySelected,
    Paste,
    Undo,
    Redo,
    EnterCommand,
    EnterVisual,
    ExitToNormal,
    CommandChar(char),
    CommandSubmit(Seq<char>),
    CommandBackspace,
    ToggleHelp,
    CreateAtCenter,
    SelectNext,
    ZoomIn,
    ZoomOut,
}

impl View for VimAction {
    type V = ActionView;

    open spec fn view(&self) -> ActionView {
        match self {
            VimAction::Nothing => ActionView::Nothing,
            VimAction::SetTool(t) => ActionView::SetTool(*t),
            VimAction::MoveSelected(dx, dy) => ActionView::MoveSelected(*dx, *dy),
            VimAction::MoveCursor(dx, dy) => ActionView::MoveCursor(*dx, *dy),
            VimAction::SelectAtCursor => ActionView::SelectAtCursor,
            VimAction::DeleteSelected => ActionView::DeleteSelected,
            VimAction::CopySelected => ActionView::CopySelected,
            VimAction::Paste => ActionView::Paste,
            VimAction::Undo => ActionView::Undo,
            VimAction::Redo => ActionView::Redo,
            VimAction::EnterCommand => ActionView::EnterCommand,
            VimAction::EnterVisual => ActionView::EnterVisual,
            VimAction::ExitToNormal => ActionView::ExitToNormal,
            VimAction::CommandChar(c) => ActionView::CommandChar(*c),
            VimAction::CommandSubmit(s) => ActionView::CommandSubmit(s@),
            VimAction::CommandBackspace => ActionView::CommandBackspace,
            VimAction::ToggleHelp => ActionView::ToggleHelp,
            VimAction::CreateAtCenter => ActionView::CreateAtCenter,
            VimAction::SelectNext => ActionView::SelectNext,
            VimAction::ZoomIn => ActionView::ZoomIn,
            VimAction::ZoomOut => ActionView::ZoomOut,
        }
    }
}

/// The abstract state of the key handler.
pub struct VimView {
    pub mode: VimMode,
    pub key_buffer: Seq<char>,
    pub command_buffer: Seq<char>,
}

/// Lower-cases an ASCII letter; every other character is kept.
pub open spec fn ascii_lower(c: char) -> char {
    if 'A' <= c && c <= 'Z' {
        ((c as u32) + 32) as char
    } else {
        c
    }
}

/// A one-character key whose ASCII lower case is one of `h`, `j`, `k`, `l`.
pub open spec fn is_hjkl(key: Seq<char>) -> bool {
    key.len() == 1 && (ascii_lower(key[0]) == 'h' || ascii_lower(key[0]) == 'j'
        || ascii_lower(key[0]) == 'k' || ascii_lower(key[0]) == 'l')
}

/// The direction of an `hjkl` key, scaled by `step`.
pub open spec fn hjkl_delta(c: char, step: i32) -> (i32, i32) {
    if c == 'h' {
        ((-step) as i32, 0i32)
    } else if c == 'j' {
        (0i32, step)
    } else if c == 'k' {
        (0i32, (-step) as i32)
    } else {
        (step, 0i32)
    }
}

/// The state with the pending key sequence cleared.
pub open spec fn cleared(s: VimView) -> VimView {
    VimView { key_buffer: Seq::empty(), ..s }
}

/// The state with the pending key sequence cleared and the given mode.
pub open spec fn cleared_in(s: VimView, m: VimMode) -> VimView {
    VimView { mode: m, key_buffer: Seq::empty(), ..s }
}

/// One key press in Normal mode.
pub open spec fn normal_step(s: VimView, key: Seq<char>, shift: bool, ctrl: bool) -> (VimView, ActionView) {
    if ctrl && (key == "r"@ || key == "R"@) {
        (cleared(s), ActionView::Redo)
    } else if !ctrl && is_hjkl(key) {
        let c = ascii_lower(key[0]);
        if shift {
            let d = hjkl_delta(c, 10);
            (cleared(s), ActionView::MoveSelected(d.0, d.1))
        } else {
            let d = hjkl_delta(c, 20);
            (cleared(s), ActionView::MoveCursor(d.0, d.1))
        }
    } else if key == " "@ {
        (cleared(s), ActionView::SelectAtCursor)
    } else if key == "r"@ {
        (cleared_in(s, VimMode::Insert), ActionView::SetTool(Tool::Rectangle))
    } else if key == "e"@ {
        (cleared_in(s, VimMode::Insert), ActionView::SetTool(Tool::Ellipse))
    } else if key == "a"@ {
        (cleared_in(s, VimMode::Insert), ActionView::SetTool(Tool::Arrow))
    } else if key == "t"@ {
        (cleared_in(s, VimMode::Insert), ActionView::SetTool(Tool::Text))
    } else if key == "f"@ {
        (cleared_in(s, VimMode::Insert), ActionView::SetTool(Tool::Freehand))
    } else if key == "d"@ {
        if s.key_buffer == "d"@ {
            (cleared(s), ActionView::DeleteSelected)
        } else {
            (VimView { key_buffer: "d"@, ..s }, ActionView::Nothing)
        }
    } else if key == "y"@ {
        if s.key_buffer == "y"@ {
            (cleared(s), ActionView::CopySelected)
        } else {
            (VimView { key_buffer: "y"@, ..s }, ActionView::Nothing)
        }
    } else if key == "p"@ {
        (cleared(s), ActionView::Paste)
    } else if key == "u"@ {
        (cleared(s), ActionView::Undo)
    } else if key == "v"@ {
        (cleared_in(s, VimMode::Visual), ActionView::EnterVisual)
    } else if key == ":"@ {
        (
            VimView { mode: VimMode::Command, key_buffer: Seq::empty(), command_buffer: Seq::empty() },
            ActionView::EnterCommand,
        )
    } else if key == "Tab"@ {
        (cleared(s), ActionView::SelectNext)
    } else if key == "+"@ || key == "="@ {
        (cleared(s), ActionView::ZoomIn)
    } else if key == "-"@ {
        (cleared(s), ActionView::ZoomOut)
    } else if key == "?"@ {
        (s, ActionView::ToggleHelp)
    } else if key == "Escape"@ {
        (cleared(s), ActionView::ExitToNormal)
    } else {
        (s, ActionView::Nothing)
    }
}

/// One key press in Insert mode.
pub open spec fn insert_step(s: VimView, key: Seq<char>) -> (VimView, ActionView) {
    if key == "Escape"@ {
        (VimView { mode: VimMode::Normal, ..s }, ActionView::SetTool(Tool::Select))
    } else if key == "Enter"@ {
        (s, ActionView::CreateAtCenter)
    } else {
        (s, ActionView::Nothing)
    }
}

/// One key press in Visual mode: `hjkl` move by 10 pixels, or by 1 with shift.
pub open spec fn visual_step(s: VimView, key: Seq<char>, shift: bool) -> (VimView, ActionView) {
    let step: i32 = if shift { 1 } else { 10 };
    if key == "h"@ {
        (s, ActionView::MoveSelected((-step) as i32, 0))
    } else if key == "j"@ {
        (s, ActionView::MoveSelected(0, step))
    } else if key == "k"@ {
        (s, ActionView::MoveSelected(0, (-step) as i32))
    } else if key == "l"@ {
        (s, ActionView::MoveSelected(step, 0))
    } else if key == "d"@ {
        (VimView { mode: VimMode::Normal, ..s }, ActionView::DeleteSelected)
    } else if key == "y"@ {
        (VimView { mode: VimMode::Normal, ..s }, ActionView::CopySelected)
    } else if key == "Escape"@ {
        (VimView { mode: VimMode::Normal, ..s }, ActionView::ExitToNormal)
    } else {
        (s, ActionView::Nothing)
    }
}

/// One key press in Command mode: single-byte keys are typed into the command line.
pub open spec fn command_step(s: VimView, key: Seq<char>) -> (VimView, ActionView) {
    if key == "Escape"@ {
        (
            VimView { mode: VimMode::Normal, command_buffer: Seq::empty(), ..s },
            ActionView::ExitToNormal,
        )
    } else if key == "Enter"@ {
        (
            VimView { mode: VimMode::Normal, command_buffer: Seq::empty(), ..s },
            ActionView::CommandSubmit(s.command_buffer),
        )
    } else if key == "Backspace"@ {
        let cb = if s.command_buffer.len() > 0 {
            s.command_buffer.drop_last()
        } else {
            s.command_buffer
        };
        (VimView { command_buffer: cb, ..s }, ActionView::CommandBackspace)
    } else if is_single_byte(key) {
        (
            VimView { command_buffer: s.command_buffer.push(key[0]), ..s },
            ActionView::CommandChar(key[0]),
        )
    } else {
        (s, ActionView::Nothing)
    }
}

/// One key press: the next state and the action it asks for.
pub open spec fn step(s: VimView, key: Seq<char>, shift: bool, ctrl: bool) -> (VimView, ActionView) {
    match s.mode {
        VimMode::Normal => normal_step(s, key, shift, ctrl),
        VimMode::Insert => insert_step(s, key),
        VimMode::Visual => visual_step(s, key, shift),
        VimMode::Command => command_step(s, key),
    }
}

/// In Visual mode `h`, `j`, `k` and `l` move the selection left, down, up
/// and right (screen coordinates grow downwards) by 10 pixels, or by 1 with
/// shift, and change nothing else: the four moves are the four unit
/// directions scaled by the same step, `j` undoing `k` and `h` undoing `l`.
pub proof fn law_visual_hjkl_directions(s: VimView, shift: bool, ctrl: bool)
    requires
        s.mode == VimMode::Visual,
    ensures
        ({
            let st: int = if shift { 1 } else { 10 };
            &&& step(s, "h"@, shift, ctrl) == (s, ActionView::MoveSelected((-st) as i32, 0))
            &&& step(s, "j"@, shift, ctrl) == (s, ActionView::MoveSelected(0, st as i32))
            &&& step(s, "k"@, shift, ctrl) == (s, ActionView::MoveSelected(0, (-st) as i32))
            &&& step(s, "l"@, shift, ctrl) == (s, ActionView::MoveSelected(st as i32, 0))
        }),
        step(s, "j"@, shift, ctrl).1 matches ActionView::MoveSelected(jx, jy) && step(s, "k"@, shift, ctrl).1 matches ActionView::MoveSelected(kx, ky)
            && jx == 0 && kx == 0 && jy > 0 && jy == -ky,
        step(s, "l"@, shift, ctrl).1 matches ActionView::MoveSelected(lx, ly) && step(s, "h"@, shift, ctrl).1 matches ActionView::MoveSelected(hx, hy)
            && ly == 0 && hy == 0 && lx > 0 && lx == -hx,
{
    reveal_strlit("h");
    reveal_strlit("j");
    reveal_strlit("k");
    reveal_strlit("l");
    assert("h"@ =~= seq!['h']);
    assert("j"@ =~= seq!['j']);
    assert("k"@ =~= seq!['k']);
    assert("l"@ =~= seq!['l']);
    assert("j"@[0] != "h"@[0]);
    assert("k"@[0] != "h"@[0] && "k"@[0] != "j"@[0]);
    assert("l"@[0] != "h"@[0] && "l"@[0] != "j"@[0] && "l"@[0] != "k"@[0]);
}

/// In Normal mode, without ctrl, `h`, `j`, `k` and `l` (in either case) move
/// the vim cursor left, down, up and right by 20 pixels, or, with shift, the
/// selection by 10, and clear the pending keys.
pub proof fn law_normal_hjkl_directions(s: VimView, shift: bool)
    requires
        s.mode == VimMode::Normal,
    ensures
        forall|c: char, d: char| #![trigger ascii_lower(c), seq![d]]
            ascii_lower(c) == d && (d == 'h' || d == 'j' || d == 'k' || d == 'l') ==> {
                let dx: int = if d == 'h' { -1 } else if d == 'l' { 1 } else { 0 };
                let dy: int = if d == 'k' { -1 } else if d == 'j' { 1 } else { 0 };
                step(s, seq![c], shift, false) == (
                    VimView { key_buffer: Seq::empty(), ..s },
                    if shift {
                        ActionView::MoveSelected((10 * dx) as i32, (10 * dy) as i32)
                    } else {
                        ActionView::MoveCursor((20 * dx) as i32, (20 * dy) as i32)
                    },
                )
            },
{
    reveal_strlit("r");
    reveal_strlit("R");
    assert forall|c: char, d: char| #![trigger ascii_lower(c), seq![d]]
        ascii_lower(c) == d && (d == 'h' || d == 'j' || d == 'k' || d == 'l') implies {
            let dx: int = if d == 'h' { -1 } else if d == 'l' { 1 } else { 0 };
            let dy: int = if d == 'k' { -1 } else if d == 'j' { 1 } else { 0 };
            step(s, seq![c], shift, false) == (
                VimView { key_buffer: Seq::empty(), ..s },
                if shift {
                    ActionView::MoveSelected((10 * dx) as i32, (10 * dy) as i32)
                } else {
                    ActionView::MoveCursor((20 * dx) as i32, (20 * dy) as i32)
                },
            )
        } by {
        assert(seq![c].len() == 1 && seq![c][0] == c);
        assert(is_hjkl(seq![c]));
    }
}

/// The state a fresh key handler starts in.
pub open spec fn initial_view() -> VimView {
    VimView { mode: VimMode::Normal, key_buffer: Seq::empty(), command_buffer: Seq::empty() }
}

/// The names of the keys the handler knows, spelled out.
pub proof fn lemma_key_names()
    ensures
        "Escape"@ =~= seq!['E', 's', 'c', 'a', 'p', 'e'],
        "Enter"@ =~= seq!['E', 'n', 't', 'e', 'r'],
        "Backspace"@ =~= seq!['B', 'a', 'c', 'k', 's', 'p', 'a', 'c', 'e'],
        "Tab"@ =~= seq!['T', 'a', 'b'],
        "r"@ =~= seq!['r'],
        "R"@ =~= seq!['R'],
        " "@ =~= seq![' '],
        "e"@ =~= seq!['e'],
        "a"@ =~= seq!['a'],
        "t"@ =~= seq!['t'],
        "f"@ =~= seq!['f'],
        "d"@ =~= seq!['d'],
        "y"@ =~= seq!['y'],
        "p"@ =~= seq!['p'],
        "u"@ =~= seq!['u'],
        "v"@ =~= seq!['v'],
        ":"@ =~= seq![':'],
        "+"@ =~= seq!['+'],
        "="@ =~= seq!['='],
        "-"@ =~= seq!['-'],
        "?"@ =~= seq!['?'],
        "h"@ =~= seq!['h'],
        "j"@ =~= seq!['j'],
        "k"@ =~= seq!['k'],
        "l"@ =~= seq!['l'],
{
    reveal_strlit("Escape");
    reveal_strlit("Enter");
    reveal_strlit("Backspace");
    reveal_strlit("Tab");
    reveal_strlit("r");
    reveal_strlit("R");
    reveal_strlit(" ");
    reveal_strlit("e");
    reveal_strlit("a");
    reveal_strlit("t");
    reveal_strlit("f");
    reveal_strlit("d");
    reveal_strlit("y");
    reveal_strlit("p");
    reveal_strlit("u");
    reveal_strlit("v");
    reveal_strlit(":");
    reveal_strlit("+");
    reveal_strlit("=");
    reveal_strlit("-");
    reveal_strlit("?");
    reveal_strlit("h");
    reveal_strlit("j");
    reveal_strlit("k");
    reveal_strlit("l");
}

/// What every reachable state of the handler satisfies: the pending key
/// sequence is empty, `d` or `y`, and only Normal mode has one; only Command
/// mode has a command line, and it holds ASCII characters only.
pub open spec fn vim_inv(s: VimView) -> bool {
    &&& (s.key_buffer.len() == 0 || s.key_buffer == "d"@ || s.key_buffer == "y"@)
    &&& s.mode != VimMode::Normal ==> s.key_buffer.len() == 0
    &&& s.mode != VimMode::Command ==> s.command_buffer.len() == 0
    &&& one_byte_chars(s.command_buffer)
}

/// A fresh handler satisfies the state invariant.
pub proof fn lemma_initial_inv()
    ensures
        vim_inv(initial_view()),
{
}

/// Every key press keeps the state invariant.
pub proof fn lemma_step_preserves_inv(s: VimView, key: Seq<char>, shift: bool, ctrl: bool)
    requires
        vim_inv(s),
    ensures
        vim_inv(step(s, key, shift, ctrl).0),
{
    lemma_key_names();
    let t = step(s, key, shift, ctrl).0;
    if s.mode == VimMode::Command && key != "Escape"@ && key != "Enter"@ && key != "Backspace"@ && is_single_byte(key) {
        let cb = s.command_buffer.push(key[0]);
        assert forall|i: int| 0 <= i < cb.len() implies (#[trigger] cb[i] as u32) < 0x80 by {
            if i < s.command_buffer.len() {
                assert(cb[i] == s.command_buffer[i]);
            }
        }
    }
    if s.mode == VimMode::Command && key == "Backspace"@ && s.command_buffer.len() > 0 {
        let cb = s.command_buffer.drop_last();
        assert forall|i: int| 0 <= i < cb.len() implies (#[trigger] cb[i] as u32) < 0x80 by {
            assert(cb[i] == s.command_buffer[i]);
        }
    }
}

/// Escape, in any mode, brings the handler back to its initial state:
/// Normal mode, nothing pending, no command line.
pub proof fn lemma_escape_resets(s: VimView, shift: bool, ctrl: bool)
    requires
        vim_inv(s),
    ensures
        step(s, "Escape"@, shift, ctrl).0 == initial_view(),
{
    lemma_key_names();
    assert(s.mode == VimMode::Normal ==> s.command_buffer =~= Seq::<char>::empty());
    assert(s.mode != VimMode::Normal ==> s.key_buffer =~= Seq::<char>::empty());
    assert(s.mode != VimMode::Command ==> s.command_buffer =~= Seq::<char>::empty());
}

/// `dd` in Normal mode with nothing pending: the first `d` waits, the second deletes.
pub proof fn lemma_dd_deletes(s: VimView, shift: bool, ctrl: bool, shift2: bool, ctrl2: bool)
    requires
        s.mode == VimMode::Normal,
        s.key_buffer.len() == 0,
    ensures
        step(s, "d"@, shift, ctrl).1 == ActionView::Nothing,
        step(step(s, "d"@, shift, ctrl).0, "d"@, shift2, ctrl2).1 == ActionView::DeleteSelected,
        step(step(s, "d"@, shift, ctrl).0, "d"@, shift2, ctrl2).0 == cleared(s),
{
    lemma_key_names();
    assert(s.key_buffer != "d"@);
}

/// `yy` in Normal mode with nothing pending: the first `y` waits, the second copies.
pub proof fn lemma_yy_copies(s: VimView, shift: bool, ctrl: bool, shift2: bool, ctrl2: bool)
    requires
        s.mode == VimMode::Normal,
        s.key_buffer.len() == 0,
    ensures
        step(s, "y"@, shift, ctrl).1 == ActionView::Nothing,
        step(step(s, "y"@, shift, ctrl).0, "y"@, shift2, ctrl2).1 == ActionView::CopySelected,
        step(step(s, "y"@, shift, ctrl).0, "y"@, shift2, ctrl2).0 == cleared(s),
{
    lemma_key_names();
    assert(s.key_buffer != "y"@);
}

/// In Command mode, Backspace undoes typing a single-byte key.
pub proof fn lemma_backspace_undoes_typing(s: VimView, key: Seq<char>, shift: bool, ctrl: bool, shift2: bool, ctrl2: bool)
    requires
        s.mode == VimMode::Command,
        is_single_byte(key),
    ensures
        step(s, key, shift, ctrl).1 == ActionView::CommandChar(key[0]),
        step(step(s, key, shift, ctrl).0, "Backspace"@, shift2, ctrl2).0 == s,
{
    lemma_key_names();
    assert(s.command_buffer.push(key[0]).drop_last() =~= s.command_buffer);
}

/// Typing `:`, then a single-byte key, then Enter submits that one-character
/// command and leaves the handler as it was, with nothing pending.
pub proof fn lemma_colon_key_enter_submits(s: VimView, key: Seq<char>, shift: bool, ctrl: bool)
    requires
        vim_inv(s),
        s.mode == VimMode::Normal,
        is_single_byte(key),
    ensures
        ({
            let s1 = step(s, ":"@, shift, ctrl).0;
            let s2 = step(s1, key, shift, ctrl).0;
            let (s3, a) = step(s2, "Enter"@, shift, ctrl);
            &&& s1.mode == VimMode::Command
            &&& a == ActionView::CommandSubmit(seq![key[0]])
            &&& s3 == initial_view()
        }),
{
    lemma_key_names();
    assert(Seq::<char>::empty().push(key[0]) =~= seq![key[0]]);
}

/// A command-line key press never changes what is pending in Normal mode, and
/// Enter in Command mode submits exactly the command line typed so far.
pub proof fn lemma_enter_submits_command_line(s: VimView, shift: bool, ctrl: bool)
    requires
        s.mode == VimMode::Command,
    ensures
        step(s, "Enter"@, shift, ctrl).1 == ActionView::CommandSubmit(s.command_buffer),
        step(s, "Enter"@, shift, ctrl).0.mode == VimMode::Normal,
        step(s, "Enter"@, shift, ctrl).0.command_buffer.len() == 0,
{
    lemma_key_names();
}

/// The vim-style modal key handler.
pub struct VimStateMachine {
    mode: VimMode,
    key_buffer: String,
    command_buffer: String,
}

impl View for VimStateMachine {
    type V = VimView;

    closed spec fn view(&self) -> VimView {
        VimView { mode: self.mode, key_buffer: self.key_buffer@, command_buffer: self.command_buffer@ }
    }
}

/// Whether a one-character key is one of `h`, `j`, `k`, `l` in either case.
fn hjkl_key(key: &str) -> (r: Option<char>)
    ensures
        r is Some <==> is_hjkl(key@),
        r matches Some(c) ==> c == ascii_lower(key@[0]),
{
    if key.unicode_len() != 1 {
        return None;
    }
    let c = key.get_char(0);
    let lower = if c == 'H' {
        'h'
    } else if c == 'J' {
        'j'
    } else if c == 'K' {
        'k'
    } else if c == 'L' {
        'l'
    } else {
        c
    };
    proof {
        if 'A' <= c && c <= 'Z' {
            assert(ascii_lower(c) == ((c as u32) + 32) as char);
        }
    }
    if lower == 'h' || lower == 'j' || lower == 'k' || lower == 'l' {
        Some(lower)
    } else {
        proof {
            assert(!is_hjkl(key@)) by {
                if 'A' <= c && c <= 'Z' && c != 'H' && c != 'J' && c != 'K' && c != 'L' {
                    assert(ascii_lower(c) != 'h' && ascii_lower(c) != 'j' && ascii_lower(c) != 'k'
                        && ascii_lower(c) != 'l') by {
                        assert((c as u32) + 32 != 'h' as u32);
                        assert((c as u32) + 32 != 'j' as u32);
                        assert((c as u32) + 32 != 'k' as u32);
                        assert((c as u32) + 32 != 'l' as u32);
                    }
                }
            }
        }
        None
    }
}

fn hjkl_move(c: char, step: i32) -> (d: (i32, i32))
    requires
        0 <= step <= 20,
    ensures
        d == hjkl_delta(c, step),
{
    if c == 'h' {
        (-step, 0)
    } else if c == 'j' {
        (0, step)
    } else if c == 'k' {
        (0, -step)
    } else {
        (step, 0)
    }
}

impl VimStateMachine {
    /// A handler in Normal mode with nothing pending.
    pub fn new() -> (s: Self)
        ensures
            s@ == initial_view(),
    {
        VimStateMachine { mode: VimMode::Normal, key_buffer: String::new(), command_buffer: String::new() }
    }

    /// The current mode.
    pub fn mode(&self) -> (m: VimMode)
        ensures
            m == self@.mode,
    {
        self.mode
    }

    /// The pending Normal-mode key sequence (`""`, `"d"` or `"y"`).
    pub fn key_buffer(&self) -> (s: &str)
        ensures
            s@ == self@.key_buffer,
    {
        self.key_buffer.as_str()
    }

    /// The command line typed so far in Command mode.
    pub fn command_buffer(&self) -> (s: &str)
        ensures
            s@ == self@.command_buffer,
    {
        self.command_buffer.as_str()
    }

    /// Handles one key press (`key` as the browser names it) and returns the action it asks for.
    pub fn handle_key(&mut self, key: &str, shift: bool, ctrl: bool) -> (a: VimAction)
        ensures
            (final(self)@, a@) == step(old(self)@, key@, shift, ctrl),
    {
        match self.mode {
            VimMode::Normal => self.handle_normal(key, shift, ctrl),
            VimMode::Insert => self.handle_insert(key),
            VimMode::Visual => self.handle_visual(key, shift),
            VimMode::Command => self.handle_command(key),
        }
    }

    fn handle_normal(&mut self, key: &str, shift: bool, ctrl: bool) -> (a: VimAction)
        requires
            old(self)@.mode == VimMode::Normal,
        ensures
            (final(self)@, a@) == normal_step(old(self)@, key@, shift, ctrl),
    {
        if ctrl && (str_eq(key, "r") || str_eq(key, "R")) {
            self.key_buffer = String::new();
            return VimAction::Redo;
        }
        if !ctrl {
            if let Some(c) = hjkl_key(key) {
                self.key_buffer = String::new();
                if shift {
                    let d = hjkl_move(c, 10);
                    return VimAction::MoveSelected(d.0, d.1);
                } else {
                    let d = hjkl_move(c, 20);
                    return VimAction::MoveCursor(d.0, d.1);
                }
            }
        }
        if str_eq(key, " ") {
            self.key_buffer = String::new();
            VimAction::SelectAtCursor
        } else if str_eq(key, "r") {
            self.key_buffer = String::new();
            self.mode = VimMode::Insert;
            VimAction::SetTool(Tool::Rectangle)
        } else if str_eq(key, "e") {
            self.key_buffer = String::new();
            self.mode = VimMode::Insert;
            VimAction::SetTool(Tool::Ellipse)
        } else if str_eq(key, "a") {
            self.key_buffer = String::new();
            self.mode = VimMode::Insert;
            VimAction::SetTool(Tool::Arrow)
        } else if str_eq(key, "t") {
            self.key_buffer = String::new();
            self.mode = VimMode::Insert;
            VimAction::SetTool(Tool::Text)
        } else if str_eq(key, "f") {
            self.key_buffer = String::new();
            self.mode = VimMode::Insert;
            VimAction::SetTool(Tool::Freehand)
        } else if str_eq(key, "d") {
            if str_eq(self.key_buffer.as_str(), "d") {
                self.key_buffer = String::new();
                VimAction::DeleteSelected
            } else {
                self.key_buffer = String::from_str("d");
                VimAction::Nothing
            }
        } else if str_eq(key, "y") {
            if str_eq(self.key_buffer.as_str(), "y") {
                self.key_buffer = String::new();
                VimAction::CopySelected
            } else {
                self.key_buffer = String::from_str("y");
                VimAction::Nothing
            }
        } else if str_eq(key, "p") {
            self.key_buffer = String::new();
            VimAction::Paste
        } else if str_eq(key, "u") {
            self.key_buffer = String::new();
            VimAction::Undo
        } else if str_eq(key, "v") {
            self.key_buffer = String::new();
            self.mode = VimMode::Visual;
            VimAction::EnterVisual
        } else if str_eq(key, ":") {
            self.key_buffer = String::new();
            self.command_buffer = String::new();
            self.mode = VimMode::Command;
            VimAction::EnterCommand
        } else if str_eq(key, "Tab") {
            self.key_buffer = String::new();
            VimAction::SelectNext
        } else if str_eq(key, "+") || str_eq(key, "=") {
            self.key_buffer = String::new();
            VimAction::ZoomIn
        } else if str_eq(key, "-") {
            self.key_buffer = String::new();
            VimAction::ZoomOut
        } else if str_eq(key, "?") {
            VimAction::ToggleHelp
        } else if str_eq(key, "Escape") {
            self.key_buffer = String::new();
            VimAction::ExitToNormal
        } else {
            VimAction::Nothing
        }
    }

    fn handle_insert(&mut self, key: &str) -> (a: VimAction)
        requires
            old(self)@.mode == VimMode::Insert,
        ensures
            (final(self)@, a@) == insert_step(old(self)@, key@),
    {
        if str_eq(key, "Escape") {
            self.mode = VimMode::Normal;
            VimAction::SetTool(Tool::Select)
        } else if str_eq(key, "Enter") {
            VimAction::CreateAtCenter
        } else {
            VimAction::Nothing
        }
    }

    fn handle_visual(&mut self, key: &str, shift: bool) -> (a: VimAction)
        requires
            old(self)@.mode == VimMode::Visual,
        ensures
            (final(self)@, a@) == visual_step(old(self)@, key@, shift),
    {
        let step: i32 = if shift { 1 } else { 10 };
        if str_eq(key, "h") {
            VimAction::MoveSelected(-step, 0)
        } else if str_eq(key, "j") {
            VimAction::MoveSelected(0, step)
        } else if str_eq(key, "k") {
            VimAction::MoveSelected(0, -step)
        } else if str_eq(key, "l") {
            VimAction::MoveSelected(step, 0)
        } else if str_eq(key, "d") {
            self.mode = VimMode::Normal;
            VimAction::DeleteSelected
        } else if str_eq(key, "y") {
            self.mode = VimMode::Normal;
            VimAction::CopySelected
        } else if str_eq(key, "Escape") {
            self.mode = VimMode::Normal;
            VimAction::ExitToNormal
        } else {
            VimAction::Nothing
        }
    }

    fn handle_command(&mut self, key: &str) -> (a: VimAction)
        requires
            old(self)@.mode == VimMode::Command,
        ensures
            (final(self)@, a@) == command_step(old(self)@, key@),
    {
        if str_eq(key, "Escape") {
            self.mode = VimMode::Normal;
            self.command_buffer = String::new();
            VimAction::ExitToNormal
        } else if str_eq(key, "Enter") {
            let cmd = self.command_buffer.clone();
            self.command_buffer = String::new();
            self.mode = VimMode::Normal;
            VimAction::CommandSubmit(cmd)
        } else if str_eq(key, "Backspace") {
            let _ = pop_char(&mut self.command_buffer);
            VimAction::CommandBackspace
        } else if key.unicode_len() == 1 && (key.get_char(0) as u32) < 0x80 {
            let ch = key.get_char(0);
            push_char(&mut self.command_buffer, ch);
            VimAction::CommandChar(ch)
        } else {
            VimAction::Nothing
        }
    }
}

} // verus!
