//! The commands typed on the vim command line (`:w`, `:color #hex`, ...).
use vstd::prelude::*;
use vstd::utf8::*;

use crate::color::{
    hex_color_cuts_char, hex_color_would_cut, lemma_strip_hashes_suffix, parse_hex_color,
    spec_parse_hex_color, strip_hashes,
};
use crate::text::{
    is_white_space, lemma_one_byte_encoding, one_byte_chars, split_words, str_eq, words, words_from,
};
use crate::vim::{lemma_key_names, step, vim_inv, ActionView, VimView};

verus! {

/// What a command line asks for.
#[derive(Clone, Debug)]
pub enum Command {
    /// `w`: export the drawing as PNG.
    ExportPng,
    /// `ws`: export the drawing as SVG.
    ExportSvg,
    /// `wq`: export and close.
    ExportAndClose,
    /// `color <hex>` with a valid colour.
    SetStrokeColor(u32),
    /// `fill <hex>` with a valid colour.
    SetFillColor(u32),
    /// `stroke <width>`, with the width as typed.
    SetStrokeWidth(String),
    /// `color` or `fill` with a colour that does not parse: nothing to do.
    Ignored,
    /// Anything else.
    Unknown,
}

/// The mathematical value of a command.
pub enum CommandView {
    ExportPng,
    ExportSvg,
    ExportAndClose,
    SetStrokeColor(u32),
    SetFillColor(u32),
    SetStrokeWidth(Seq<char>),
    Ignored,
    Unknown,
}

impl View for Command {
    type V = CommandView;

    open spec fn view(&self) -> CommandView {
        match self {
            Command::ExportPng => CommandView::ExportPng,
            Command::ExportSvg => CommandView::ExportSvg,
            Command::ExportAndClose => CommandView::ExportAndClose,
            Command::SetStrokeColor(c) => CommandView::SetStrokeColor(*c),
            Command::SetFillColor(c) => CommandView::SetFillColor(*c),
            Command::SetStrokeWidth(w) => CommandView::SetStrokeWidth(w@),
            Command::Ignored => CommandView::Ignored,
            Command::Unknown => CommandView::Unknown,
        }
    }
}

/// The colour text of a word: its bytes after the leading `#`s.
pub open spec fn color_text(w: Seq<char>) -> Seq<u8> {
    strip_hashes(encode_utf8(w))
}

/// The command a command line stands for, going by its white-space separated
/// words.
pub open spec fn spec_parse_command(cmd: Seq<char>) -> CommandView {
    let ws = words(cmd);
    if ws.len() == 1 && ws[0] == "w"@ {
        CommandView::ExportPng
    } else if ws.len() == 1 && ws[0] == "ws"@ {
        CommandView::ExportSvg
    } else if ws.len() == 1 && ws[0] == "wq"@ {
        CommandView::ExportAndClose
    } else if ws.len() == 2 && ws[0] == "color"@ {
        match spec_parse_hex_color(color_text(ws[1])) {
            Some(c) => CommandView::SetStrokeColor(c),
            None => CommandView::Ignored,
        }
    } else if ws.len() == 2 && ws[0] == "fill"@ {
        match spec_parse_hex_color(color_text(ws[1])) {
            Some(c) => CommandView::SetFillColor(c),
            None => CommandView::Ignored,
        }
    } else if ws.len() == 2 && ws[0] == "stroke"@ {
        CommandView::SetStrokeWidth(ws[1])
    } else {
        CommandView::Unknown
    }
}

/// A `color` or `fill` command whose colour text parsing would cut a
/// character in two.
pub open spec fn command_cuts_char(cmd: Seq<char>) -> bool {
    let ws = words(cmd);
    ws.len() == 2 && (ws[0] == "color"@ || ws[0] == "fill"@) && hex_color_cuts_char(color_text(ws[1]))
}

/// Whether parsing this command line would cut a character in two.
pub fn command_would_cut(cmd: &str) -> (r: bool)
    ensures
        r == command_cuts_char(cmd@),
{
    let ws = split_words(cmd);
    if ws.len() == 2 && (str_eq(ws[0].as_str(), "color") || str_eq(ws[0].as_str(), "fill")) {
        hex_color_would_cut(ws[1].as_str())
    } else {
        false
    }
}

/// Parses a command line.
pub fn parse_command(cmd: &str) -> (c: Command)
    requires
        !command_cuts_char(cmd@),
    ensures
        c@ == spec_parse_command(cmd@),
{
    let ws = split_words(cmd);
    let n = ws.len();
    if n == 1 && str_eq(ws[0].as_str(), "w") {
        Command::ExportPng
    } else if n == 1 && str_eq(ws[0].as_str(), "ws") {
        Command::ExportSvg
    } else if n == 1 && str_eq(ws[0].as_str(), "wq") {
        Command::ExportAndClose
    } else if n == 2 && str_eq(ws[0].as_str(), "color") {
        match parse_hex_color(ws[1].as_str()) {
            Some(c) => Command::SetStrokeColor(c),
            None => Command::Ignored,
        }
    } else if n == 2 && str_eq(ws[0].as_str(), "fill") {
        match parse_hex_color(ws[1].as_str()) {
            Some(c) => Command::SetFillColor(c),
            None => Command::Ignored,
        }
    } else if n == 2 && str_eq(ws[0].as_str(), "stroke") {
        Command::SetStrokeWidth(ws[1].clone())
    } else {
        Command::Unknown
    }
}


proof fn lemma_words_from_one_byte(s: Seq<char>, cur: Seq<char>, acc: Seq<Seq<char>>)
    requires
        one_byte_chars(s),
        one_byte_chars(cur),
        forall|i: int| 0 <= i < acc.len() ==> one_byte_chars(#[trigger] acc[i]),
    ensures
        forall|i: int|
            0 <= i < words_from(s, cur, acc).len() ==> one_byte_chars(#[trigger] words_from(s, cur, acc)[i]),
    decreases s.len(),
{
    if s.len() > 0 {
        let rest = s.drop_first();
        assert forall|i: int| 0 <= i < rest.len() implies (#[trigger] rest[i] as u32) < 0x80 by {
            assert(rest[i] == s[i + 1]);
        }
        if is_white_space(s[0]) {
            let acc2 = if cur.len() > 0 { acc.push(cur) } else { acc };
            assert forall|i: int| 0 <= i < acc2.len() implies one_byte_chars(#[trigger] acc2[i]) by {
                if i < acc.len() {
                    assert(acc2[i] == acc[i]);
                }
            }
            lemma_words_from_one_byte(rest, Seq::empty(), acc2);
            assert(words_from(s, cur, acc) == words_from(rest, Seq::empty(), acc2));
        } else {
            let cur2 = cur.push(s[0]);
            assert forall|i: int| 0 <= i < cur2.len() implies (#[trigger] cur2[i] as u32) < 0x80 by {
                if i < cur.len() {
                    assert(cur2[i] == cur[i]);
                }
            }
            lemma_words_from_one_byte(rest, cur2, acc);
            assert(words_from(s, cur, acc) == words_from(rest, cur2, acc));
        }
    } else {
        let r = words_from(s, cur, acc);
        assert forall|i: int| 0 <= i < r.len() implies one_byte_chars(#[trigger] r[i]) by {
            if i < acc.len() {
                assert(r[i] == acc[i]);
            } else {
                assert(r[i] == cur);
            }
        }
    }
}

proof fn lemma_one_byte_word_never_cuts(w: Seq<char>)
    requires
        one_byte_chars(w),
    ensures
        !hex_color_cuts_char(color_text(w)),
{
    lemma_one_byte_encoding(w);
    let b = encode_utf8(w);
    lemma_strip_hashes_suffix(b);
    let k = choose|k: int| 0 <= k <= b.len() && #[trigger] b.skip(k) == strip_hashes(b);
    let t = b.skip(k);
    assert forall|i: int| 0 <= i < t.len() implies t[i] < 0x80 by {
        assert(t[i] == b[i + k]);
    }
}

/// A command submitted from the vim command line is always one the parser
/// takes whole: the command line holds only characters of one byte, so no
/// colour text in it can cut a character in two.
pub proof fn law_typed_commands_parse(s: VimView, key: Seq<char>, shift: bool, ctrl: bool)
    requires
        vim_inv(s),
    ensures
        step(s, key, shift, ctrl).1 matches ActionView::CommandSubmit(cmd) ==> !command_cuts_char(cmd),
{
    lemma_key_names();
    if let ActionView::CommandSubmit(cmd) = step(s, key, shift, ctrl).1 {
        assert(cmd == s.command_buffer);
        lemma_words_from_one_byte(cmd, Seq::empty(), Seq::empty());
        let ws = words(cmd);
        if ws.len() == 2 {
            lemma_one_byte_word_never_cuts(ws[1]);
        }
    }
}

} // verus!
