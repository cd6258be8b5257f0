use vstd::prelude::*;
use vstd::string::*;

use crate::text::{chars_vec, push_char};

verus! {

/// How one character is written inside SVG/XML text or attribute values.
pub open spec fn escape_char(c: char) -> Seq<char> {
    if c == '&' {
        "&amp;"@
    } else if c == '<' {
        "&lt;"@
    } else if c == '>' {
        "&gt;"@
    } else if c == '"' {
        "&quot;"@
    } else {
        seq![c]
    }
}

/// The escaped form of a character sequence: each character escaped in turn.
pub open spec fn spec_html_escape(s: Seq<char>) -> Seq<char>
    decreases s.len(),
{
    if s.len() == 0 {
        Seq::empty()
    } else {
        spec_html_escape(s.drop_last()) + escape_char(s.last())
    }
}

/// HTML-escape a string for safe embedding in SVG/XML.
pub fn html_escape(s: &str) -> (r: String)
    ensures
        r@ == spec_html_escape(s@),
{
    let cs = chars_vec(s);
    let mut out = String::new();
    let n = cs.len();
    let mut i: usize = 0;
    while i < n
        invariant
            n == cs@.len(),
            cs@ == s@,
            0 <= i <= n,
            out@ == spec_html_escape(cs@.subrange(0, i as int)),
        decreases n - i,
    {
        let c = cs[i];
        if c == '&' {
            out.append("&amp;");
        } else if c == '<' {
            out.append("&lt;");
        } else if c == '>' {
            out.append("&gt;");
        } else if c == '"' {
            out.append("&quot;");
        } else {
            push_char(&mut out, c);
        }
        assert(cs@.subrange(0, i + 1).drop_last() =~= cs@.subrange(0, i as int));
        i = i + 1;
    }
    assert(cs@.subrange(0, n as int) =~= s@);
    out
}

/// Escaping distributes over concatenation.
pub proof fn lemma_escape_concat(a: Seq<char>, b: Seq<char>)
    ensures
        spec_html_escape(a + b) == spec_html_escape(a) + spec_html_escape(b),
    decreases b.len(),
{
    if b.len() == 0 {
        assert(a + b =~= a);
        assert(spec_html_escape(a) + spec_html_escape(b) =~= spec_html_escape(a));
    } else {
        lemma_escape_concat(a, b.drop_last());
        assert((a + b).drop_last() =~= a + b.drop_last());
        assert((a + b).last() == b.last());
    }
}

/// The escaped text holds no `<`, `>` or `"`: it cannot open or close markup
/// or end an attribute value.
pub proof fn lemma_escape_has_no_markup(s: Seq<char>)
    ensures
        forall|i: int|
            0 <= i < spec_html_escape(s).len() ==> #[trigger] spec_html_escape(s)[i] != '<'
                && spec_html_escape(s)[i] != '>' && spec_html_escape(s)[i] != '"',
    decreases s.len(),
{
    reveal_strlit("&amp;");
    reveal_strlit("&lt;");
    reveal_strlit("&gt;");
    reveal_strlit("&quot;");
    if s.len() > 0 {
        lemma_escape_has_no_markup(s.drop_last());
        let e = spec_html_escape(s);
        let p = spec_html_escape(s.drop_last());
        let q = escape_char(s.last());
        assert(e == p + q);
        assert forall|i: int| 0 <= i < e.len() implies #[trigger] e[i] != '<' && e[i] != '>'
            && e[i] != '"' by {
            if i >= p.len() {
                assert(e[i] == q[i - p.len()]);
            } else {
                assert(e[i] == p[i]);
            }
        }
    }
}

} // verus!
