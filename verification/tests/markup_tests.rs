use collaborate::markup::html_escape;
use collaborate::text::{is_whitespace, split_words};

#[test]
fn escape_replaces_the_four_characters() {
    assert_eq!(html_escape("a<b>&\"c\""), "a&lt;b&gt;&amp;&quot;c&quot;");
    assert_eq!(html_escape("plain"), "plain");
    assert_eq!(html_escape(""), "");
}

#[test]
fn escape_matches_replace_chain() {
    for s in ["&amp;", "<<>>", "x & y < z", "\"'\"", "éà & ü"] {
        let expected = s.replace('&', "&amp;").replace('<', "&lt;").replace('>', "&gt;").replace('"', "&quot;");
        assert_eq!(html_escape(s), expected);
    }
}

#[test]
fn escaped_text_has_no_markup_characters() {
    let out = html_escape("<script>alert(\"x\")</script>");
    assert!(!out.contains('<') && !out.contains('>') && !out.contains('"'));
}

#[test]
fn whitespace_agrees_with_std() {
    for u in 0u32..0x3100 {
        if let Some(c) = char::from_u32(u) {
            assert_eq!(is_whitespace(c), c.is_whitespace(), "at {:#x}", u);
        }
    }
}

#[test]
fn words_agree_with_split_whitespace() {
    for s in ["", "   ", "w", "  color   #fff ", "a\tb\nc", "x\u{3000}y", "stroke 2.5"] {
        let expected: Vec<String> = s.split_whitespace().map(|w| w.to_string()).collect();
        assert_eq!(split_words(s), expected);
    }
}
