use dodeca::highlight::HighlightResult;
use dodeca::plugins::{highlight_answer, html_escape};

#[test]
fn host_escape_covers_all_special_characters() {
    assert_eq!(
        html_escape("<a href=\"x\">Tom & 'Jerry'</a>"),
        "&lt;a href=&quot;x&quot;&gt;Tom &amp; &#x27;Jerry&#x27;&lt;/a&gt;"
    );
}

#[test]
fn host_escape_keeps_plain_text() {
    assert_eq!(html_escape("fn main() {}"), "fn main() {}");
    assert_eq!(html_escape(""), "");
    assert_eq!(html_escape("héllo"), "héllo");
}

#[test]
fn host_escape_output_is_inert() {
    let out = html_escape("<script>alert('x \"y\"')</script>");
    assert!(!out.contains('<'));
    assert!(!out.contains('>'));
    assert!(!out.contains('"'));
    assert!(!out.contains('\''));
}

#[test]
fn highlight_answer_uses_highlighter_result() {
    let given = HighlightResult { html: "<span>x</span>".to_string(), highlighted: true };
    let r = highlight_answer("x", Some(given));
    assert_eq!(r.html, "<span>x</span>");
    assert!(r.highlighted);
}

#[test]
fn highlight_answer_falls_back_to_escaping() {
    let r = highlight_answer("a < b", None);
    assert_eq!(r.html, "a &lt; b");
    assert!(!r.highlighted);
}
