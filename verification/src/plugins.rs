//! The plugin host's own pieces: the escaping used when no highlighter
//! answers, and the answer to a highlighting request.

use vstd::prelude::*;
use crate::highlight::HighlightResult;
use crate::text::{append_str, chars_to_string, str_chars};

verus! {

/// The HTML text for one character in the host's fallback escaping (the
/// apostrophe as `&#x27;`).
pub open spec fn host_escape_char(c: char) -> Seq<char> {
    if c == '&' {
        "&amp;"@
    } else if c == '<' {
        "&lt;"@
    } else if c == '>' {
        "&gt;"@
    } else if c == '"' {
        "&quot;"@
    } else if c == '\'' {
        "&#x27;"@
    } else {
        seq![c]
    }
}

/// `s` escaped by the host, character by character.
pub open spec fn host_escape(s: Seq<char>) -> Seq<char>
    decreases s.len(),
{
    if s.len() == 0 {
        Seq::empty()
    } else {
        host_escape(s.drop_last()) + host_escape_char(s.last())
    }
}

/// Simple HTML escaping for the fallback when the highlighting plugin is
/// not available.
pub fn html_escape(s: &str) -> (r: String)
    ensures
        r@ == host_escape(s@),
{
    let chars = str_chars(s);
    let mut out: Vec<char> = Vec::new();
    let mut i: usize = 0;
    while i < chars.len()
        invariant
            i <= chars.len(),
            chars@ == s@,
            out@ == host_escape(s@.take(i as int)),
        decreases chars.len() - i,
    {
        proof {
            assert(s@.take(i + 1).drop_last() =~= s@.take(i as int));
            assert(s@.take(i + 1).last() == chars@[i as int]);
        }
        let c = chars[i];
        if c == '&' {
            append_str(&mut out, "&amp;");
        } else if c == '<' {
            append_str(&mut out, "&lt;");
        } else if c == '>' {
            append_str(&mut out, "&gt;");
        } else if c == '"' {
            append_str(&mut out, "&quot;");
        } else if c == '\'' {
            append_str(&mut out, "&#x27;");
        } else {
            out.push(c);
        }
        i += 1;
    }
    proof {
        assert(s@.take(s@.len() as int) =~= s@);
    }
    chars_to_string(&out)
}

/// The host's escaping leaves no `<`, `>`, `"` or `'` in the text.
pub proof fn lemma_host_escape_is_inert(s: Seq<char>)
    ensures
        forall|i: int|
            0 <= i < host_escape(s).len() ==> {
                let c = #[trigger] host_escape(s)[i];
                c != '<' && c != '>' && c != '"' && c != '\''
            },
    decreases s.len(),
{
    if s.len() > 0 {
        lemma_host_escape_is_inert(s.drop_last());
        reveal_strlit("&lt;");
        reveal_strlit("&gt;");
        reveal_strlit("&amp;");
        reveal_strlit("&quot;");
        reveal_strlit("&#x27;");
        let pre = host_escape(s.drop_last());
        let tail = host_escape_char(s.last());
        assert forall|i: int| 0 <= i < host_escape(s).len() implies {
            let c = #[trigger] host_escape(s)[i];
            c != '<' && c != '>' && c != '"' && c != '\''
        } by {
            if i < pre.len() {
                assert(host_escape(s)[i] == pre[i]);
            } else {
                assert(host_escape(s)[i] == tail[i - pre.len()]);
            }
        }
    }
}

/// The answer to a highlighting request from a plugin: the highlighter's
/// result, or the escaped code when the highlighter did not answer.
pub fn highlight_answer(code: &str, result: Option<HighlightResult>) -> (r: HighlightResult)
    ensures
        match result {
            Some(h) => r == h,
            None => r.html@ == host_escape(code@) && !r.highlighted,
        },
{
    match result {
        Some(h) => h,
        None => HighlightResult { html: html_escape(code), highlighted: false },
    }
}

} // verus!
