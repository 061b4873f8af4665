//! Syntax highlighting of code blocks: language names, the escaped plain
//! text fallback, and the answer built from what the highlighter (arborium,
//! called by the program, which catches its panics) gave.

use vstd::prelude::*;
use crate::text::{
    append_str, chars_to_string, eq_str, split_char, split_chars, str_chars, to_lowercase, lower_text,
};

verus! {

// ---------------------------------------------------------------------------
// Escaping
// ---------------------------------------------------------------------------

/// The HTML text for one character: the five special characters become
/// entities.
pub open spec fn escape_char(c: char) -> Seq<char> {
    if c == '<' {
        "&lt;"@
    } else if c == '>' {
        "&gt;"@
    } else if c == '&' {
        "&amp;"@
    } else if c == '"' {
        "&quot;"@
    } else if c == '\'' {
        "&#39;"@
    } else {
        seq![c]
    }
}

/// `s` escaped for HTML, character by character.
pub open spec fn escape_html(s: Seq<char>) -> Seq<char>
    decreases s.len(),
{
    if s.len() == 0 {
        Seq::empty()
    } else {
        escape_html(s.drop_last()) + escape_char(s.last())
    }
}

/// Escapes `text` for HTML: `<`, `>`, `&`, `"` and `'` become `&lt;`,
/// `&gt;`, `&amp;`, `&quot;` and `&#39;`, every other character stays (the
/// escaping of `arborium::html_escape`, whose whole behaviour this is).
pub fn html_escape(text: &str) -> (r: String)
    ensures
        r@ == escape_html(text@),
{
    let chars = str_chars(text);
    let mut out: Vec<char> = Vec::new();
    let mut i: usize = 0;
    while i < chars.len()
        invariant
            i <= chars.len(),
            chars@ == text@,
            out@ == escape_html(text@.take(i as int)),
        decreases chars.len() - i,
    {
        proof {
            assert(text@.take(i + 1).drop_last() =~= text@.take(i as int));
            assert(text@.take(i + 1).last() == chars@[i as int]);
        }
        let c = chars[i];
        if c == '<' {
            append_str(&mut out, "&lt;");
        } else if c == '>' {
            append_str(&mut out, "&gt;");
        } else if c == '&' {
            append_str(&mut out, "&amp;");
        } else if c == '"' {
            append_str(&mut out, "&quot;");
        } else if c == '\'' {
            append_str(&mut out, "&#39;");
        } else {
            out.push(c);
        }
        i += 1;
    }
    proof {
        assert(text@.take(text@.len() as int) =~= text@);
    }
    chars_to_string(&out)
}

/// Escaped text holds none of `<`, `>`, `"` and `'`.
pub proof fn lemma_escaped_is_inert(s: Seq<char>)
    ensures
        forall|i: int|
            0 <= i < escape_html(s).len() ==> {
                let c = #[trigger] escape_html(s)[i];
                c != '<' && c != '>' && c != '"' && c != '\''
            },
    decreases s.len(),
{
    if s.len() > 0 {
        lemma_escaped_is_inert(s.drop_last());
        reveal_strlit("&lt;");
        reveal_strlit("&gt;");
        reveal_strlit("&amp;");
        reveal_strlit("&quot;");
        reveal_strlit("&#39;");
        let pre = escape_html(s.drop_last());
        let tail = escape_char(s.last());
        assert forall|i: int| 0 <= i < escape_html(s).len() implies {
            let c = #[trigger] escape_html(s)[i];
            c != '<' && c != '>' && c != '"' && c != '\''
        } by {
            if i < pre.len() {
                assert(escape_html(s)[i] == pre[i]);
            } else {
                assert(escape_html(s)[i] == tail[i - pre.len()]);
            }
        }
    }
}

// ---------------------------------------------------------------------------
// Languages
// ---------------------------------------------------------------------------

/// The grammar name for a lower-cased language name: common aliases
/// mapped, anything else kept.
pub open spec fn language_alias(l: Seq<char>) -> Seq<char> {
    if l == "js"@ {
        "javascript"@
    } else if l == "ts"@ {
        "typescript"@
    } else if l == "py"@ {
        "python"@
    } else if l == "rb"@ {
        "ruby"@
    } else if l == "rs"@ {
        "rust"@
    } else if l == "sh"@ || l == "bash"@ || l == "zsh"@ {
        "bash"@
    } else if l == "yml"@ {
        "yaml"@
    } else if l == "md"@ {
        "markdown"@
    } else if l == "dockerfile"@ {
        "dockerfile"@
    } else if l == "c++"@ || l == "cc"@ || l == "cxx"@ {
        "cpp"@
    } else if l == "c#"@ || l == "csharp"@ {
        "c_sharp"@
    } else if l == "f#"@ || l == "fsharp"@ {
        "f_sharp"@
    } else if l == "obj-c"@ || l == "objc"@ || l == "objective-c"@ {
        "objc"@
    } else if l == "shell"@ || l == "console"@ {
        "bash"@
    } else if l == "plaintext"@ || l == "text"@ || l == "plain"@ || l.len() == 0 {
        "text"@
    } else {
        l
    }
}

/// The language a code block is highlighted as: the part of its info
/// string before the first comma, lower-cased, aliases resolved.
pub open spec fn normalized_language(lang: Seq<char>) -> Seq<char> {
    language_alias(lower_text(split_char(lang, ',')[0]))
}

/// Normalizes a language name (`rust,noexec` is `rust`, `JS` is
/// `javascript`).
pub fn normalize_language(lang: &str) -> (r: String)
    ensures
        r@ == normalized_language(lang@),
{
    let chars = str_chars(lang);
    let pieces = split_chars(&chars, ',');
    proof {
        crate::text::lemma_split_nonempty(lang@, ',');
    }
    let first = chars_to_string(&pieces[0]);
    let lower = to_lowercase(first.as_str());
    let l = str_chars(lower.as_str());
    let alias: Option<&str> = if eq_str(&l, "js") {
        Some("javascript")
    } else if eq_str(&l, "ts") {
        Some("typescript")
    } else if eq_str(&l, "py") {
        Some("python")
    } else if eq_str(&l, "rb") {
        Some("ruby")
    } else if eq_str(&l, "rs") {
        Some("rust")
    } else if eq_str(&l, "sh") || eq_str(&l, "bash") || eq_str(&l, "zsh") {
        Some("bash")
    } else if eq_str(&l, "yml") {
        Some("yaml")
    } else if eq_str(&l, "md") {
        Some("markdown")
    } else if eq_str(&l, "dockerfile") {
        Some("dockerfile")
    } else if eq_str(&l, "c++") || eq_str(&l, "cc") || eq_str(&l, "cxx") {
        Some("cpp")
    } else if eq_str(&l, "c#") || eq_str(&l, "csharp") {
        Some("c_sharp")
    } else if eq_str(&l, "f#") || eq_str(&l, "fsharp") {
        Some("f_sharp")
    } else if eq_str(&l, "obj-c") || eq_str(&l, "objc") || eq_str(&l, "objective-c") {
        Some("objc")
    } else if eq_str(&l, "shell") || eq_str(&l, "console") {
        Some("bash")
    } else if eq_str(&l, "plaintext") || eq_str(&l, "text") || eq_str(&l, "plain") || l.len()
        == 0 {
        Some("text")
    } else {
        None
    };
    match alias {
        Some(a) => a.to_owned(),
        None => lower,
    }
}

/// The languages offered to the user.
pub open spec fn supported_language_names() -> Seq<Seq<char>> {
    seq![
        "bash"@,
        "c"@,
        "cpp"@,
        "css"@,
        "dockerfile"@,
        "go"@,
        "haskell"@,
        "html"@,
        "java"@,
        "javascript"@,
        "json"@,
        "kotlin"@,
        "lua"@,
        "markdown"@,
        "python"@,
        "ruby"@,
        "rust"@,
        "scala"@,
        "sql"@,
        "swift"@,
        "toml"@,
        "typescript"@,
        "yaml"@,
        "zig"@,
    ]
}

/// The languages offered to the user (arborium knows many more).
pub fn supported_languages() -> (r: Vec<String>)
    ensures
        r@.map_values(|s: String| s@) == supported_language_names(),
{
    let names: Vec<&str> = vec![
        "bash",
        "c",
        "cpp",
        "css",
        "dockerfile",
        "go",
        "haskell",
        "html",
        "java",
        "javascript",
        "json",
        "kotlin",
        "lua",
        "markdown",
        "python",
        "ruby",
        "rust",
        "scala",
        "sql",
        "swift",
        "toml",
        "typescript",
        "yaml",
        "zig",
    ];
    let ghost want = supported_language_names();
    assert(names@.map_values(|s: &str| s@) =~= want);
    let mut out: Vec<String> = Vec::new();
    let mut i: usize = 0;
    while i < names.len()
        invariant
            i <= names.len(),
            names@.map_values(|s: &str| s@) == want,
            out@.map_values(|s: String| s@) == want.take(i as int),
        decreases names.len() - i,
    {
        let ghost before = out@;
        out.push(names[i].to_owned());
        proof {
            assert(names@.map_values(|s: &str| s@)[i as int] == names@[i as int]@);
            assert(out@.map_values(|s: String| s@) =~= before.map_values(|s: String| s@).push(
                want[i as int],
            ));
            assert(want.take(i + 1) =~= want.take(i as int).push(want[i as int]));
        }
        i += 1;
    }
    assert(want.take(want.len() as int) =~= want);
    out
}

// ---------------------------------------------------------------------------
// Highlighting
// ---------------------------------------------------------------------------

/// Result of syntax highlighting.
#[derive(Clone, Debug)]
pub struct HighlightResult {
    /// The highlighted HTML
    pub html: String,
    /// Whether highlighting was done (rather than the plain text fallback)
    pub highlighted: bool,
}

/// The fallback result: the code escaped as plain text.
pub fn plain_result(code: &str) -> (r: HighlightResult)
    ensures
        r.html@ == escape_html(code@),
        !r.highlighted,
{
    HighlightResult { html: html_escape(code), highlighted: false }
}

/// The result of highlighting `code`, given what the highlighter gave for
/// it in the normalized language (`None` when it failed, for an unknown
/// language, or panicked): that HTML, or the code escaped as plain text.
pub fn highlight_code_inner(code: &str, highlighted: Option<String>) -> (r: HighlightResult)
    ensures
        match highlighted {
            Some(h) => r.html@ == h@ && r.highlighted,
            None => r.html@ == escape_html(code@) && !r.highlighted,
        },
{
    match highlighted {
        Some(html) => HighlightResult { html, highlighted: true },
        None => plain_result(code),
    }
}

/// The syntax highlighting service.
pub struct SyntaxHighlightImpl;

impl SyntaxHighlightImpl {
    /// The answer to a highlighting request for `code`, given the
    /// highlighter's outcome; see [`highlight_code_inner`].
    pub fn highlight_code(&self, code: &str, highlighted: Option<String>) -> (r: HighlightResult)
        ensures
            match highlighted {
                Some(h) => r.html@ == h@ && r.highlighted,
                None => r.html@ == escape_html(code@) && !r.highlighted,
            },
    {
        highlight_code_inner(code, highlighted)
    }

    /// The languages offered to the user.
    pub fn supported_languages(&self) -> (r: Vec<String>)
        ensures
            r@.map_values(|s: String| s@) == supported_language_names(),
    {
        supported_languages()
    }
}

} // verus!
