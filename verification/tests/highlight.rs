use dodeca::highlight::{
    highlight_code_inner, html_escape, normalize_language, plain_result, supported_languages,
    HighlightResult, SyntaxHighlightImpl,
};

/// Highlights as the service does: arborium in the normalized language.
fn highlight(code: &str, language: &str) -> HighlightResult {
    let lang = normalize_language(language);
    let outcome = arborium::Highlighter::new().highlight(&lang, code).ok();
    SyntaxHighlightImpl.highlight_code(code, outcome)
}

#[test]
fn test_language_normalization() {
    assert_eq!(normalize_language("js"), "javascript");
    assert_eq!(normalize_language("ts"), "typescript");
    assert_eq!(normalize_language("py"), "python");
    assert_eq!(normalize_language("rs"), "rust");
    assert_eq!(normalize_language("JS"), "javascript"); // case insensitive
}

#[test]
fn test_highlight_rust() {
    let code = "fn main() {}";
    let result = highlight(code, "rust");
    assert!(result.highlighted);
    // arborium uses custom elements like <a-k> for keywords
    assert!(result.html.contains("<a-"));
}

#[test]
fn test_highlight_unknown_language() {
    let code = "some code";
    let result = highlight(code, "nonexistent-lang-xyz");
    // Should still succeed but with plain text fallback
    assert!(!result.highlighted || result.html.contains("some code"));
}

#[test]
fn normalization_of_info_strings_and_aliases() {
    assert_eq!(normalize_language("rust,noexec"), "rust");
    assert_eq!(normalize_language("C++"), "cpp");
    assert_eq!(normalize_language(""), "text");
    assert_eq!(normalize_language("console"), "bash");
    assert_eq!(normalize_language("Haskell"), "haskell");
}

#[test]
fn unknown_languages_fall_back_to_escaped_text() {
    let r = highlight_code_inner("a < b && c > \"d\" 'e'", None);
    assert!(!r.highlighted);
    assert_eq!(r.html, "a &lt; b &amp;&amp; c &gt; &quot;d&quot; &#39;e&#39;");
}

#[test]
fn escaping_leaves_no_markup() {
    let s = plain_result("<script>alert('x')</script>").html;
    assert!(!s.contains('<') && !s.contains('>') && !s.contains('\''));
}

#[test]
fn supported_language_list() {
    let langs = supported_languages();
    assert_eq!(langs.len(), 24);
    assert_eq!(langs[0], "bash");
    assert!(langs.iter().any(|l| l == "rust"));
    assert_eq!(SyntaxHighlightImpl.supported_languages(), langs);
}

#[test]
fn highlighter_output_is_kept() {
    let r = highlight_code_inner("x", Some("<a-k>x</a-k>".to_string()));
    assert!(r.highlighted);
    assert_eq!(r.html, "<a-k>x</a-k>");
    assert_eq!(html_escape("Tom & 'Jerry' <b>"), "Tom &amp; &#39;Jerry&#39; &lt;b&gt;");
    let s = "<p class=\"x\">a & b 'c' é</p>";
    assert_eq!(html_escape(s), arborium::advanced::html_escape(s));
}
