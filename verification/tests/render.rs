use dodeca::db::Heading;
use dodeca::render::{
    generate_syntax_highlight_css, headings_to_toc, path_to_route, route_to_path, TocEntry,
};

fn h(title: &str, id: &str, level: u8) -> Heading {
    Heading {
        title: title.to_string(),
        id: id.to_string(),
        level,
    }
}

#[test]
fn routes_and_paths() {
    assert_eq!(path_to_route("learn/_index.md").as_str(), "/learn");
    assert_eq!(path_to_route("_index.md").as_str(), "/");
    assert_eq!(path_to_route("learn/page.md").as_str(), "/learn/page");
    assert_eq!(route_to_path("/learn/"), "learn/_index.md");
    assert_eq!(route_to_path("/"), "_index.md");
    for r in ["/", "/learn", "/a/b/c"] {
        assert_eq!(path_to_route(&route_to_path(r)).as_str(), r);
    }
}

fn shape(entries: &[TocEntry]) -> String {
    entries
        .iter()
        .map(|e| format!("{}{}({})", e.id, e.permalink, shape(&e.children)))
        .collect::<Vec<_>>()
        .join(",")
}

#[test]
fn toc_nests_headings() {
    let hs = vec![
        h("A", "a", 2),
        h("A1", "a1", 3),
        h("A1x", "a1x", 4),
        h("A2", "a2", 3),
        h("B", "b", 2),
    ];
    let toc = headings_to_toc(&hs);
    assert_eq!(shape(&toc), "a#a(a1#a1(a1x#a1x()),a2#a2()),b#b()");
    assert_eq!(toc[0].title, "A");
    assert!(headings_to_toc(&[]).is_empty());
    let skip = vec![h("deep", "d", 4), h("top", "t", 2)];
    assert_eq!(shape(&headings_to_toc(&skip)), "t#t()");
}

#[test]
fn highlight_stylesheet() {
    let css = generate_syntax_highlight_css("L", "D");
    assert!(css.starts_with("<style>\n/* Arborium syntax highlighting - Light theme */"));
    assert!(css.contains("@media (prefers-color-scheme: light) {\nL\n}"));
    assert!(css.contains("@media (prefers-color-scheme: dark) {\nD\n}"));
    assert!(css.ends_with("</style>"));
}
