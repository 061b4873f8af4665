use dodeca::cells::{
    cell_dir_candidates, choose_cell_directory, find_cell_path, in_dev_target, is_workspace_manifest,
    CellPathSource,
};
use dodeca::queries::{
    combined_html, font_analysis_css, in_stylesheet_path_map, page_url_map, static_processing,
    subset_chars,
    PicanteTemplateLoader, StaticProcessing,
};

fn loader() -> PicanteTemplateLoader {
    PicanteTemplateLoader::new(vec![
        ("base.html".to_string(), "<html>{% block body %}{% endblock %}</html>".to_string()),
        ("page.html".to_string(), "{% extends \"base.html\" %}".to_string()),
    ])
}

#[test]
fn loader_returns_loaded_template() {
    let l = loader();
    assert_eq!(l.load("page.html"), Some("{% extends \"base.html\" %}".to_string()));
    assert_eq!(
        l.load("base.html"),
        Some("<html>{% block body %}{% endblock %}</html>".to_string())
    );
}

#[test]
fn loader_misses_unknown_template() {
    let l = loader();
    assert_eq!(l.load("missing.html"), None);
    assert_eq!(l.load("page"), None);
    assert_eq!(PicanteTemplateLoader::new(vec![]).load("page.html"), None);
}

#[test]
fn loader_later_entry_wins() {
    let l = PicanteTemplateLoader::new(vec![
        ("a.html".to_string(), "old".to_string()),
        ("a.html".to_string(), "new".to_string()),
    ]);
    assert_eq!(l.load("a.html"), Some("new".to_string()));
}

#[test]
fn cell_path_is_the_http_cell() {
    assert_eq!(find_cell_path(), "ddc-cell-http");
}

#[test]
fn static_files_processing_by_extension() {
    assert_eq!(static_processing("fonts/Inter.WOFF2"), StaticProcessing::Font);
    assert_eq!(static_processing("img/logo.svg"), StaticProcessing::Svg);
    assert_eq!(static_processing("css/extra.CSS"), StaticProcessing::Css);
    assert_eq!(static_processing("robots.txt"), StaticProcessing::Plain);
    assert_eq!(static_processing("img/photo.png"), StaticProcessing::Plain);
}

#[test]
fn stylesheet_path_map_leaves_out_css_and_images() {
    assert!(in_stylesheet_path_map("fonts/Inter.woff2"));
    assert!(in_stylesheet_path_map("favicon.ico"));
    assert!(!in_stylesheet_path_map("css/extra.css"));
    assert!(!in_stylesheet_path_map("img/photo.PNG"));
}

#[test]
fn subset_chars_are_sorted_and_distinct() {
    assert_eq!(subset_chars(&vec!['b', 'a', 'c', 'a', 'é', ' ']), vec![' ', 'a', 'b', 'c', 'é']);
    assert_eq!(subset_chars(&vec![]), Vec::<char>::new());
}

#[test]
fn cell_directory_search_order() {
    let c = cell_dir_candidates(&Some("/opt/ddc/bin".to_string()), true);
    assert_eq!(
        c,
        vec![
            ("/opt/ddc/bin".to_string(), CellPathSource::AdjacentToExe),
            ("/opt/ddc/bin/cells".to_string(), CellPathSource::CellsSubdir),
            ("target/release".to_string(), CellPathSource::DevFallback),
        ]
    );
    assert_eq!(
        cell_dir_candidates(&None, false),
        vec![("target/debug".to_string(), CellPathSource::DevFallback)]
    );
}

#[test]
fn cell_directory_choice() {
    let c = cell_dir_candidates(&Some("/bin".to_string()), false);
    assert_eq!(
        choose_cell_directory(&Some("/custom".to_string()), &c, &vec![true, true, true]),
        Some(("/custom".to_string(), CellPathSource::EnvVar))
    );
    assert_eq!(
        choose_cell_directory(&None, &c, &vec![false, true, true]),
        Some(("/bin/cells".to_string(), CellPathSource::CellsSubdir))
    );
    assert_eq!(choose_cell_directory(&None, &c, &vec![false, false, false]), None);
}

#[test]
fn development_checkout_detection() {
    assert!(in_dev_target("/home/me/dodeca/target/debug/ddc"));
    assert!(in_dev_target("/w/target/release/ddc"));
    assert!(!in_dev_target("/usr/local/bin/ddc"));
    assert!(is_workspace_manifest("[package]\nname = \"x\"\n\n[workspace]\nmembers = []\n"));
    assert!(!is_workspace_manifest("[package]\nname = \"x\"\n"));
    assert_eq!(CellPathSource::EnvVar.label(), "env:DODECA_CELL_PATH");
    assert_eq!(CellPathSource::DevFallback.label(), "dev_fallback");
}

#[test]
fn font_analysis_inputs() {
    assert_eq!(combined_html(&vec!["<p>a</p>".to_string(), "<p>b</p>".to_string()]), "<p>a</p>\n<p>b</p>");
    assert_eq!(combined_html(&vec![]), "");
    assert_eq!(
        font_analysis_css(
            &Some("body{}".to_string()),
            &vec!["a{}".to_string(), "b{}".to_string()],
            "c{}"
        ),
        "body{}\na{}\nb{}\nc{}"
    );
    assert_eq!(font_analysis_css(&None, &vec![], ""), "\n\n");
}

#[test]
fn served_page_url_rewrites() {
    let m = page_url_map(
        &Some("main.1a2b.css".to_string()),
        &vec![("fonts/a.woff2".to_string(), "fonts/a.9f.woff2".to_string())],
        &vec![("img/p.png".to_string(), "/img/p.c.webp".to_string())],
    );
    assert_eq!(
        m,
        vec![
            ("/main.css".to_string(), "/main.1a2b.css".to_string()),
            ("/fonts/a.woff2".to_string(), "/fonts/a.9f.woff2".to_string()),
            ("/img/p.png".to_string(), "/img/p.c.webp".to_string()),
        ]
    );
    assert!(page_url_map(&None, &vec![], &vec![]).is_empty());
}
