use dodeca::activity::{EventHistory, EVENT_HISTORY_CAPACITY};
use dodeca::db::{OutputFile, SiteOutput};
use dodeca::search::{collect_search_pages, guess_mime};
use dodeca::tui::LogEvent;
use dodeca::types::{Route, StaticPath};

#[test]
fn history_keeps_the_latest_events() {
    let mut h = EventHistory::new();
    for i in 0..(EVENT_HISTORY_CAPACITY + 3) {
        h.record(LogEvent::info(format!("e{i}")));
    }
    assert_eq!(h.len(), EVENT_HISTORY_CAPACITY);
    let snap = h.snapshot();
    assert_eq!(snap[0].message, "e3");
    assert_eq!(snap.last().unwrap().message, format!("e{}", EVENT_HISTORY_CAPACITY + 2));
}

#[test]
fn search_pages_of_a_site() {
    let output = SiteOutput {
        files: vec![
            OutputFile::Html {
                route: Route::from_static("/"),
                content: "<p>root</p>".to_string(),
            },
            OutputFile::Css {
                path: StaticPath("main.css".to_string()),
                content: String::new(),
            },
            OutputFile::Html {
                route: Route::from_static("/learn//"),
                content: "<p>learn</p>".to_string(),
            },
            OutputFile::Html {
                route: Route::from_static("/guide"),
                content: "g".to_string(),
            },
        ],
        code_execution_results: vec![],
    };
    let pages: Vec<(String, String)> = collect_search_pages(&output)
        .into_iter()
        .map(|p| (p.url, p.html))
        .collect();
    assert_eq!(
        pages,
        vec![
            ("/".to_string(), "<p>root</p>".to_string()),
            ("/learn/".to_string(), "<p>learn</p>".to_string()),
            ("/guide/".to_string(), "g".to_string()),
        ]
    );
}

#[test]
fn mime_types() {
    assert_eq!(guess_mime("a/app.js"), "application/javascript");
    assert_eq!(guess_mime("x.jpeg"), "image/jpeg");
    assert_eq!(guess_mime("f.woff2"), "font/woff2");
    assert_eq!(guess_mime("f.woff"), "font/woff");
    assert_eq!(guess_mime("README"), "application/octet-stream");
}
