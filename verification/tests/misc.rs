use dodeca::build_stats::{broken_links_summary, BuildStats, OutputKind};
use dodeca::db::QueryStats;
use dodeca::queries::{
    BuildError, SourceParseError,
    extract_filename_without_extension, find_chars_for_font_file, is_font_file, LocalFontAnalysis,
    LocalFontFace,
};
use dodeca::forwarding::{format_fields, forwarded_event, EventMeta, Field, ForwardingTracingSink};
use dodeca::logging::Level;
use dodeca::boot_state::{connection_gate, fatal_error_response, BootState, ConnectionGate, ErrorKind};

#[test]
fn build_stats_summary() {
    let mut s = BuildStats::default();
    s.record(OutputKind::Html, true);
    s.record(OutputKind::Html, false);
    s.record(OutputKind::Static, false);
    s.record(OutputKind::Css, false);
    assert_eq!(s.up_to_date(), 3);
    assert_eq!(s.written_parts(), vec!["1 HTML".to_string()]);
    s.record(OutputKind::Css, true);
    s.record(OutputKind::Static, true);
    assert_eq!(
        s.written_parts(),
        vec!["1 HTML".to_string(), "1 static".to_string(), "CSS".to_string()]
    );
    assert_eq!(s.up_to_date(), 2);
    assert_eq!(
        broken_links_summary(3, 2, 1),
        "Found 3 broken link(s) (2 internal, 1 external)"
    );
}

#[test]
fn query_stats_total() {
    let mut q = QueryStats::new();
    q.executed = 4;
    q.reused = 6;
    assert_eq!((q.executed(), q.reused(), q.total()), (4, 6, 10));
}

#[test]
fn font_helpers() {
    assert!(is_font_file("static/fonts/Inter.WOFF2"));
    assert!(!is_font_file("a.css"));
    assert_eq!(extract_filename_without_extension("data/versions.toml"), "versions");
    assert_eq!(extract_filename_without_extension("a/b.c/d"), "d");
    assert_eq!(extract_filename_without_extension("x.tar.gz"), "x.tar");
    let analysis = LocalFontAnalysis {
        chars_per_font: vec![("Inter".to_string(), vec!['a', 'b'])],
        font_faces: vec![
            LocalFontFace {
                family: "Other".to_string(),
                src: "/fonts/Other.woff2".to_string(),
                weight: None,
                style: None,
            },
            LocalFontFace {
                family: "Inter".to_string(),
                src: "/fonts/Inter.woff2".to_string(),
                weight: Some("400".to_string()),
                style: None,
            },
        ],
    };
    assert_eq!(
        find_chars_for_font_file("static/fonts/Inter.woff2", &analysis),
        Some(vec!['a', 'b'])
    );
    assert_eq!(find_chars_for_font_file("/static/fonts/Other.woff2", &analysis), None);
    assert_eq!(find_chars_for_font_file("fonts/None.ttf", &analysis), None);
}

#[test]
fn forwarded_events() {
    let mut sink = ForwardingTracingSink::new();
    assert_eq!(sink.new_span(), 1);
    assert_eq!(sink.new_span(), 2);
    let fields = vec![
        Field {
            name: "message".to_string(),
            value: "m".to_string(),
        },
        Field {
            name: "path".to_string(),
            value: "/x".to_string(),
        },
        Field {
            name: "n".to_string(),
            value: "3".to_string(),
        },
    ];
    assert_eq!(format_fields(&fields), "path=/x n=3");
    let (level, text) = forwarded_event(&EventMeta {
        level: "WARN".to_string(),
        target: "cell_http".to_string(),
        message: "slow".to_string(),
        fields,
    });
    assert_eq!(level, Level::Warn);
    assert_eq!(text, "[cell_http] slow path=/x n=3");
    let (level, text) = forwarded_event(&EventMeta {
        level: "verbose".to_string(),
        target: "t".to_string(),
        message: "hi".to_string(),
        fields: vec![],
    });
    assert_eq!(level, Level::Info);
    assert_eq!(text, "[t] hi");
}

#[test]
fn parse_error_report() {
    let err = BuildError {
        errors: vec![
            SourceParseError {
                path: "a.md".to_string(),
                error: "bad front matter".to_string(),
            },
            SourceParseError {
                path: "b.md".to_string(),
                error: "unclosed block".to_string(),
            },
        ],
    };
    assert_eq!(
        err.message(),
        "Failed to parse 2 file(s):\n  - a.md: bad front matter\n  - b.md: unclosed block\n"
    );
    assert_eq!(err.errors[0].message(), "a.md: bad front matter");
}

#[test]
fn connections_wait_for_boot() {
    assert_eq!(connection_gate(&BootState::booting()), ConnectionGate::Wait);
    assert_eq!(connection_gate(&BootState::ready()), ConnectionGate::Proceed);
    assert_eq!(
        connection_gate(&BootState::fatal(ErrorKind::MissingCell, "no http cell".to_string())),
        ConnectionGate::Reject
    );
}

#[test]
fn fatal_response_is_http_500() {
    let r = fatal_error_response();
    assert!(r.starts_with("HTTP/1.1 500 Internal Server Error\r\n"));
    assert!(r.ends_with("\r\n\r\nServer failed to start. Check server logs for details"));
    assert!(r.contains("Content-Length: 52\r\n"));
}
