use dodeca::logging::{
    detect_event_kind, parse_http_status, parse_level, FilterHandle, Level, LogFilter, TuiLayer,
    TuiLogLevel,
};
use dodeca::tui::{EventKind, LogLevel};

#[test]
fn levels_cycle_and_filter() {
    let mut l = TuiLogLevel::Off;
    let mut seen = Vec::new();
    for _ in 0..6 {
        l = l.next();
        seen.push(l.as_str());
    }
    assert_eq!(seen, vec!["ERROR", "WARN", "INFO", "DEBUG", "TRACE", "OFF"]);
    assert!(TuiLogLevel::Warn.should_show(Level::Error));
    assert!(TuiLogLevel::Warn.should_show(Level::Warn));
    assert!(!TuiLogLevel::Warn.should_show(Level::Info));
    assert!(!TuiLogLevel::Off.should_show(Level::Error));
    assert!(TuiLogLevel::Trace.should_show(Level::Trace));
    assert_eq!(TuiLogLevel::default(), TuiLogLevel::Info);
}

#[test]
fn level_names() {
    assert_eq!(parse_level("WARNING"), Some(TuiLogLevel::Warn));
    assert_eq!(parse_level("dbg"), Some(TuiLogLevel::Debug));
    assert_eq!(parse_level("none"), Some(TuiLogLevel::Off));
    assert_eq!(parse_level("loud"), None);
}

#[test]
fn filter_expressions() {
    let f = LogFilter::parse(" warn,dodeca=debug,dodeca::cells=trace,hyper=off ").unwrap();
    assert_eq!(f.expression(), "warn,dodeca=debug,dodeca::cells=trace,hyper=off");
    assert!(f.should_show("dodeca::cells::x", Level::Trace));
    assert!(f.should_show("dodeca::render", Level::Debug));
    assert!(!f.should_show("dodeca::render", Level::Trace));
    assert!(!f.should_show("hyper::proto", Level::Error));
    assert!(f.should_show("other", Level::Warn));
    assert!(!f.should_show("other", Level::Info));
    assert!(LogFilter::parse("   ").is_none());
    assert!(LogFilter::parse("info,x=loud").is_none());
    assert!(LogFilter::parse("verbose").is_none());
    let g = LogFilter::parse("a=info,,b=error").unwrap();
    assert!(g.should_show("zzz", Level::Info));
}

#[test]
fn handle_settings() {
    let mut h = FilterHandle::new();
    assert_eq!(h.get_log_level(), TuiLogLevel::Info);
    assert!(h.toggle_picante_debug());
    assert!(!h.toggle_picante_debug());
    assert_eq!(h.set_filter("debug,x=off"), Some("debug,x=off".to_string()));
    assert_eq!(h.get_filter_expression(), Some("debug,x=off".to_string()));
    assert_eq!(h.set_filter("bogus=level"), None);
    assert_eq!(h.get_filter_expression(), Some("debug,x=off".to_string()));
    assert_eq!(h.cycle_log_level(), TuiLogLevel::Debug);
    assert_eq!(h.get_filter_expression(), None);
    h.set_filter("warn");
    assert_eq!(h.set_filter("  "), Some(String::new()));
    assert_eq!(h.get_filter_expression(), None);
}

#[test]
fn http_status_lines() {
    assert_eq!(parse_http_status("GET /path -> 200 in 1.2ms"), Some(200));
    assert_eq!(parse_http_status("  GET /x -> 404"), Some(404));
    assert_eq!(parse_http_status("301 /moved 1ms"), Some(301));
    assert_eq!(parse_http_status("GET /x -> 999 in 1ms"), None);
    assert_eq!(parse_http_status("hello world"), None);
    assert_eq!(parse_http_status("42"), None);
}

#[test]
fn event_kinds() {
    assert_eq!(
        detect_event_kind("GET / -> 500 in 3ms", "x"),
        EventKind::Http { status: 500 }
    );
    assert_eq!(detect_event_kind("anything", "picante::db"), EventKind::Build);
    assert_eq!(detect_event_kind("Triggering Reload", "x"), EventKind::Reload);
    assert_eq!(detect_event_kind("live reload connected", "x"), EventKind::Server);
    assert_eq!(detect_event_kind("sent patch", "x"), EventKind::Patch);
    assert_eq!(detect_event_kind("Pagefind done", "x"), EventKind::Search);
    assert_eq!(detect_event_kind("file changed: a.md", "x"), EventKind::FileChange);
    assert_eq!(detect_event_kind("compiling sass", "x"), EventKind::Build);
    assert_eq!(detect_event_kind("hello", "x"), EventKind::Generic);
}

#[test]
fn layer_routes_events() {
    let mut layer = TuiLayer::new();
    assert!(layer.event_for(Level::Debug, "dodeca", None, "n").is_none());
    let e = layer
        .event_for(Level::Warn, "dodeca::serve", None, "evt")
        .unwrap();
    assert_eq!(e.message, "dodeca::serve: evt");
    assert_eq!(e.level, LogLevel::Warn);
    assert!(layer.event_for(Level::Info, "picante::x", None, "n").is_none());
    layer.filter.toggle_picante_debug();
    let p = layer
        .event_for(Level::Trace, "picante::x", Some("query ran".to_string()), "n")
        .unwrap();
    assert_eq!(p.kind, EventKind::Build);
    assert_eq!(p.message, "query ran");
    let slow = layer.slow_span_event("render_page", 73).unwrap();
    assert_eq!(slow.message, "slow query: render_page took 73ms");
    assert_eq!(slow.kind, EventKind::Build);
    assert!(layer.slow_span_event("fast", 49).is_none());
    assert!(layer.filter_handle().is_picante_debug_enabled());
}

#[test]
fn layer_handles_share_settings() {
    let mut layer = TuiLayer::new();
    let b = layer.filter_handle().toggle_picante_debug();
    assert_eq!(layer.filter_handle().toggle_picante_debug(), !b);
    assert!(layer.filter_handle().set_filter("dodeca=debug").is_some());
    assert_eq!(layer.filter_handle().get_filter_expression(), Some("dodeca=debug".to_string()));
    assert!(layer.should_show_with_filter("dodeca::serve", Level::Debug));
    let l = layer.filter_handle().cycle_log_level();
    assert_eq!(layer.get_log_level(), l);
    assert_eq!(layer.filter_handle().get_log_level(), l);
}
