use dodeca::logging::{FilterHandle, TuiLogLevel};
use dodeca::serve_control::{
    apply_filter_command, bind_mode_label, binding_event, initial_bind_mode, mode_for_command,
    printed_server_urls, server_urls, terminal_link, FilterCommand,
};
use dodeca::tui::{BindMode, LogLevel, ServerCommand};
use owo_colors::OwoColorize;

#[test]
fn bind_modes() {
    assert_eq!(initial_bind_mode(false, "127.0.0.1"), BindMode::Local);
    assert_eq!(initial_bind_mode(false, "0.0.0.0"), BindMode::Lan);
    assert_eq!(initial_bind_mode(true, "127.0.0.1"), BindMode::Lan);
    assert_eq!(mode_for_command(ServerCommand::GoPublic), BindMode::Lan);
    assert_eq!(mode_for_command(ServerCommand::GoLocal), BindMode::Local);
    assert_eq!(bind_mode_label(BindMode::Lan), "LAN");
}

#[test]
fn urls_and_binding_message() {
    let urls = server_urls(&vec![[127, 0, 0, 1], [192, 168, 1, 20]], 4000);
    assert_eq!(
        urls,
        vec!["http://127.0.0.1:4000".to_string(), "http://192.168.1.20:4000".to_string()]
    );
    let e = binding_event(2, 4000, BindMode::Local);
    assert_eq!(e.message, "Binding to 2 IPs on port 4000 (localhost only)");
}

#[test]
fn filter_commands() {
    let mut h = FilterHandle::new();
    let e = apply_filter_command(&mut h, FilterCommand::CycleLogLevel);
    assert_eq!(e.message, "Log level: DEBUG");
    assert_eq!(h.get_log_level(), TuiLogLevel::Debug);
    let e = apply_filter_command(&mut h, FilterCommand::TogglePicanteDebug);
    assert_eq!(e.message, "Picante debug: ON");
    let e = apply_filter_command(
        &mut h,
        FilterCommand::SetLogFilter {
            filter: "warn,x=trace".to_string(),
        },
    );
    assert_eq!(e.message, "Log filter: warn,x=trace");
    let e = apply_filter_command(
        &mut h,
        FilterCommand::SetLogFilter {
            filter: " ".to_string(),
        },
    );
    assert_eq!(e.message, "Log filter cleared");
    let e = apply_filter_command(
        &mut h,
        FilterCommand::SetLogFilter {
            filter: "x=y".to_string(),
        },
    );
    assert_eq!(e.level, LogLevel::Warn);
    assert_eq!(e.message, "Invalid log filter: x=y");
}

#[test]
fn hyperlinks() {
    let link = terminal_link("http://a", "A");
    assert_eq!(link, format!("\x1b]8;;http://a\x1b\\{}\x1b]8;;\x1b\\", "A".blue().underline()));
    assert_eq!(link, "\x1b]8;;http://a\x1b\\\x1b[4m\x1b[34mA\x1b[39m\x1b[0m\x1b]8;;\x1b\\");
}

#[test]
fn printed_urls_per_address() {
    assert_eq!(
        printed_server_urls("127.0.0.1", 4000, &vec![[10, 0, 0, 1]]),
        vec!["http://127.0.0.1:4000".to_string()]
    );
    assert_eq!(
        printed_server_urls("0.0.0.0", 8080, &vec![[127, 0, 0, 1], [192, 168, 0, 7]]),
        vec!["http://127.0.0.1:8080".to_string(), "http://192.168.0.7:8080".to_string()]
    );
    assert_eq!(printed_server_urls("localhost", 1, &vec![]), vec!["http://localhost:1".to_string()]);
}
