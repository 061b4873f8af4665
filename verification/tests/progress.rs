use dodeca::boot_state::{BootPhase, BootState, ErrorKind};
use dodeca::tui::{
    BindMode, BuildProgress, EventKind, LogEvent, LogLevel, ServerStatus, TaskProgress,
    TaskStatus,
};

#[test]
fn task_progress_steps() {
    let mut task = TaskProgress::new("Test");
    assert_eq!((task.total, task.completed), (0, 0));
    assert_eq!(task.status, TaskStatus::Pending);
    task.start(2);
    assert_eq!(task.status, TaskStatus::Running);
    task.advance();
    task.advance();
    task.advance();
    assert_eq!(task.completed, 2);
    task.finish();
    assert_eq!(task.status, TaskStatus::Done);
    task.fail("boom".to_string());
    assert_eq!(task.status, TaskStatus::Error);
    assert_eq!(task.message.as_deref(), Some("boom"));
}

#[test]
fn defaults() {
    let p = BuildProgress::default();
    assert_eq!(p.parse.name, "Parsing");
    assert_eq!(p.search.name, "Search");
    let s = ServerStatus::default();
    assert!(!s.is_running && s.urls.is_empty());
    assert_eq!(s.bind_mode, BindMode::Local);
    assert_eq!(LogLevel::default(), LogLevel::Info);
}

#[test]
fn log_event_constructors() {
    let e = LogEvent::warn("w".to_string()).with_kind(EventKind::Server);
    assert_eq!((e.level, e.kind), (LogLevel::Warn, EventKind::Server));
    assert_eq!(LogEvent::http(404, "x".to_string()).level, LogLevel::Warn);
    assert_eq!(LogEvent::http(200, "x".to_string()).level, LogLevel::Info);
    assert_eq!(LogEvent::file_change("f".to_string()).kind, EventKind::FileChange);
    assert_eq!(LogEvent::build("b".to_string()).kind, EventKind::Build);
}

#[test]
fn boot_states() {
    assert!(matches!(
        BootState::booting(),
        BootState::Booting {
            phase: BootPhase::LoadingCells
        }
    ));
    assert!(BootState::ready().is_ready());
    let f = BootState::fatal(ErrorKind::MissingCell, "no cell".to_string());
    assert!(!f.is_ready());
    assert!(matches!(f, BootState::Fatal { error_kind: ErrorKind::MissingCell, .. }));
}
