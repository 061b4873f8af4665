use dodeca::build_stats::{
    code_execution_verdict, count_code_executions, failure_report, has_render_error,
    plan_writes, production_render_failure, template_error_message, CodeExecutionVerdict,
    OutputKind, PlannedWrite,
};
use dodeca::cas::ContentStore;
use dodeca::db::{CodeExecutionResult, CodeExecutionStatus};

fn sample(status: CodeExecutionStatus, error: Option<&str>, stderr: &str) -> CodeExecutionResult {
    CodeExecutionResult {
        source_path: "guide/intro.md".to_string(),
        line: 42,
        language: "rust".to_string(),
        code: "fn main() {}".to_string(),
        status,
        exit_code: None,
        stdout: String::new(),
        stderr: stderr.to_string(),
        duration_ms: 3,
        error: error.map(|e| e.to_string()),
        metadata: None,
    }
}

#[test]
fn counts_each_outcome() {
    let rs = vec![
        sample(CodeExecutionStatus::Success, None, ""),
        sample(CodeExecutionStatus::Skipped, None, ""),
        sample(CodeExecutionStatus::Success, None, ""),
        sample(CodeExecutionStatus::Failed, Some("boom"), ""),
    ];
    let c = count_code_executions(&rs);
    assert_eq!((c.failed, c.executed, c.skipped, c.total), (1, 2, 1, 4));
}

#[test]
fn failures_fail_production_builds() {
    let rs = vec![sample(CodeExecutionStatus::Failed, None, ""), sample(CodeExecutionStatus::Failed, None, "")];
    let c = count_code_executions(&rs);
    match code_execution_verdict(c, false) {
        CodeExecutionVerdict::Fail(m) => {
            assert_eq!(m, "Build failed: 2 code sample(s) failed execution")
        }
        other => panic!("unexpected {:?}", other),
    }
    match code_execution_verdict(c, true) {
        CodeExecutionVerdict::Warn(m) => assert_eq!(
            m,
            "Warning: 2 code sample(s) failed execution (continuing in dev mode)"
        ),
        other => panic!("unexpected {:?}", other),
    }
}

#[test]
fn summary_mentions_skipped_only_when_some() {
    let rs = vec![sample(CodeExecutionStatus::Success, None, ""), sample(CodeExecutionStatus::Skipped, None, "")];
    match code_execution_verdict(count_code_executions(&rs), false) {
        CodeExecutionVerdict::Summary(m) => {
            assert_eq!(m, "1 code samples executed successfully, 1 skipped")
        }
        other => panic!("unexpected {:?}", other),
    }
    let rs = vec![sample(CodeExecutionStatus::Success, None, "")];
    match code_execution_verdict(count_code_executions(&rs), false) {
        CodeExecutionVerdict::Summary(m) => assert_eq!(m, "1 code samples executed successfully"),
        other => panic!("unexpected {:?}", other),
    }
    assert!(matches!(
        code_execution_verdict(count_code_executions(&vec![]), false),
        CodeExecutionVerdict::Nothing
    ));
}

#[test]
fn failure_report_lines() {
    let r = sample(CodeExecutionStatus::Failed, Some("exit status 101"), "thread panicked");
    assert_eq!(
        failure_report(&r),
        "Code execution failed in guide/intro.md:42 (rust): exit status 101\n  stderr: thread panicked"
    );
    let r = sample(CodeExecutionStatus::Failed, None, "");
    assert_eq!(failure_report(&r), "Code execution failed in guide/intro.md:42 (rust): Unknown error");
}

#[test]
fn template_error_text_inside_pre() {
    let page = "<html><body><h1>Error</h1><pre>unknown variable `title`</pre></body></html>";
    assert_eq!(
        template_error_message("/guide/", page),
        "Template error rendering /guide/: unknown variable `title`"
    );
    assert_eq!(template_error_message("/", "no markup"), "Template error rendering /: no markup");
}

#[test]
fn production_builds_fail_on_error_pages() {
    let marker = "<!-- render-error -->";
    let page = "<html><!-- render-error --><pre>missing block</pre></html>";
    assert!(has_render_error(page, marker));
    assert!(!has_render_error("<html>fine</html>", marker));
    assert_eq!(
        production_render_failure("/a/", page, false, marker),
        Some("Template error rendering /a/: missing block".to_string())
    );
    assert_eq!(production_render_failure("/a/", page, true, marker), None);
    assert_eq!(production_render_failure("/a/", "<html>fine</html>", false, marker), None);
}

#[test]
fn build_writes_only_changed_outputs() {
    let mut store = ContentStore::new();
    store.record("out/index.html".to_string(), 1);
    store.record("out/a.css".to_string(), 5);
    let outs = vec![
        PlannedWrite { kind: OutputKind::Html, path: "out/index.html".to_string(), hash: 1, exists: true },
        PlannedWrite { kind: OutputKind::Html, path: "out/b/index.html".to_string(), hash: 2, exists: false },
        PlannedWrite { kind: OutputKind::Css, path: "out/a.css".to_string(), hash: 6, exists: true },
        PlannedWrite { kind: OutputKind::Static, path: "out/x.png".to_string(), hash: 3, exists: false },
        // the same file again, unchanged: it was just written, so it is skipped
        PlannedWrite { kind: OutputKind::Static, path: "out/x.png".to_string(), hash: 3, exists: false },
    ];
    let (stats, flags) = plan_writes(&mut store, &outs);
    assert_eq!(flags, vec![false, true, true, true, false]);
    assert_eq!((stats.html_written, stats.html_skipped), (1, 1));
    assert!(stats.css_written);
    assert_eq!((stats.static_written, stats.static_skipped), (1, 1));
    assert_eq!(store.stored_hash("out/a.css"), Some(6));
    assert_eq!(store.stored_hash("out/b/index.html"), Some(2));
}
