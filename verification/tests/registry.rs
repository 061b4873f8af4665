use dodeca::db::{SourceFile, SourceRegistry, StaticFile, StaticRegistry};
use dodeca::types::{SourceContent, SourcePath, StaticPath};

fn src(path: &str, text: &str) -> SourceFile {
    SourceFile {
        path: SourcePath(path.to_string()),
        content: SourceContent(text.to_string()),
        last_modified: 0,
    }
}

#[test]
fn changed_files_replace_or_add() {
    let mut reg = SourceRegistry { sources: vec![] };
    assert!(reg.upsert(src("a.md", "1")));
    assert!(reg.upsert(src("b.md", "2")));
    assert!(!reg.upsert(src("a.md", "3")));
    let seen: Vec<(String, String)> = reg
        .sources
        .iter()
        .map(|s| (s.path.0.clone(), s.content.0.clone()))
        .collect();
    assert_eq!(
        seen,
        vec![("a.md".to_string(), "3".to_string()), ("b.md".to_string(), "2".to_string())]
    );
    assert!(reg.remove("a.md"));
    assert!(!reg.remove("a.md"));
    assert_eq!(reg.sources.len(), 1);
    assert_eq!(reg.sources[0].path.0, "b.md");
}

#[test]
fn empty_static_files_are_ignored() {
    let mut reg = StaticRegistry { files: vec![] };
    assert!(!reg.upsert(StaticFile {
        path: StaticPath("x.css".to_string()),
        content: vec![],
    }));
    assert!(reg.files.is_empty());
    assert!(reg.upsert(StaticFile {
        path: StaticPath("x.css".to_string()),
        content: vec![1],
    }));
    assert_eq!(reg.files.len(), 1);
}
