use dodeca::db::ReqDefinition;
use dodeca::rules::{collect_rules, generate_redirect_html, RuleSource};
use dodeca::types::Route;

fn rule(id: &str, anchor: &str) -> ReqDefinition {
    ReqDefinition {
        id: id.to_string(),
        anchor_id: anchor.to_string(),
    }
}

#[test]
fn rules_collect_with_duplicates() {
    let sources = vec![
        RuleSource {
            route: Route::from_static("/spec/core"),
            rules: vec![rule("a", "r-a"), rule("b", "r-b")],
        },
        RuleSource {
            route: Route::from_static("/spec/other"),
            rules: vec![rule("a", "r-a2"), rule("c", "r-c")],
        },
    ];
    let (manifest, dups) = collect_rules(&sources);
    let entries: Vec<(String, String)> = manifest
        .rules
        .iter()
        .map(|(id, e)| (id.clone(), e.url.clone()))
        .collect();
    assert_eq!(
        entries,
        vec![
            ("a".to_string(), "/spec/core#r-a".to_string()),
            ("b".to_string(), "/spec/core#r-b".to_string()),
            ("c".to_string(), "/spec/other#r-c".to_string()),
        ]
    );
    assert_eq!(dups.len(), 1);
    assert_eq!(dups[0].id, "a");
    assert_eq!(dups[0].first_url, "/spec/core#r-a");
    assert_eq!(dups[0].second_url, "/spec/other#r-a2");
}

#[test]
fn redirect_page() {
    let html = generate_redirect_html("r.x", "/spec/#r-x");
    assert!(html.starts_with("<!DOCTYPE html>\n<html lang=\"en\">"));
    assert!(html.contains("<meta http-equiv=\"refresh\" content=\"0; url=/spec/#r-x\">"));
    assert!(html.contains("<link rel=\"canonical\" href=\"/spec/#r-x\">"));
    assert!(html.contains("<title>Redirecting to r.x</title>"));
    assert!(html.ends_with("Redirecting to <a href=\"/spec/#r-x\">r.x</a>...\n</body>\n</html>\n"));
}
