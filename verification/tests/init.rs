use dodeca::init::{available_templates, fill_site_name, humanize_name, select_template};

#[test]
fn test_humanize_name() {
    assert_eq!(humanize_name("my-site"), "My Site");
    assert_eq!(humanize_name("my-cool-blog"), "My Cool Blog");
    assert_eq!(humanize_name("site"), "Site");
    assert_eq!(humanize_name(""), "");
}

#[test]
fn templates_and_selection() {
    let t = available_templates();
    assert_eq!(t.len(), 2);
    assert_eq!(t[0].name, "minimal");
    assert_eq!(t[1].name, "blog");
    assert_eq!(select_template(&t, "blog"), Ok(1));
    assert_eq!(
        select_template(&t, "docs"),
        Err("Unknown template: 'docs'. Available templates: minimal, blog".to_string())
    );
}

#[test]
fn site_name_is_filled_in() {
    assert_eq!(
        fill_site_name("title = \"{{site_name}}\" # {{site_name}}", "My Site"),
        "title = \"My Site\" # My Site"
    );
    assert_eq!(fill_site_name("no placeholder", "X"), "no placeholder");
    assert_eq!(fill_site_name("{{site_name}}{{site_name}}", ""), "");
    assert_eq!(humanize_name("a--b"), "A  B");
}
