use dodeca::cli::{
    clean_cache_dir, dirs_from_args, resolve_with_config, select_command, serve_uses_tui,
    CommandError, CommandName, ProjectConfig,
};
use dodeca::render::{output_html_path, route_of_output_file};
use dodeca::types::Route;

fn args(v: &[&str]) -> Vec<String> {
    v.iter().map(|s| s.to_string()).collect()
}

#[test]
fn known_commands_are_selected() {
    assert_eq!(select_command(&args(&["ddc", "build"])).ok(), Some(CommandName::Build));
    assert_eq!(select_command(&args(&["ddc", "serve", "--port", "4001"])).ok(), Some(CommandName::Serve));
    assert_eq!(select_command(&args(&["ddc", "clean"])).ok(), Some(CommandName::Clean));
    assert_eq!(select_command(&args(&["ddc", "static", "dist"])).ok(), Some(CommandName::Static));
    assert_eq!(select_command(&args(&["ddc", "init", "blog"])).ok(), Some(CommandName::Init));
    for h in ["help", "--help", "-h"] {
        assert_eq!(select_command(&args(&["ddc", h])).ok(), Some(CommandName::Help));
    }
}

#[test]
fn missing_and_unknown_commands() {
    match select_command(&args(&["ddc"])) {
        Err(e @ CommandError::NoCommand) => assert_eq!(e.message(), "No command specified"),
        other => panic!("unexpected {:?}", other),
    }
    match select_command(&args(&["ddc", "publish"])) {
        Err(e @ CommandError::Unknown(_)) => assert_eq!(e.message(), "Unknown command: publish"),
        other => panic!("unexpected {:?}", other),
    }
}

#[test]
fn terminal_interface_choice() {
    assert_eq!(serve_uses_tui(false, false, true, false), Ok(true));
    assert_eq!(serve_uses_tui(false, false, false, false), Ok(false));
    assert_eq!(serve_uses_tui(false, true, true, false), Ok(false));
    assert_eq!(serve_uses_tui(true, true, false, false), Ok(true));
    assert_eq!(serve_uses_tui(false, true, true, true), Ok(false));
    assert_eq!(
        serve_uses_tui(true, false, false, true),
        Err("FD passing is only supported in --no-tui mode".to_string())
    );
}

#[test]
fn both_directories_need_no_config() {
    let c = dirs_from_args(&Some("docs".to_string()), &Some("public".to_string())).unwrap();
    assert_eq!((c.content_dir.as_str(), c.output_dir.as_str()), ("docs", "public"));
    assert!(c.skip_domains.is_empty() && c.rate_limit_ms.is_none() && c.stable_assets.is_empty());
    assert!(dirs_from_args(&Some("docs".to_string()), &None).is_none());
    assert!(dirs_from_args(&None, &None).is_none());
}

#[test]
fn config_fills_what_args_leave_out() {
    let cfg = ProjectConfig {
        content_dir: "content".to_string(),
        output_dir: "out".to_string(),
        skip_domains: vec!["example.com".to_string()],
        rate_limit_ms: Some(250),
        stable_assets: vec!["favicon.ico".to_string()],
    };
    let r = resolve_with_config(&None, None, Some("dist".to_string()), Some(cfg)).unwrap();
    assert_eq!(r.content_dir, "content");
    assert_eq!(r.output_dir, "dist");
    assert_eq!(r.skip_domains, vec!["example.com".to_string()]);
    assert_eq!(r.rate_limit_ms, Some(250));
    assert_eq!(r.stable_assets, vec!["favicon.ico".to_string()]);
}

#[test]
fn missing_config_names_where_it_was_looked_for() {
    assert_eq!(
        resolve_with_config(&Some("site".to_string()), None, None, None).err(),
        Some("site/.config/dodeca.kdl".to_string())
    );
    assert_eq!(resolve_with_config(&None, None, None, None).err(), Some(".config/dodeca.kdl".to_string()));
}

#[test]
fn clean_cache_locations() {
    assert_eq!(clean_cache_dir(&Some("site".to_string()), &None), "site/.cache");
    assert_eq!(clean_cache_dir(&None, &Some("site/content".to_string())), "site/.cache");
    assert_eq!(clean_cache_dir(&None, &None), "./.cache");
}

#[test]
fn output_paths_of_routes() {
    assert_eq!(output_html_path("public", &Route::new("/".to_string())), "public/index.html");
    assert_eq!(
        output_html_path("public", &Route::new("/guide/intro".to_string())),
        "public/guide/intro/index.html"
    );
    assert_eq!(
        output_html_path("public", &Route::new("/guide/".to_string())),
        "public/guide/index.html"
    );
}

#[test]
fn routes_of_output_files() {
    assert_eq!(route_of_output_file("index.html"), "/");
    assert_eq!(route_of_output_file("guide/intro/index.html"), "/guide/intro");
    assert_eq!(route_of_output_file("404.html"), "/404.html");
}
