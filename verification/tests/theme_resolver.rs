use arborium_theme::theme::builtin;
use dodeca::theme_resolver::{generate_theme_css, list_available_themes, resolve_theme_name};

#[test]
fn test_resolve_theme_name_valid() {
    assert_eq!(resolve_theme_name("tokyo-night").unwrap(), "tokyo_night");
    assert_eq!(resolve_theme_name("github-light").unwrap(), "github_light");
    assert_eq!(resolve_theme_name("catppuccin-mocha").unwrap(), "catppuccin_mocha");
}

#[test]
fn test_resolve_theme_name_invalid() {
    let result = resolve_theme_name("invalid-theme");
    assert!(result.is_err());
    let err = result.unwrap_err();
    assert!(err.contains("Unknown theme"));
    assert!(err.contains("Available themes"));
}

#[test]
fn test_generate_theme_css() {
    let css = generate_theme_css("tokyo-night").unwrap();
    assert!(!css.is_empty());
    // CSS should contain custom element selectors
    assert!(css.contains("a-"));
}

#[test]
fn test_generate_both_themes() {
    let light_css = generate_theme_css("github-light").unwrap();
    let dark_css = generate_theme_css("tokyo-night").unwrap();
    assert!(!light_css.is_empty());
    assert!(!dark_css.is_empty());
    assert!(light_css.contains("a-"));
    assert!(dark_css.contains("a-"));
}

#[test]
fn test_list_available_themes_not_empty() {
    let themes = list_available_themes();
    assert!(!themes.is_empty());
    assert!(themes.contains(&"tokyo-night"));
    assert!(themes.contains(&"github-light"));
}

#[test]
fn every_listed_theme_resolves_to_its_own_css() {
    for name in list_available_themes() {
        let resolved = resolve_theme_name(name).unwrap();
        assert_eq!(resolved, name.replace('-', "_"));
        assert_eq!(resolve_theme_name(&name.to_uppercase()).unwrap(), resolved);
    }
    assert_eq!(generate_theme_css("github-dark").unwrap(), builtin::github_dark().to_css(""));
    assert_eq!(generate_theme_css("Zenburn").unwrap(), builtin::zenburn().to_css(""));
    assert_eq!(
        generate_theme_css("ef-melissa-dark").unwrap(),
        builtin::ef_melissa_dark().to_css("")
    );
    assert_eq!(generate_theme_css("alabaster").unwrap(), builtin::alabaster().to_css(""));
}

#[test]
fn unknown_theme_lists_every_name() {
    let err = generate_theme_css("nope").unwrap_err();
    assert!(err.starts_with("Unknown theme 'nope'. Available themes:\n  alabaster\n  ayu-dark"));
    assert!(err.ends_with("\n  zenburn"));
}
