use dodeca::self_update::{
    archive_name_for, find_release_asset, is_newer_version, parse_version, GitHubAsset,
};

#[test]
fn test_parse_version() {
    assert_eq!(parse_version("v0.2.12"), "0.2.12");
    assert_eq!(parse_version("0.2.12"), "0.2.12");
    assert_eq!(parse_version("v1.0.0"), "1.0.0");
}

#[test]
fn test_is_newer_version() {
    // Newer versions
    assert!(is_newer_version("0.2.12", "0.2.13"));
    assert!(is_newer_version("0.2.12", "0.3.0"));
    assert!(is_newer_version("0.2.12", "1.0.0"));
    assert!(is_newer_version("0.2.12", "v0.2.13"));

    // Same version
    assert!(!is_newer_version("0.2.12", "0.2.12"));
    assert!(!is_newer_version("0.2.12", "v0.2.12"));

    // Older versions
    assert!(!is_newer_version("0.2.12", "0.2.11"));
    assert!(!is_newer_version("0.2.12", "0.1.0"));
    assert!(!is_newer_version("1.0.0", "0.9.9"));
}

#[test]
fn missing_parts_count_as_zero() {
    assert!(!is_newer_version("1.0", "1.0.0"));
    assert!(is_newer_version("1.0", "1.0.1"));
    assert!(!is_newer_version("1.x.2", "1.2"));
}

#[test]
fn release_asset_for_a_target() {
    assert_eq!(
        archive_name_for("x86_64-unknown-linux-gnu"),
        "dodeca-x86_64-unknown-linux-gnu.tar.xz"
    );
    let assets = vec![
        GitHubAsset {
            name: "dodeca-aarch64-apple-darwin.tar.xz".to_string(),
            browser_download_url: "u1".to_string(),
        },
        GitHubAsset {
            name: "dodeca-x86_64-unknown-linux-gnu.tar.xz".to_string(),
            browser_download_url: "u2".to_string(),
        },
    ];
    assert_eq!(find_release_asset(&assets, "x86_64-unknown-linux-gnu"), Some(1));
    assert_eq!(find_release_asset(&assets, "x86_64-pc-windows-msvc"), None);
}
