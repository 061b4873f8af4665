use dodeca::static_site::{guess_static_mime, not_found_page, static_lookup_paths};

#[test]
fn lookup_paths() {
    assert_eq!(static_lookup_paths("dist", "/"), vec!["dist/index.html".to_string()]);
    assert_eq!(static_lookup_paths("dist", ""), vec!["dist/index.html".to_string()]);
    assert_eq!(static_lookup_paths("dist", "//docs/"), vec!["dist/docs/index.html".to_string()]);
    assert_eq!(
        static_lookup_paths("/srv/site", "/a/b"),
        vec!["/srv/site/a/b".to_string(), "/srv/site/a/b/index.html".to_string()]
    );
}

#[test]
fn not_found() {
    let p = not_found_page("/missing/page");
    assert!(p.contains("<code>/missing/page</code>"));
    assert!(p.starts_with("<!DOCTYPE html>"));
}

#[test]
fn static_mime() {
    assert_eq!(guess_static_mime("a.htm"), "text/html");
    assert_eq!(guess_static_mime("favicon.ico"), "image/x-icon");
    assert_eq!(guess_static_mime("sitemap.xml"), "application/xml");
    assert_eq!(guess_static_mime("x.bin"), "application/octet-stream");
}
