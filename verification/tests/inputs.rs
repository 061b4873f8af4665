use dodeca::inputs::{
    build_reads, data_dir, input_dir, relative_path, sass_dir, serve_reads, static_dir,
    templates_dir, InputDir,
};
use dodeca::serve_control::{bind_ips, fixed_bind_ips};
use dodeca::tui::BindMode;

#[test]
fn sibling_directories_of_content() {
    assert_eq!(templates_dir("site/content"), "site/templates");
    assert_eq!(sass_dir("site/content"), "site/sass");
    assert_eq!(static_dir("/home/me/site/content"), "/home/me/site/static");
    assert_eq!(data_dir("site/content"), "site/data");
    assert_eq!(input_dir("site/content", InputDir::Content), "site/content");
}

#[test]
fn sibling_directory_of_bare_content_dir() {
    // "content" has the empty path as parent
    assert_eq!(templates_dir("content"), "templates");
    // "/" has no parent: the directory itself is used
    assert_eq!(templates_dir("/"), "/templates");
}

#[test]
fn build_reads_by_extension() {
    assert!(build_reads(InputDir::Content, "content/index.md"));
    assert!(!build_reads(InputDir::Content, "content/image.png"));
    assert!(!build_reads(InputDir::Content, "content/README"));
    assert!(build_reads(InputDir::Templates, "templates/page.html"));
    assert!(!build_reads(InputDir::Templates, "templates/page.htm"));
    assert!(build_reads(InputDir::Sass, "sass/main.scss"));
    assert!(build_reads(InputDir::Sass, "sass/old.sass"));
    assert!(!build_reads(InputDir::Sass, "sass/plain.css"));
    assert!(build_reads(InputDir::Static, "static/anything.bin"));
    assert!(build_reads(InputDir::Static, "static/no_extension"));
}

#[test]
fn data_formats_and_case() {
    for name in ["a.kdl", "a.json", "a.toml", "a.yaml", "a.yml"] {
        assert!(build_reads(InputDir::Data, name));
        assert!(serve_reads(InputDir::Data, name));
    }
    assert!(build_reads(InputDir::Data, "data/A.JSON"));
    assert!(!serve_reads(InputDir::Data, "data/A.JSON"));
    assert!(!build_reads(InputDir::Data, "data/notes.txt"));
    assert!(!build_reads(InputDir::Data, "data/.json"));
}

#[test]
fn relative_paths_below_their_directory() {
    assert_eq!(relative_path("site/content/blog/post.md", "site/content"), "blog/post.md");
    assert_eq!(relative_path("site/content/blog/post.md", "site/content/"), "blog/post.md");
    assert_eq!(relative_path("elsewhere/post.md", "site/content"), "elsewhere/post.md");
    // only whole components match
    assert_eq!(relative_path("site/contents/a.md", "site/content"), "site/contents/a.md");
}

#[test]
fn bind_addresses_per_mode() {
    let lan = vec![[192, 168, 1, 5], [10, 0, 0, 2]];
    assert_eq!(bind_ips(BindMode::Local, &lan), vec![[127, 0, 0, 1]]);
    assert_eq!(
        bind_ips(BindMode::Lan, &lan),
        vec![[127, 0, 0, 1], [192, 168, 1, 5], [10, 0, 0, 2]]
    );
}

#[test]
fn fixed_bind_addresses() {
    let lan = vec![[192, 168, 1, 5]];
    assert_eq!(
        fixed_bind_ips(true, "127.0.0.1", Some([127, 0, 0, 1]), &lan),
        vec![[127, 0, 0, 1], [192, 168, 1, 5]]
    );
    assert_eq!(
        fixed_bind_ips(false, "0.0.0.0", Some([0, 0, 0, 0]), &lan),
        vec![[127, 0, 0, 1], [192, 168, 1, 5]]
    );
    assert_eq!(fixed_bind_ips(false, "10.1.2.3", Some([10, 1, 2, 3]), &lan), vec![[10, 1, 2, 3]]);
    assert_eq!(fixed_bind_ips(false, "::1", None, &lan), vec![[127, 0, 0, 1]]);
}
