//! The input files of a project: where each kind lives, which files found
//! there a build or the development server reads, and the path each one is
//! known by.

use vstd::prelude::*;
use crate::text::{eq_str, str_chars, to_lowercase, lower_text};

verus! {

/// What `camino::Utf8Path::extension` returns for a path.
pub uninterp spec fn camino_extension(path: Seq<char>) -> Option<Seq<char>>;

/// What `camino::Utf8Path::parent` returns for a path.
pub uninterp spec fn camino_parent(path: Seq<char>) -> Option<Seq<char>>;

/// What `camino::Utf8Path::join` returns for a path and a part.
pub uninterp spec fn camino_join(base: Seq<char>, part: Seq<char>) -> Seq<char>;

/// What `camino::Utf8Path::strip_prefix` returns for a path and a base
/// (`None` where it fails).
pub uninterp spec fn camino_strip_prefix(path: Seq<char>, base: Seq<char>) -> Option<Seq<char>>;

/// Calls `camino::Utf8Path::extension`: the part of the file name after its
/// last `.`. The result is taken as a function of the path alone and named.
#[verifier::external_body]
fn path_extension(path: &str) -> (r: Option<String>)
    ensures
        match r {
            Some(e) => camino_extension(path@) == Some(e@),
            None => camino_extension(path@) is None,
        },
{
    camino::Utf8Path::new(path).extension().map(String::from)
}

/// Calls `camino::Utf8Path::parent`: the path without its last component.
/// The result is taken as a function of the path alone and named.
#[verifier::external_body]
pub(crate) fn path_parent(path: &str) -> (r: Option<String>)
    ensures
        match r {
            Some(p) => camino_parent(path@) == Some(p@),
            None => camino_parent(path@) is None,
        },
{
    camino::Utf8Path::new(path).parent().map(camino::Utf8Path::as_str).map(String::from)
}

/// Calls `camino::Utf8Path::join`: `part` adjoined to `base`. The result is
/// taken as a function of the two paths alone and named.
#[verifier::external_body]
pub(crate) fn path_join(base: &str, part: &str) -> (r: String)
    ensures
        r@ == camino_join(base@, part@),
{
    camino::Utf8Path::new(base).join(part).into_string()
}

/// Calls `camino::Utf8Path::strip_prefix`: the rest of `path` after the
/// whole components of `base`, or `None` where `base` is not a prefix. The
/// result is taken as a function of the two paths alone and named.
#[verifier::external_body]
fn path_strip_prefix(path: &str, base: &str) -> (r: Option<String>)
    ensures
        match r {
            Some(p) => camino_strip_prefix(path@, base@) == Some(p@),
            None => camino_strip_prefix(path@, base@) is None,
        },
{
    camino::Utf8Path::new(path).strip_prefix(base).ok().map(camino::Utf8Path::as_str).map(
        String::from,
    )
}

/// The directories a project's inputs are read from.
#[derive(Clone, Copy, Debug, PartialEq, Eq, Structural)]
pub enum InputDir {
    /// Markdown content
    Content,
    /// HTML templates
    Templates,
    /// Sass and SCSS stylesheets
    Sass,
    /// Files copied as they are
    Static,
    /// Data files for templates
    Data,
}

/// The name of a directory that stands beside the content directory.
pub open spec fn sibling_name(dir: InputDir) -> Seq<char> {
    match dir {
        InputDir::Content => "content"@,
        InputDir::Templates => "templates"@,
        InputDir::Sass => "sass"@,
        InputDir::Static => "static"@,
        InputDir::Data => "data"@,
    }
}

/// The directory the content directory stands in: its parent, or itself
/// where it has none.
pub open spec fn project_root(content_dir: Seq<char>) -> Seq<char> {
    match camino_parent(content_dir) {
        Some(p) => p,
        None => content_dir,
    }
}

/// Where the inputs of `dir` are read from: the content directory itself,
/// or the directory of that name beside it.
pub open spec fn input_dir_spec(content_dir: Seq<char>, dir: InputDir) -> Seq<char> {
    match dir {
        InputDir::Content => content_dir,
        _ => camino_join(project_root(content_dir), sibling_name(dir)),
    }
}

/// Where the inputs of `dir` are read from, for a content directory.
pub fn input_dir(content_dir: &str, dir: InputDir) -> (r: String)
    ensures
        r@ == input_dir_spec(content_dir@, dir),
{
    match dir {
        InputDir::Content => content_dir.to_string(),
        _ => {
            let root = match path_parent(content_dir) {
                Some(p) => p,
                None => content_dir.to_string(),
            };
            let name = match dir {
                InputDir::Templates => "templates",
                InputDir::Sass => "sass",
                InputDir::Static => "static",
                _ => "data",
            };
            proof {
                reveal_strlit("templates");
                reveal_strlit("sass");
                reveal_strlit("static");
                reveal_strlit("data");
            }
            path_join(root.as_str(), name)
        },
    }
}

/// The templates directory beside the content directory.
pub fn templates_dir(content_dir: &str) -> (r: String)
    ensures
        r@ == input_dir_spec(content_dir@, InputDir::Templates),
{
    input_dir(content_dir, InputDir::Templates)
}

/// The stylesheet directory beside the content directory.
pub fn sass_dir(content_dir: &str) -> (r: String)
    ensures
        r@ == input_dir_spec(content_dir@, InputDir::Sass),
{
    input_dir(content_dir, InputDir::Sass)
}

/// The static file directory beside the content directory.
pub fn static_dir(content_dir: &str) -> (r: String)
    ensures
        r@ == input_dir_spec(content_dir@, InputDir::Static),
{
    input_dir(content_dir, InputDir::Static)
}

/// The data directory beside the content directory.
pub fn data_dir(content_dir: &str) -> (r: String)
    ensures
        r@ == input_dir_spec(content_dir@, InputDir::Data),
{
    input_dir(content_dir, InputDir::Data)
}

/// The data formats that are read.
pub open spec fn is_data_format(ext: Seq<char>) -> bool {
    ext == "kdl"@ || ext == "json"@ || ext == "toml"@ || ext == "yaml"@ || ext == "yml"@
}

/// Whether a file found in `dir` is an input, with the extension of a data
/// file compared after lowercasing (`fold` true) or as it is.
pub open spec fn is_input(dir: InputDir, path: Seq<char>, fold: bool) -> bool {
    let ext = camino_extension(path);
    match dir {
        InputDir::Content => ext == Some("md"@),
        InputDir::Templates => ext == Some("html"@),
        InputDir::Sass => ext == Some("scss"@) || ext == Some("sass"@),
        InputDir::Static => true,
        InputDir::Data => match ext {
            Some(e) => is_data_format(if fold { lower_text(e) } else { e }),
            None => false,
        },
    }
}

fn is_data_format_exec(e: &str) -> (r: bool)
    ensures
        r == is_data_format(e@),
{
    let c = str_chars(e);
    eq_str(&c, "kdl") || eq_str(&c, "json") || eq_str(&c, "toml") || eq_str(&c, "yaml")
        || eq_str(&c, "yml")
}

fn classify(dir: InputDir, path: &str, fold: bool) -> (r: bool)
    ensures
        r == is_input(dir, path@, fold),
{
    let ext = path_extension(path);
    match dir {
        InputDir::Static => true,
        InputDir::Data => match ext {
            Some(e) => {
                if fold {
                    let l = to_lowercase(e.as_str());
                    is_data_format_exec(l.as_str())
                } else {
                    is_data_format_exec(e.as_str())
                }
            },
            None => false,
        },
        _ => match ext {
            Some(e) => {
                let c = str_chars(e.as_str());
                match dir {
                    InputDir::Content => eq_str(&c, "md"),
                    InputDir::Templates => eq_str(&c, "html"),
                    _ => eq_str(&c, "scss") || eq_str(&c, "sass"),
                }
            },
            None => false,
        },
    }
}

/// Whether a build reads the file at `path` found in `dir`: markdown
/// content, HTML templates, Sass and SCSS stylesheets, every static file,
/// and data files in a known format (the extension in any case).
pub fn build_reads(dir: InputDir, path: &str) -> (r: bool)
    ensures
        r == is_input(dir, path@, true),
{
    classify(dir, path, true)
}

/// Whether the development server reads the file at `path` found in `dir`:
/// as a build does, but a data file's extension must be in lower case.
pub fn serve_reads(dir: InputDir, path: &str) -> (r: bool)
    ensures
        r == is_input(dir, path@, false),
{
    classify(dir, path, false)
}

/// The path an input is known by: its path below the directory it was
/// found in, or the whole path where it does not lie below it.
pub fn relative_path(path: &str, dir: &str) -> (r: String)
    ensures
        r@ == match camino_strip_prefix(path@, dir@) {
            Some(rel) => rel,
            None => path@,
        },
{
    match path_strip_prefix(path, dir) {
        Some(rel) => rel,
        None => path.to_string(),
    }
}

} // verus!
