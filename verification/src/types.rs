//! Small value types shared across the site model.

use vstd::prelude::*;

verus! {

/// A URL route of the generated site, such as `/learn/page`.
#[derive(Clone, Debug)]
pub struct Route {
    inner: String,
}

impl View for Route {
    type V = Seq<char>;

    closed spec fn view(&self) -> Seq<char> {
        self.inner@
    }
}

impl Route {
    /// A route from its text.
    pub fn new(s: String) -> (r: Route)
        ensures
            r@ == s@,
    {
        Route { inner: s }
    }

    /// A route from a string literal.
    pub fn from_static(s: &'static str) -> (r: Route)
        ensures
            r@ == s@,
    {
        Route { inner: s.to_owned() }
    }

    /// The site root, `/`.
    pub fn root() -> (r: Route)
        ensures
            r@ == seq!['/'],
    {
        let s = "/".to_owned();
        proof {
            reveal_strlit("/");
        }
        Route { inner: s }
    }

    /// The route's text.
    pub fn as_str(&self) -> (r: &str)
        ensures
            r@ == self@,
    {
        self.inner.as_str()
    }

    /// A copy of the route.
    pub fn duplicate(&self) -> (r: Route)
        ensures
            r@ == self@,
    {
        Route { inner: self.inner.clone() }
    }
}

/// Path of a content source file, relative to the content directory.
#[derive(Clone, Debug)]
pub struct SourcePath(pub String);

/// Text of a content source file.
#[derive(Clone, Debug)]
pub struct SourceContent(pub String);

/// Path of a template file.
#[derive(Clone, Debug)]
pub struct TemplatePath(pub String);

/// Text of a template file.
#[derive(Clone, Debug)]
pub struct TemplateContent(pub String);

/// Path of a Sass stylesheet.
#[derive(Clone, Debug)]
pub struct SassPath(pub String);

/// Text of a Sass stylesheet.
#[derive(Clone, Debug)]
pub struct SassContent(pub String);

/// Path of a static asset.
#[derive(Clone, Debug)]
pub struct StaticPath(pub String);

/// Path of a data file.
#[derive(Clone, Debug)]
pub struct DataPath(pub String);

/// Text of a data file.
#[derive(Clone, Debug)]
pub struct DataContent(pub String);

/// Rendered HTML body of a page or section.
#[derive(Clone, Debug)]
pub struct HtmlBody(pub String);

/// Title of a page or section.
#[derive(Clone, Debug)]
pub struct Title(pub String);

} // verus!
