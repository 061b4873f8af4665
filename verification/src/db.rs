//! The data the incremental build works on: input files and registries,
//! the parsed site model, and the outputs of the build queries.

use vstd::prelude::*;
use crate::types::{
    DataContent, DataPath, HtmlBody, Route, SassContent, SassPath, SourceContent, SourcePath,
    StaticPath, TemplateContent, TemplatePath,
};

verus! {

/// Counts of query executions and cache reuses during a build.
#[derive(Clone, Debug)]
pub struct QueryStats {
    /// Queries whose body ran.
    pub executed: usize,
    /// Queries answered from memoized results.
    pub reused: usize,
}

impl QueryStats {
    /// Fresh counters, both zero.
    pub fn new() -> (r: QueryStats)
        ensures
            r.executed == 0,
            r.reused == 0,
    {
        QueryStats { executed: 0, reused: 0 }
    }

    /// Number of executed queries.
    pub fn executed(&self) -> (r: usize)
        ensures
            r == self.executed,
    {
        self.executed
    }

    /// Number of reused queries.
    pub fn reused(&self) -> (r: usize)
        ensures
            r == self.reused,
    {
        self.reused
    }

    /// Executed plus reused.
    pub fn total(&self) -> (r: usize)
        requires
            self.executed + self.reused <= usize::MAX,
        ensures
            r == self.executed + self.reused,
    {
        self.executed + self.reused
    }
}

/// A content source file.
#[derive(Clone, Debug)]
pub struct SourceFile {
    pub path: SourcePath,
    pub content: SourceContent,
    /// Modification time, seconds since the Unix epoch.
    pub last_modified: i64,
}

/// A template file.
#[derive(Clone, Debug)]
pub struct TemplateFile {
    pub path: TemplatePath,
    pub content: TemplateContent,
}

/// A Sass stylesheet.
#[derive(Clone, Debug)]
pub struct SassFile {
    pub path: SassPath,
    pub content: SassContent,
}

/// All template files of the site.
#[derive(Clone, Debug)]
pub struct TemplateRegistry {
    pub templates: Vec<TemplateFile>,
}

/// All Sass files of the site.
#[derive(Clone, Debug)]
pub struct SassRegistry {
    pub files: Vec<SassFile>,
}

/// A static asset.
#[derive(Clone, Debug)]
pub struct StaticFile {
    pub path: StaticPath,
    pub content: Vec<u8>,
}

/// All static assets of the site.
#[derive(Clone, Debug)]
pub struct StaticRegistry {
    pub files: Vec<StaticFile>,
}

/// A data file (TOML, YAML, JSON).
#[derive(Clone, Debug)]
pub struct DataFile {
    pub path: DataPath,
    pub content: DataContent,
}

/// All data files of the site.
#[derive(Clone, Debug)]
pub struct DataRegistry {
    pub files: Vec<DataFile>,
}

/// All content source files of the site.
#[derive(Clone, Debug)]
pub struct SourceRegistry {
    pub sources: Vec<SourceFile>,
}

/// A set of characters used by the pages (for font subsetting).
#[derive(Clone, Debug)]
pub struct CharSet {
    pub chars: Vec<char>,
}

/// A heading of a page or section.
#[derive(Clone, Debug)]
pub struct Heading {
    /// The heading text.
    pub title: String,
    /// The anchor id.
    pub id: String,
    /// The heading level, 1 to 6.
    pub level: u8,
}

/// A requirement definition found in a page.
#[derive(Clone, Debug)]
pub struct ReqDefinition {
    /// The requirement id, such as `r[api.format]`.
    pub id: String,
    /// The anchor id used in the HTML.
    pub anchor_id: String,
}

/// The rendered HTML of one page.
#[derive(Clone, Debug)]
pub struct RenderedHtml(pub String);

/// One file of the built site.
#[derive(Clone, Debug)]
pub enum OutputFile {
    /// A rendered page.
    Html { route: Route, content: String },
    /// A compiled stylesheet.
    Css { path: StaticPath, content: String },
    /// A static asset.
    Static { path: StaticPath, content: Vec<u8> },
}

/// Every file of the built site, with the results of code sample execution.
#[derive(Clone, Debug)]
pub struct SiteOutput {
    pub files: Vec<OutputFile>,
    pub code_execution_results: Vec<CodeExecutionResult>,
}

/// Outcome of running one code sample.
#[derive(Clone, Copy, Debug, PartialEq, Eq)]
pub enum CodeExecutionStatus {
    Success,
    Failed,
    Skipped,
}

/// Result of running one code sample.
#[derive(Clone, Debug)]
pub struct CodeExecutionResult {
    pub source_path: String,
    pub line: u32,
    pub language: String,
    pub code: String,
    pub status: CodeExecutionStatus,
    pub exit_code: Option<i32>,
    pub stdout: String,
    pub stderr: String,
    pub duration_ms: u64,
    pub error: Option<String>,
    pub metadata: Option<CodeExecutionMetadata>,
}

/// Environment in which code samples ran.
#[derive(Clone, Debug)]
pub struct CodeExecutionMetadata {
    pub rustc_version: String,
    pub cargo_version: String,
    pub target: String,
    pub timestamp: String,
    pub cache_hit: bool,
    pub platform: String,
    pub arch: String,
    pub dependencies: Vec<ResolvedDependencyInfo>,
}

/// A dependency of the code samples, as resolved.
#[derive(Clone, Debug)]
pub struct ResolvedDependencyInfo {
    pub name: String,
    pub version: String,
    pub source: DependencySourceInfo,
}

/// Where a dependency came from.
#[derive(Clone, Debug)]
pub enum DependencySourceInfo {
    CratesIo,
    Git { url: String, commit: String },
    Path { path: String },
}

/// Result of checking one external URL.
#[derive(Clone, Debug)]
pub enum ExternalLinkStatus {
    /// The link answered with a 2xx or 3xx status.
    Valid,
    /// The link answered with an error status code.
    Error(u16),
    /// The request failed (network error, timeout, ...).
    Failed(String),
}

/// Abstract value of an [`ExternalLinkStatus`].
pub enum LinkStatusView {
    Valid,
    Error(u16),
    Failed(Seq<char>),
}

impl View for ExternalLinkStatus {
    type V = LinkStatusView;

    open spec fn view(&self) -> LinkStatusView {
        match self {
            ExternalLinkStatus::Valid => LinkStatusView::Valid,
            ExternalLinkStatus::Error(c) => LinkStatusView::Error(*c),
            ExternalLinkStatus::Failed(m) => LinkStatusView::Failed(m@),
        }
    }
}

impl ExternalLinkStatus {
    /// A copy of the status.
    pub fn duplicate(&self) -> (r: ExternalLinkStatus)
        ensures
            r@ == self@,
    {
        match self {
            ExternalLinkStatus::Valid => ExternalLinkStatus::Valid,
            ExternalLinkStatus::Error(c) => ExternalLinkStatus::Error(*c),
            ExternalLinkStatus::Failed(m) => ExternalLinkStatus::Failed(m.clone()),
        }
    }
}

/// One encoded variant of a processed image.
#[derive(Clone, Debug)]
pub struct ImageVariant {
    pub data: Vec<u8>,
    pub width: u32,
    pub height: u32,
}

/// All encoded variants of an image, with its placeholder.
#[derive(Clone, Debug)]
pub struct ProcessedImages {
    pub original_width: u32,
    pub original_height: u32,
    pub thumbhash_data_url: String,
    pub jxl_variants: Vec<ImageVariant>,
    pub webp_variants: Vec<ImageVariant>,
}

/// A static file under its cache-busted path.
#[derive(Clone, Debug)]
pub struct StaticFileOutput {
    pub cache_busted_path: String,
    pub content: Vec<u8>,
}

/// A compiled stylesheet under its cache-busted path.
#[derive(Clone, Debug)]
pub struct CssOutput {
    pub cache_busted_path: String,
    pub content: String,
}

/// The rendered HTML of every route, as (route, html) pairs.
#[derive(Clone, Debug)]
pub struct AllRenderedHtml {
    pub pages: Vec<(Route, String)>,
}

} // verus!
