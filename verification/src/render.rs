//! Pieces of page rendering: routes and source paths, the table of contents
//! built from a page's headings, and the syntax highlighting stylesheet.

use vstd::prelude::*;
use crate::db::Heading;
use crate::text::{
    append_chars, append_str, chars_to_string, char_pred, ends_with, ends_with_str, eq_str, slice_chars,
    str_chars, trim_end_by, trim_matches, trim_matches_chars, trim_start_by,
};
use crate::inputs::{camino_join, path_join};
use crate::types::Route;

verus! {

// ---------------------------------------------------------------------------
// Routes and source paths
// ---------------------------------------------------------------------------

/// The route of a source path: `.md` dropped, `_index` standing for its
/// directory, with a leading slash and no trailing slash (except the root).
pub open spec fn route_of_path(p: Seq<char>) -> Seq<char> {
    let a = if ends_with(p, ".md"@) {
        p.subrange(0, p.len() - 3)
    } else {
        p
    };
    let b = if ends_with(a, "/_index"@) {
        a.subrange(0, a.len() - 7)
    } else if a == "_index"@ {
        Seq::empty()
    } else {
        a
    };
    seq!['/'] + b
}

/// Converts a source path like `learn/_index.md` to a route like `/learn`.
pub fn path_to_route(path: &str) -> (r: Route)
    ensures
        r@ == route_of_path(path@),
{
    proof {
        reveal_strlit(".md");
        reveal_strlit("/_index");
    }
    let mut p = str_chars(path);
    if ends_with_str(&p, ".md") {
        p = slice_chars(&p, 0, p.len() - 3);
    }
    if ends_with_str(&p, "/_index") {
        p = slice_chars(&p, 0, p.len() - 7);
    } else if eq_str(&p, "_index") {
        p = Vec::new();
    }
    let mut text = str_chars("/");
    proof {
        reveal_strlit("/");
    }
    let mut i: usize = 0;
    let ghost start = text@;
    while i < p.len()
        invariant
            i <= p.len(),
            start == seq!['/'],
            text@ == start + p@.take(i as int),
        decreases p.len() - i,
    {
        text.push(p[i]);
        proof {
            assert(p@.take(i + 1) =~= p@.take(i as int).push(p@[i as int]));
        }
        i += 1;
    }
    proof {
        assert(p@.take(p@.len() as int) =~= p@);
    }
    Route::new(chars_to_string(&text))
}

/// The source path of a route: `_index.md` inside its directory.
pub open spec fn path_of_route(route: Seq<char>) -> Seq<char> {
    let r = trim_matches(route, '/');
    if r.len() == 0 {
        "_index.md"@
    } else {
        r + "/_index.md"@
    }
}

/// Converts a route like `/learn/` back to a path like `learn/_index.md`.
pub fn route_to_path(route: &str) -> (r: String)
    ensures
        r@ == path_of_route(route@),
{
    let chars = str_chars(route);
    let t = trim_matches_chars(&chars, '/');
    if t.len() == 0 {
        "_index.md".to_owned()
    } else {
        let mut text = t;
        append_str(&mut text, "/_index.md");
        chars_to_string(&text)
    }
}

/// Where the page of a route is written below the output directory: its
/// `index.html`, in the directory named by the route.
pub open spec fn output_html_path_spec(output_dir: Seq<char>, route: Seq<char>) -> Seq<char> {
    let r = trim_matches(route, '/');
    if r.len() == 0 {
        camino_join(output_dir, "index.html"@)
    } else {
        camino_join(camino_join(output_dir, r), "index.html"@)
    }
}

/// The file a route's page is written to.
pub fn output_html_path(output_dir: &str, route: &Route) -> (r: String)
    ensures
        r@ == output_html_path_spec(output_dir@, route@),
{
    let chars = str_chars(route.as_str());
    let t = trim_matches_chars(&chars, '/');
    proof {
        reveal_strlit("index.html");
    }
    if t.len() == 0 {
        path_join(output_dir, "index.html")
    } else {
        let dir = chars_to_string(&t);
        let d = path_join(output_dir, dir.as_str());
        path_join(d.as_str(), "index.html")
    }
}

/// The route of a page written at `relative` (a `/`-separated path below
/// the output directory): an `index.html` stands for its directory.
pub open spec fn route_of_output_spec(relative: Seq<char>) -> Seq<char> {
    if relative == "index.html"@ {
        seq!['/']
    } else if ends_with(relative, "/index.html"@) {
        seq!['/'] + relative.subrange(0, relative.len() - 11)
    } else {
        seq!['/'] + relative
    }
}

/// The route of a page read back from the output directory.
pub fn route_of_output_file(relative: &str) -> (r: String)
    ensures
        r@ == route_of_output_spec(relative@),
{
    proof {
        reveal_strlit("index.html");
        reveal_strlit("/index.html");
    }
    let c = str_chars(relative);
    let mut t: Vec<char> = Vec::new();
    t.push('/');
    if eq_str(&c, "index.html") {
        chars_to_string(&t)
    } else if ends_with_str(&c, "/index.html") {
        let head = slice_chars(&c, 0, c.len() - 11);
        append_chars(&mut t, &head);
        chars_to_string(&t)
    } else {
        append_str(&mut t, relative);
        chars_to_string(&t)
    }
}

/// A route as the site writes it: the root `/`, or a slash followed by a
/// path that neither starts nor ends with a slash.
pub open spec fn canonical_route(r: Seq<char>) -> bool {
    r == seq!['/'] || (r.len() >= 2 && r[0] == '/' && r[1] != '/' && r.last() != '/')
}

proof fn lemma_trim_canonical(r: Seq<char>)
    requires
        canonical_route(r),
    ensures
        trim_matches(r, '/') == r.drop_first(),
{
    if r == seq!['/'] {
        assert(trim_start_by(r, char_pred('/')) == trim_start_by(r.drop_first(), char_pred('/')));
        assert(r.drop_first() =~= Seq::<char>::empty());
    } else {
        let body = r.drop_first();
        assert(trim_start_by(r, char_pred('/')) == trim_start_by(body, char_pred('/')));
        assert(body[0] == r[1]);
        assert(trim_start_by(body, char_pred('/')) == body);
        assert(body.last() == r.last());
        assert(trim_end_by(body, char_pred('/')) == body);
    }
}

/// The source path of a route leads back to the route.
pub proof fn lemma_route_path_roundtrip(r: Seq<char>)
    requires
        canonical_route(r),
    ensures
        route_of_path(path_of_route(r)) == r,
{
    lemma_trim_canonical(r);
    let body = r.drop_first();
    reveal_strlit(".md");
    reveal_strlit("/_index");
    reveal_strlit("_index");
    reveal_strlit("_index.md");
    reveal_strlit("/_index.md");
    if body.len() == 0 {
        let p = "_index.md"@;
        assert(p.subrange(p.len() - 3, p.len() as int) =~= ".md"@);
        assert(ends_with(p, ".md"@));
        assert(p.subrange(0, p.len() - 3) =~= "_index"@);
        assert(!ends_with("_index"@, "/_index"@));
        assert(r =~= seq!['/'] + Seq::<char>::empty());
    } else {
        let p = body + "/_index.md"@;
        assert(ends_with(p, ".md"@)) by {
            assert(p.subrange(p.len() - 3, p.len() as int) =~= ".md"@);
        }
        let a = p.subrange(0, p.len() - 3);
        assert(a =~= body + "/_index"@);
        assert(ends_with(a, "/_index"@)) by {
            assert(a.subrange(a.len() - 7, a.len() as int) =~= "/_index"@);
        }
        assert(a.subrange(0, a.len() - 7) =~= body);
        assert(r =~= seq!['/'] + body);
    }
}

// ---------------------------------------------------------------------------
// Table of contents
// ---------------------------------------------------------------------------

/// An entry of the table of contents, with the entries nested under it.
#[derive(Debug)]
pub struct TocEntry {
    pub title: String,
    pub id: String,
    pub level: u8,
    /// `#` followed by the id.
    pub permalink: String,
    pub children: Vec<TocEntry>,
}

/// Abstract value of a table of contents entry.
pub struct TocView {
    pub title: Seq<char>,
    pub id: Seq<char>,
    pub level: u8,
    pub permalink: Seq<char>,
    pub children: Seq<TocView>,
}

pub open spec fn toc_view(e: TocEntry) -> TocView
    decreases e,
{
    TocView {
        title: e.title@,
        id: e.id@,
        level: e.level,
        permalink: e.permalink@,
        children: toc_views(e.children@),
    }
}

pub open spec fn toc_views(s: Seq<TocEntry>) -> Seq<TocView>
    decreases s,
{
    if s.len() == 0 {
        Seq::empty()
    } else {
        proof {
            assert(decreases_to!(s => s.last()));
            assert(decreases_to!(s => s.drop_last()));
        }
        toc_views(s.drop_last()).push(toc_view(s.last()))
    }
}

/// Abstract value of a heading: title, id, level.
pub open spec fn heading_views(hs: Seq<Heading>) -> Seq<(Seq<char>, Seq<char>, u8)> {
    hs.map_values(|h: Heading| (h.title@, h.id@, h.level))
}

/// Where the headings under level `lvl` starting at `i` end: at the first
/// heading of a lower level, or at the end.
pub open spec fn scan_end(hs: Seq<(Seq<char>, Seq<char>, u8)>, i: int, lvl: int) -> int
    decreases hs.len() - i,
{
    if i < 0 || i >= hs.len() {
        i
    } else if hs[i].2 < lvl {
        i
    } else {
        scan_end(hs, i + 1, lvl)
    }
}

/// The end of a heading's children lies between the heading and the end.
pub proof fn lemma_scan_end(hs: Seq<(Seq<char>, Seq<char>, u8)>, i: int, lvl: int)
    requires
        0 <= i,
    ensures
        i <= scan_end(hs, i, lvl),
        i <= hs.len() ==> scan_end(hs, i, lvl) <= hs.len(),
    decreases hs.len() - i,
{
    if i < hs.len() && hs[i].2 >= lvl {
        lemma_scan_end(hs, i + 1, lvl);
    }
}

/// The entries for headings `i..` under parent level `lvl`: a heading at
/// `lvl` becomes an entry whose children are the deeper headings after it;
/// deeper headings before the first such heading are passed over; a
/// heading of a lower level ends the list.
pub open spec fn toc_subtree(hs: Seq<(Seq<char>, Seq<char>, u8)>, i: int, lvl: int) -> Seq<TocView>
    decreases hs.len() - i,
{
    if i < 0 || i >= hs.len() || hs[i].2 < lvl {
        Seq::empty()
    } else if hs[i].2 == lvl {
        let j = scan_end(hs, i + 1, lvl + 1);
        proof {
            lemma_scan_end(hs, i + 1, lvl + 1);
        }
        seq![
            TocView {
                title: hs[i].0,
                id: hs[i].1,
                level: hs[i].2,
                permalink: seq!['#'] + hs[i].1,
                children: toc_subtree(hs, i + 1, lvl + 1),
            },
        ] + toc_subtree(hs, j, lvl)
    } else {
        toc_subtree(hs, i + 1, lvl)
    }
}

/// The lowest level among the headings.
pub open spec fn min_level(hs: Seq<(Seq<char>, Seq<char>, u8)>) -> int
    decreases hs.len(),
{
    if hs.len() == 0 {
        255
    } else {
        let m = min_level(hs.drop_last());
        if (hs.last().2 as int) < m {
            hs.last().2 as int
        } else {
            m
        }
    }
}

/// The table of contents of a list of headings, nested from its lowest
/// level.
pub open spec fn toc_of(hs: Seq<(Seq<char>, Seq<char>, u8)>) -> Seq<TocView> {
    if hs.len() == 0 {
        Seq::empty()
    } else {
        toc_subtree(hs, 0, min_level(hs))
    }
}

/// Entries for `headings[start..]` under parent level `parent_level`, and
/// where they end.
fn build_toc_subtree(headings: &[Heading], start: usize, parent_level: u8) -> (r: (
    Vec<TocEntry>,
    usize,
))
    requires
        start <= headings@.len(),
        forall|k: int| 0 <= k < headings@.len() ==> (#[trigger] headings@[k]).level < 255,
    ensures
        toc_views(r.0@) == toc_subtree(heading_views(headings@), start as int, parent_level as int),
        r.1 == scan_end(heading_views(headings@), start as int, parent_level as int),
    decreases headings@.len() - start,
{
    let ghost hv = heading_views(headings@);
    let mut result: Vec<TocEntry> = Vec::new();
    let mut i: usize = start;
    proof {
        assert(toc_views(result@) =~= Seq::<TocView>::empty());
        assert(toc_views(result@) + toc_subtree(hv, i as int, parent_level as int) =~= toc_subtree(
            hv,
            start as int,
            parent_level as int,
        ));
    }
    while i < headings.len()
        invariant_except_break
            start <= i <= headings@.len(),
            hv == heading_views(headings@),
            forall|k: int| 0 <= k < headings@.len() ==> (#[trigger] headings@[k]).level < 255,
            toc_views(result@) + toc_subtree(hv, i as int, parent_level as int) == toc_subtree(
                hv,
                start as int,
                parent_level as int,
            ),
            scan_end(hv, i as int, parent_level as int) == scan_end(
                hv,
                start as int,
                parent_level as int,
            ),
        ensures
            start <= i <= headings@.len(),
            toc_views(result@) == toc_subtree(hv, start as int, parent_level as int),
            i == scan_end(hv, start as int, parent_level as int),
        decreases headings@.len() - i,
    {
        let h = &headings[i];
        assert(hv[i as int] == (h.title@, h.id@, h.level));
        if h.level < parent_level {
            proof {
                assert(toc_subtree(hv, i as int, parent_level as int) =~= Seq::<TocView>::empty());
                assert(toc_views(result@) + Seq::<TocView>::empty() =~= toc_views(result@));
            }
            break;
        }
        if h.level == parent_level {
            let (children, next_i) = build_toc_subtree(headings, i + 1, parent_level + 1);
            proof {
                lemma_scan_end(hv, i + 1, parent_level + 1);
            }
            let mut link = str_chars("#");
            proof {
                reveal_strlit("#");
            }
            append_str(&mut link, h.id.as_str());
            let entry = TocEntry {
                title: h.title.clone(),
                id: h.id.clone(),
                level: h.level,
                permalink: chars_to_string(&link),
                children,
            };
            let ghost before = toc_views(result@);
            let ghost old_res = result@;
            let ghost node = toc_view(entry);
            result.push(entry);
            proof {
                assert(result@.drop_last() =~= old_res);
                assert(toc_views(result@) == before.push(node));
                assert(node.permalink =~= seq!['#'] + hv[i as int].1);
                assert(toc_subtree(hv, i as int, parent_level as int) == seq![node] + toc_subtree(
                    hv,
                    next_i as int,
                    parent_level as int,
                ));
                assert(before.push(node) + toc_subtree(hv, next_i as int, parent_level as int)
                    =~= before + (seq![node] + toc_subtree(
                    hv,
                    next_i as int,
                    parent_level as int,
                )));
                lemma_scan_skip(hv, i as int, next_i as int, parent_level as int);
            }
            i = next_i;
        } else {
            i += 1;
        }
    }
    (result, i)
}

proof fn lemma_scan_skip(hs: Seq<(Seq<char>, Seq<char>, u8)>, i: int, j: int, lvl: int)
    requires
        0 <= i < j,
        j == scan_end(hs, i + 1, lvl + 1),
        i < hs.len(),
        hs[i].2 >= lvl,
    ensures
        scan_end(hs, j, lvl) == scan_end(hs, i, lvl),
    decreases j - i,
{
    lemma_scan_end(hs, i + 1, lvl + 1);
    if j == i + 1 {
    } else {
        assert(hs[i + 1].2 >= lvl + 1);
        lemma_scan_skip(hs, i + 1, j, lvl);
    }
}

/// The table of contents of a page's headings (nested from the lowest
/// heading level present).
pub fn headings_to_toc(headings: &[Heading]) -> (r: Vec<TocEntry>)
    requires
        forall|k: int| 0 <= k < headings@.len() ==> (#[trigger] headings@[k]).level < 255,
    ensures
        toc_views(r@) == toc_of(heading_views(headings@)),
{
    if headings.len() == 0 {
        return Vec::new();
    }
    let ghost hv = heading_views(headings@);
    let mut m: u8 = 255;
    let mut i: usize = 0;
    while i < headings.len()
        invariant
            i <= headings@.len(),
            hv == heading_views(headings@),
            m as int == min_level(hv.take(i as int)),
        decreases headings@.len() - i,
    {
        proof {
            assert(hv.take(i + 1).drop_last() =~= hv.take(i as int));
        }
        if headings[i].level < m {
            m = headings[i].level;
        }
        i += 1;
    }
    proof {
        assert(hv.take(hv.len() as int) =~= hv);
    }
    let (result, _) = build_toc_subtree(headings, 0, m);
    result
}

// ---------------------------------------------------------------------------
// Options and styles
// ---------------------------------------------------------------------------

/// Options for rendering.
#[derive(Clone, Copy, Debug)]
pub struct RenderOptions {
    /// Whether to inject the live reload script
    pub livereload: bool,
    /// Development mode: show error pages instead of failing
    pub dev_mode: bool,
}

impl Default for RenderOptions {
    fn default() -> (r: RenderOptions)
        ensures
            !r.livereload,
            !r.dev_mode,
    {
        RenderOptions { livereload: false, dev_mode: false }
    }
}

/// The stylesheet that applies the light theme's rules under a light
/// color scheme preference and the dark theme's under a dark one.
pub open spec fn highlight_css(light: Seq<char>, dark: Seq<char>) -> Seq<char> {
    "<style>\n/* Arborium syntax highlighting - Light theme */\n@media (prefers-color-scheme: light) {\n"@
        + light + "\n}\n\n/* Arborium syntax highlighting - Dark theme */\n@media (prefers-color-scheme: dark) {\n"@
        + dark + "\n}\n</style>"@
}

/// Syntax highlighting CSS with media queries for the light and dark themes.
pub fn generate_syntax_highlight_css(light_theme_css: &str, dark_theme_css: &str) -> (r: String)
    ensures
        r@ == highlight_css(light_theme_css@, dark_theme_css@),
{
    let mut text = str_chars(
        "<style>\n/* Arborium syntax highlighting - Light theme */\n@media (prefers-color-scheme: light) {\n",
    );
    append_str(&mut text, light_theme_css);
    append_str(
        &mut text,
        "\n}\n\n/* Arborium syntax highlighting - Dark theme */\n@media (prefers-color-scheme: dark) {\n",
    );
    append_str(&mut text, dark_theme_css);
    append_str(&mut text, "\n}\n</style>");
    chars_to_string(&text)
}

} // verus!
