//! Values and helpers of the build queries: font subsetting inputs (which
//! files are fonts, which characters a font file must keep), the key of a
//! data file, search index inputs, and parse errors.

use vstd::prelude::*;
use crate::image::{format_of, InputFormat};
use crate::text::{
    append_chars, append_str, decimal_chars, decimal_digits, join, join_chars,
    chars_to_string, ends_with, ends_with_str, eq_chars, last_char_index, lacks_char,
    rfind_char_index, rfind_char_opt, slice_chars, starts_with, starts_with_str, str_chars,
    to_lowercase, lower_text,
};

verus! {

/// A parsed `@font-face` rule.
#[derive(Clone, Debug)]
pub struct FontFace {
    pub family: String,
    pub src: String,
    pub weight: Option<String>,
    pub style: Option<String>,
}

/// Result of analyzing HTML and CSS for font usage.
#[derive(Clone, Debug)]
pub struct FontAnalysis {
    /// Font-family name and the characters used with it
    pub chars_per_font: Vec<(String, Vec<char>)>,
    /// Parsed `@font-face` rules
    pub font_faces: Vec<FontFace>,
}

/// A font face as the build queries keep it.
#[derive(Clone, Debug)]
pub struct LocalFontFace {
    pub family: String,
    pub src: String,
    pub weight: Option<String>,
    pub style: Option<String>,
}

/// Font usage as the build queries keep it.
#[derive(Clone, Debug)]
pub struct LocalFontAnalysis {
    /// Font-family name and the characters used with it (each family once)
    pub chars_per_font: Vec<(String, Vec<char>)>,
    pub font_faces: Vec<LocalFontFace>,
}

/// A page handed to the search indexer.
#[derive(Clone, Debug)]
pub struct SearchPage {
    pub url: String,
    pub html: String,
}

/// A file of the search index.
#[derive(Clone, Debug)]
pub struct SearchFile {
    pub path: String,
    pub contents: Vec<u8>,
}

/// Compiled CSS output.
#[derive(Clone, Debug)]
pub struct CompiledCss(pub String);

/// A path through the data tree, such as `versions.dodeca.version`.
#[derive(Clone, Debug)]
pub struct DataValuePath {
    pub segments: Vec<String>,
}

/// The lower-cased path names a font file.
pub open spec fn is_font_path(lower: Seq<char>) -> bool {
    ends_with(lower, ".ttf"@) || ends_with(lower, ".otf"@) || ends_with(lower, ".woff"@)
        || ends_with(lower, ".woff2"@)
}

/// Whether a path is a font file (by extension, ignoring case).
pub fn is_font_file(path: &str) -> (r: bool)
    ensures
        r == is_font_path(lower_text(path@)),
{
    let lower = to_lowercase(path);
    let l = str_chars(lower.as_str());
    ends_with_str(&l, ".ttf") || ends_with_str(&l, ".otf") || ends_with_str(&l, ".woff")
        || ends_with_str(&l, ".woff2")
}

/// How a static file is processed before it is written.
#[derive(Clone, Copy, Debug, PartialEq, Eq, Structural)]
pub enum StaticProcessing {
    /// Subset to the characters the site uses
    Font,
    /// Optimized
    Svg,
    /// URLs rewritten to the cache-busted paths
    Css,
    /// Copied as it is
    Plain,
}

/// The processing of the static file at `path` (by extension, ignoring
/// case): fonts first, then SVG, then stylesheets.
pub open spec fn processing_of(path: Seq<char>) -> StaticProcessing {
    let lower = lower_text(path);
    if is_font_path(lower) {
        StaticProcessing::Font
    } else if ends_with(lower, ".svg"@) {
        StaticProcessing::Svg
    } else if ends_with(lower, ".css"@) {
        StaticProcessing::Css
    } else {
        StaticProcessing::Plain
    }
}

/// How the static file at `path` is processed.
pub fn static_processing(path: &str) -> (r: StaticProcessing)
    ensures
        r == processing_of(path@),
{
    if is_font_file(path) {
        return StaticProcessing::Font;
    }
    let lower = to_lowercase(path);
    let l = str_chars(lower.as_str());
    if ends_with_str(&l, ".svg") {
        StaticProcessing::Svg
    } else if ends_with_str(&l, ".css") {
        StaticProcessing::Css
    } else {
        StaticProcessing::Plain
    }
}

/// Whether a stylesheet's URLs to the static file at `path` are rewritten:
/// stylesheets and processed images are left out.
pub fn in_stylesheet_path_map(path: &str) -> (r: bool)
    ensures
        r == (!ends_with(lower_text(path@), ".css"@) && format_of(lower_text(path@))
            is None),
{
    let lower = to_lowercase(path);
    let l = str_chars(lower.as_str());
    !ends_with_str(&l, ".css") && !InputFormat::is_processable(path)
}

/// The characters in strictly increasing order.
pub open spec fn strictly_sorted(s: Seq<char>) -> bool {
    forall|i: int, j: int| 0 <= i < j < s.len() ==> s[i] < s[j]
}

/// The characters a font is subset to: those of `chars`, each once, in
/// increasing order.
pub fn subset_chars(chars: &Vec<char>) -> (r: Vec<char>)
    ensures
        strictly_sorted(r@),
        forall|c: char| r@.contains(c) <==> chars@.contains(c),
{
    let mut out: Vec<char> = Vec::new();
    let mut i: usize = 0;
    while i < chars.len()
        invariant
            i <= chars.len(),
            strictly_sorted(out@),
            forall|c: char| out@.contains(c) <==> chars@.take(i as int).contains(c),
        decreases chars.len() - i,
    {
        let c = chars[i];
        let mut j: usize = 0;
        while j < out.len() && out[j] < c
            invariant
                j <= out.len(),
                forall|k: int| 0 <= k < j ==> out@[k] < c,
            decreases out.len() - j,
        {
            j += 1;
        }
        let ghost before = out@;
        let ghost t0 = chars@.take(i as int);
        let ghost t1 = chars@.take(i + 1);
        proof {
            assert(t1 =~= t0.push(c));
        }
        if j < out.len() && out[j] == c {
            proof {
                assert forall|x: char| out@.contains(x) <==> t1.contains(x) by {
                    if t1.contains(x) && x == c {
                        assert(out@[j as int] == c);
                    }
                    if t1.contains(x) && x != c {
                        let k = choose|k: int| 0 <= k < i + 1 && t1[k] == x;
                        assert(t0[k] == x);
                    }
                    if out@.contains(x) {
                        assert(t0.contains(x));
                        let k = choose|k: int| 0 <= k < i && t0[k] == x;
                        assert(t1[k] == x);
                    }
                }
            }
        } else {
            out.insert(j, c);
            proof {
                assert forall|a: int, b: int| 0 <= a < b < out@.len() implies out@[a] < out@[b] by {
                    if j < before.len() {
                        assert(c < before[j as int]);
                    }
                    if b < j {
                        assert(out@[a] == before[a] && out@[b] == before[b]);
                    } else if b == j {
                        assert(out@[a] == before[a]);
                    } else if a == j {
                        assert(out@[b] == before[b - 1]);
                        assert(before[j as int] <= before[b - 1] || b - 1 == j);
                    } else if a < j {
                        assert(out@[a] == before[a] && out@[b] == before[b - 1]);
                    } else {
                        assert(out@[a] == before[a - 1] && out@[b] == before[b - 1]);
                    }
                }
                assert forall|x: char| out@.contains(x) <==> t1.contains(x) by {
                    if out@.contains(x) {
                        let k = choose|k: int| 0 <= k < out@.len() && out@[k] == x;
                        if k < j {
                            assert(before[k] == x);
                        } else if k > j {
                            assert(before[k - 1] == x);
                        }
                        if x != c {
                            assert(before.contains(x));
                            let m = choose|m: int| 0 <= m < i && t0[m] == x;
                            assert(t1[m] == x);
                        } else {
                            assert(t1[i as int] == c);
                        }
                    }
                    if t1.contains(x) {
                        if x == c {
                            assert(out@[j as int] == c);
                        } else {
                            let m = choose|m: int| 0 <= m < i + 1 && t1[m] == x;
                            assert(t0[m] == x);
                            assert(before.contains(x));
                            let k = choose|k: int| 0 <= k < before.len() && before[k] == x;
                            if k < j {
                                assert(out@[k] == x);
                            } else {
                                assert(out@[k + 1] == x);
                            }
                        }
                    }
                }
            }
        }
        i += 1;
    }
    proof {
        assert(chars@.take(chars@.len() as int) =~= chars@);
    }
    out
}

/// The texts joined with newlines.
pub open spec fn newline_joined(parts: Seq<String>) -> Seq<char> {
    join(parts.map_values(|p: String| p@), seq!['\n'])
}

/// The texts joined with newlines.
fn join_lines(parts: &Vec<String>) -> (r: Vec<char>)
    ensures
        r@ == newline_joined(parts@),
{
    let mut chars: Vec<Vec<char>> = Vec::new();
    let mut i: usize = 0;
    while i < parts.len()
        invariant
            i <= parts.len(),
            chars@.len() == i,
            forall|k: int| 0 <= k < i ==> #[trigger] chars@[k]@ == parts@[k]@,
        decreases parts.len() - i,
    {
        chars.push(str_chars(parts[i].as_str()));
        i += 1;
    }
    let sep: Vec<char> = vec!['\n'];
    proof {
        assert(chars@.map_values(|p: Vec<char>| p@) =~= parts@.map_values(|p: String| p@));
        assert(sep@ =~= seq!['\n']);
    }
    join_chars(&chars, &sep)
}

/// All rendered pages as one text, for font analysis.
pub fn combined_html(pages: &Vec<String>) -> (r: String)
    ensures
        r@ == newline_joined(pages@),
{
    let t = join_lines(pages);
    chars_to_string(&t)
}

/// All the CSS that font analysis looks at: the compiled stylesheet (empty
/// when there is none), the static stylesheets, and the CSS inline in the
/// pages, separated by newlines.
pub fn font_analysis_css(sass: &Option<String>, static_css: &Vec<String>, inline_css: &str) -> (r: String)
    ensures
        r@ == match sass {
            Some(c) => c@,
            None => Seq::empty(),
        } + seq!['\n'] + newline_joined(static_css@) + seq!['\n'] + inline_css@,
{
    let mut t: Vec<char> = match sass {
        Some(c) => str_chars(c.as_str()),
        None => Vec::new(),
    };
    t.push('\n');
    let st = join_lines(static_css);
    append_chars(&mut t, &st);
    t.push('\n');
    append_str(&mut t, inline_css);
    chars_to_string(&t)
}

/// `/` followed by a path.
pub open spec fn rooted(p: Seq<char>) -> Seq<char> {
    seq!['/'] + p
}

/// Both paths of each pair rooted.
pub open spec fn rooted_pairs(s: Seq<(Seq<char>, Seq<char>)>) -> Seq<(Seq<char>, Seq<char>)> {
    Seq::new(s.len(), |i: int| (rooted(s[i].0), rooted(s[i].1)))
}

/// The first path of each pair rooted.
pub open spec fn rooted_keys(s: Seq<(Seq<char>, Seq<char>)>) -> Seq<(Seq<char>, Seq<char>)> {
    Seq::new(s.len(), |i: int| (rooted(s[i].0), s[i].1))
}

/// The URL rewrites of a served page, in the order they are added (a
/// later entry for a URL replaces an earlier one): the stylesheet to its
/// cache-busted path, each static file that is not a processed image to its
/// cache-busted path, and each processed image to its full-size WebP URL.
pub open spec fn page_url_map_spec(
    css: Option<Seq<char>>,
    statics: Seq<(Seq<char>, Seq<char>)>,
    images: Seq<(Seq<char>, Seq<char>)>,
) -> Seq<(Seq<char>, Seq<char>)> {
    let head: Seq<(Seq<char>, Seq<char>)> = match css {
        Some(c) => seq![("/main.css"@, rooted(c))],
        None => Seq::empty(),
    };
    head + rooted_pairs(statics) + rooted_keys(images)
}

/// The views of string pairs.
pub open spec fn pair_views(v: Seq<(String, String)>) -> Seq<(Seq<char>, Seq<char>)> {
    Seq::new(v.len(), |i: int| (v[i].0@, v[i].1@))
}

fn rooted_string(p: &str) -> (r: String)
    ensures
        r@ == rooted(p@),
{
    let mut t: Vec<char> = Vec::new();
    t.push('/');
    append_str(&mut t, p);
    chars_to_string(&t)
}

/// The URL rewrites of a served page: `css` is the stylesheet's
/// cache-busted path, `statics` the (path, cache-busted path) of each static
/// file that is not a processed image, `images` the (path, full-size WebP
/// URL) of each processed image.
pub fn page_url_map(
    css: &Option<String>,
    statics: &Vec<(String, String)>,
    images: &Vec<(String, String)>,
) -> (r: Vec<(String, String)>)
    ensures
        pair_views(r@) == page_url_map_spec(
            match css {
                Some(c) => Some(c@),
                None => None,
            },
            pair_views(statics@),
            pair_views(images@),
        ),
{
    let ghost cssv = match css {
        Some(c) => Some(c@),
        None => None,
    };
    let ghost head: Seq<(Seq<char>, Seq<char>)> = match cssv {
        Some(c) => seq![("/main.css"@, rooted(c))],
        None => Seq::empty(),
    };
    let ghost sv = pair_views(statics@);
    let ghost iv = pair_views(images@);
    let mut out: Vec<(String, String)> = Vec::new();
    match css {
        Some(c) => {
            out.push((String::from_str("/main.css"), rooted_string(c.as_str())));
        },
        None => {},
    }
    proof {
        assert(pair_views(out@) =~= head);
    }
    let mut i: usize = 0;
    while i < statics.len()
        invariant
            i <= statics.len(),
            sv == pair_views(statics@),
            pair_views(out@) == head + rooted_pairs(sv.take(i as int)),
        decreases statics.len() - i,
    {
        let ghost before = out@;
        let a = rooted_string(statics[i].0.as_str());
        let b = rooted_string(statics[i].1.as_str());
        out.push((a, b));
        proof {
            assert(rooted_pairs(sv.take(i + 1)) =~= rooted_pairs(sv.take(i as int)).push(
                (rooted(sv[i as int].0), rooted(sv[i as int].1)),
            ));
            assert(pair_views(out@) =~= pair_views(before).push((a@, b@)));
            assert(pair_views(out@) =~= head + rooted_pairs(sv.take(i + 1)));
        }
        i += 1;
    }
    let ghost mid = pair_views(out@);
    proof {
        assert(sv.take(sv.len() as int) =~= sv);
    }
    let mut j: usize = 0;
    while j < images.len()
        invariant
            j <= images.len(),
            iv == pair_views(images@),
            pair_views(out@) == mid + rooted_keys(iv.take(j as int)),
        decreases images.len() - j,
    {
        let ghost before = out@;
        let a = rooted_string(images[j].0.as_str());
        let b = images[j].1.clone();
        out.push((a, b));
        proof {
            assert(rooted_keys(iv.take(j + 1)) =~= rooted_keys(iv.take(j as int)).push(
                (rooted(iv[j as int].0), iv[j as int].1),
            ));
            assert(pair_views(out@) =~= pair_views(before).push((a@, b@)));
            assert(pair_views(out@) =~= mid + rooted_keys(iv.take(j + 1)));
        }
        j += 1;
    }
    proof {
        assert(iv.take(iv.len() as int) =~= iv);
        assert(pair_views(out@) =~= page_url_map_spec(cssv, sv, iv));
    }
    out
}

/// `s` with every leading copy of `p` (not empty) removed.
pub open spec fn strip_all_prefix(s: Seq<char>, p: Seq<char>) -> Seq<char>
    decreases s.len(),
{
    if p.len() > 0 && starts_with(s, p) {
        strip_all_prefix(s.subrange(p.len() as int, s.len() as int), p)
    } else {
        s
    }
}

/// Removes every leading copy of `p` (not empty) from `s`.
fn strip_prefixes(s: &[char], p: &str) -> (r: Vec<char>)
    requires
        p@.len() > 0,
    ensures
        r@ == strip_all_prefix(s@, p@),
{
    let pc = str_chars(p);
    let mut rest = slice_chars(s, 0, s.len());
    assert(rest@ =~= s@);
    while starts_with_str(&rest, p)
        invariant
            p@.len() > 0,
            pc@ == p@,
            strip_all_prefix(rest@, p@) == strip_all_prefix(s@, p@),
        decreases rest@.len(),
    {
        let n = rest.len();
        let k = pc.len();
        rest = slice_chars(&rest, k, n);
    }
    rest
}

/// A font file path as CSS refers to it: leading slashes and `static/`
/// prefixes removed.
pub open spec fn normalized_font_path(path: Seq<char>) -> Seq<char> {
    strip_all_prefix(strip_all_prefix(path, seq!['/']), "static/"@)
}

/// The characters used with the family whose `@font-face` source is the
/// first one matching `path`, if there is such a face and usage is known
/// for its family.
pub open spec fn chars_for_font(path: Seq<char>, faces: Seq<LocalFontFace>, usage: Seq<(String, Vec<char>)>) -> Option<Seq<char>>
    decreases faces.len(),
{
    if faces.len() == 0 {
        None
    } else if strip_all_prefix(faces[0].src@, seq!['/']) == normalized_font_path(path) {
        usage_of(usage, faces[0].family@)
    } else {
        chars_for_font(path, faces.drop_first(), usage)
    }
}

/// The characters recorded for `family` (its first entry), if any.
pub open spec fn usage_of(usage: Seq<(String, Vec<char>)>, family: Seq<char>) -> Option<Seq<char>>
    decreases usage.len(),
{
    if usage.len() == 0 {
        None
    } else if usage[0].0@ == family {
        Some(usage[0].1@)
    } else {
        usage_of(usage.drop_first(), family)
    }
}

fn find_usage(usage: &Vec<(String, Vec<char>)>, family: &String) -> (r: Option<Vec<char>>)
    ensures
        match r {
            Some(v) => usage_of(usage@, family@) == Some(v@),
            None => usage_of(usage@, family@) is None,
        },
{
    let f = str_chars(family.as_str());
    let mut i: usize = 0;
    assert(usage@.skip(0) =~= usage@);
    while i < usage.len()
        invariant
            i <= usage.len(),
            f@ == family@,
            usage_of(usage@, family@) == usage_of(usage@.skip(i as int), family@),
        decreases usage.len() - i,
    {
        assert(usage@.skip(i as int)[0] == usage@[i as int]);
        assert(usage@.skip(i as int).drop_first() =~= usage@.skip(i + 1));
        let k = str_chars(usage[i].0.as_str());
        if eq_chars(&k, &f) {
            return Some(usage[i].1.clone());
        }
        i += 1;
    }
    None
}

/// The characters a font file must keep, from the `@font-face` rule that
/// references it (paths like `static/fonts/Foo.woff2` match CSS URLs like
/// `/fonts/Foo.woff2`).
pub fn find_chars_for_font_file(path: &str, analysis: &LocalFontAnalysis) -> (r: Option<Vec<char>>)
    ensures
        match r {
            Some(v) => chars_for_font(path@, analysis.font_faces@, analysis.chars_per_font@)
                == Some(v@),
            None => chars_for_font(path@, analysis.font_faces@, analysis.chars_per_font@) is None,
        },
{
    let p = str_chars(path);
    proof {
        reveal_strlit("/");
        reveal_strlit("static/");
    }
    let a = strip_prefixes(&p, "/");
    assert("/"@ =~= seq!['/']);
    let normalized = strip_prefixes(&a, "static/");
    let faces = &analysis.font_faces;
    let mut i: usize = 0;
    assert(faces@.skip(0) =~= faces@);
    while i < faces.len()
        invariant
            i <= faces.len(),
            faces@ == analysis.font_faces@,
            normalized@ == normalized_font_path(path@),
            "/"@ == seq!['/'],
            chars_for_font(path@, faces@, analysis.chars_per_font@) == chars_for_font(
                path@,
                faces@.skip(i as int),
                analysis.chars_per_font@,
            ),
        decreases faces.len() - i,
    {
        assert(faces@.skip(i as int)[0] == faces@[i as int]);
        assert(faces@.skip(i as int).drop_first() =~= faces@.skip(i + 1));
        let src = str_chars(faces[i].src.as_str());
        let s = strip_prefixes(&src, "/");
        if eq_chars(&s, &normalized) {
            assert(chars_for_font(path@, faces@.skip(i as int), analysis.chars_per_font@)
                == usage_of(analysis.chars_per_font@, faces@[i as int].family@));
            return find_usage(&analysis.chars_per_font, &faces[i].family);
        }
        i += 1;
    }
    None
}

/// The last component of a slash-separated path.
pub open spec fn file_name(path: Seq<char>) -> Seq<char> {
    match rfind_char_opt(path, '/') {
        Some(i) => path.subrange(i + 1, path.len() as int),
        None => path,
    }
}

/// A file name without its extension (the part before its last dot).
pub open spec fn stem(name: Seq<char>) -> Seq<char> {
    match rfind_char_opt(name, '.') {
        Some(d) => name.subrange(0, d),
        None => name,
    }
}

/// The file name of a path without its extension: the key of a data
/// file (`data/versions.toml` is `versions`).
pub fn extract_filename_without_extension(path: &str) -> (r: String)
    ensures
        r@ == stem(file_name(path@)),
{
    let p = str_chars(path);
    let n = p.len();
    let name = match rfind_char_index(&p, '/') {
        Some(i) => slice_chars(&p, i + 1, n),
        None => p,
    };
    let s = match rfind_char_index(&name, '.') {
        Some(d) => slice_chars(&name, 0, d),
        None => name,
    };
    chars_to_string(&s)
}

/// A source file that failed to parse, with the parser's message.
#[derive(Clone, Debug)]
pub struct SourceParseError {
    pub path: String,
    pub error: String,
}

/// The site could not be built because files failed to parse.
#[derive(Clone, Debug)]
pub struct BuildError {
    pub errors: Vec<SourceParseError>,
}

/// The lines listing parse errors: `  - path: message` each.
pub open spec fn error_lines(errors: Seq<SourceParseError>) -> Seq<char>
    decreases errors.len(),
{
    if errors.len() == 0 {
        Seq::empty()
    } else {
        let e = errors.last();
        error_lines(errors.drop_last()) + "  - "@ + e.path@ + ": "@ + e.error@ + seq!['\n']
    }
}

impl SourceParseError {
    /// `path: message`.
    pub fn message(&self) -> (r: String)
        ensures
            r@ == self.path@ + ": "@ + self.error@,
    {
        let mut t = str_chars(self.path.as_str());
        append_str(&mut t, ": ");
        append_str(&mut t, self.error.as_str());
        chars_to_string(&t)
    }
}

impl BuildError {
    /// The report: how many files failed, then one line per file.
    pub fn message(&self) -> (r: String)
        ensures
            r@ == "Failed to parse "@ + decimal_digits(self.errors@.len()) + " file(s):\n"@
                + error_lines(self.errors@),
    {
        let mut t = str_chars("Failed to parse ");
        let d = decimal_chars(self.errors.len() as u64);
        crate::text::append_chars(&mut t, &d);
        append_str(&mut t, " file(s):\n");
        let ghost head = t@;
        let mut i: usize = 0;
        while i < self.errors.len()
            invariant
                i <= self.errors.len(),
                t@ == head + error_lines(self.errors@.take(i as int)),
            decreases self.errors.len() - i,
        {
            proof {
                assert(self.errors@.take(i + 1).drop_last() =~= self.errors@.take(i as int));
            }
            append_str(&mut t, "  - ");
            append_str(&mut t, self.errors[i].path.as_str());
            append_str(&mut t, ": ");
            append_str(&mut t, self.errors[i].error.as_str());
            t.push('\n');
            proof {
                assert(t@ =~= head + error_lines(self.errors@.take(i + 1)));
            }
            i += 1;
        }
        proof {
            assert(self.errors@.take(self.errors@.len() as int) =~= self.errors@);
        }
        chars_to_string(&t)
    }
}


/// Template sources by name, loaded before rendering so that templates can
/// be read while another one is being evaluated.
pub struct PicanteTemplateLoader {
    templates: Vec<(String, String)>,
}

/// The source of the template `name` among `(name, source)` entries; a
/// later entry for a name replaces an earlier one.
pub open spec fn template_source(entries: Seq<(Seq<char>, Seq<char>)>, name: Seq<char>) -> Option<Seq<char>>
    decreases entries.len(),
{
    if entries.len() == 0 {
        None
    } else if entries.last().0 == name {
        Some(entries.last().1)
    } else {
        template_source(entries.drop_last(), name)
    }
}

impl View for PicanteTemplateLoader {
    type V = Seq<(Seq<char>, Seq<char>)>;

    closed spec fn view(&self) -> Seq<(Seq<char>, Seq<char>)> {
        self.templates@.map_values(|e: (String, String)| (e.0@, e.1@))
    }
}

impl PicanteTemplateLoader {
    /// Creates a loader from the pre-loaded `(name, source)` pairs.
    pub fn new(templates: Vec<(String, String)>) -> (r: Self)
        ensures
            r@ == templates@.map_values(|e: (String, String)| (e.0@, e.1@)),
    {
        PicanteTemplateLoader { templates }
    }

    /// The source of the template `name`, if it was loaded.
    pub fn load(&self, name: &str) -> (r: Option<String>)
        ensures
            match r {
                Some(t) => template_source(self@, name@) == Some(t@),
                None => template_source(self@, name@).is_none(),
            },
    {
        let wanted = str_chars(name);
        let mut i: usize = self.templates.len();
        proof {
            assert(self@.take(i as int) =~= self@);
        }
        while i > 0
            invariant
                i <= self.templates.len(),
                wanted@ == name@,
                self@.len() == self.templates@.len(),
                forall|k: int| 0 <= k < self@.len() ==> #[trigger] self@[k] == (self.templates@[k].0@, self.templates@[k].1@),
                template_source(self@, name@) == template_source(self@.take(i as int), name@),
            decreases i,
        {
            let key = str_chars(self.templates[i - 1].0.as_str());
            proof {
                assert(self@.take(i as int).drop_last() =~= self@.take(i - 1));
                assert(self@.take(i as int).last() == self@[i - 1]);
            }
            if eq_chars(&key, &wanted) {
                return Some(self.templates[i - 1].1.clone());
            }
            i -= 1;
        }
        None
    }
}

} // verus!
