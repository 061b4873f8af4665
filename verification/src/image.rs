//! Responsive images: which source formats are processed, which widths are
//! generated, how variant files are named, and how the results of the
//! image plugins (decoding, resizing, encoding to JPEG-XL and WebP) are
//! put together.

use vstd::prelude::*;
use crate::db::OutputFile;
use crate::types::StaticPath;
use crate::text::{
    append_chars, append_str, chars_to_string, decimal_chars, decimal_digits, ends_with,
    ends_with_str, last_char_index, lacks_char, rfind_char_index, rfind_char_opt, slice_chars,
    str_chars, to_lowercase, lower_text, vec_ends_with,
};

verus! {

// ---------------------------------------------------------------------------
// Formats
// ---------------------------------------------------------------------------

/// Supported input image formats.
#[derive(Clone, Copy, Debug, PartialEq, Eq, Structural)]
pub enum InputFormat {
    Png,
    Jpg,
    Gif,
    WebP,
    Jxl,
}

/// The format named by the extension of a lower-cased path.
pub open spec fn format_of(lower: Seq<char>) -> Option<InputFormat> {
    if ends_with(lower, ".png"@) {
        Some(InputFormat::Png)
    } else if ends_with(lower, ".jpg"@) || ends_with(lower, ".jpeg"@) {
        Some(InputFormat::Jpg)
    } else if ends_with(lower, ".gif"@) {
        Some(InputFormat::Gif)
    } else if ends_with(lower, ".webp"@) {
        Some(InputFormat::WebP)
    } else if ends_with(lower, ".jxl"@) {
        Some(InputFormat::Jxl)
    } else {
        None
    }
}

impl InputFormat {
    /// Detects the format from the file extension, ignoring case.
    pub fn from_extension(path: &str) -> (r: Option<InputFormat>)
        ensures
            r == format_of(lower_text(path@)),
    {
        let lower = to_lowercase(path);
        let l = str_chars(lower.as_str());
        if ends_with_str(&l, ".png") {
            Some(InputFormat::Png)
        } else if ends_with_str(&l, ".jpg") || ends_with_str(&l, ".jpeg") {
            Some(InputFormat::Jpg)
        } else if ends_with_str(&l, ".gif") {
            Some(InputFormat::Gif)
        } else if ends_with_str(&l, ".webp") {
            Some(InputFormat::WebP)
        } else if ends_with_str(&l, ".jxl") {
            Some(InputFormat::Jxl)
        } else {
            None
        }
    }

    /// Whether the path is an image that is processed.
    pub fn is_processable(path: &str) -> (r: bool)
        ensures
            r == format_of(lower_text(path@)) is Some,
    {
        InputFormat::from_extension(path).is_some()
    }
}

/// Output image format.
#[derive(Clone, Copy, Debug, PartialEq, Eq, Structural)]
pub enum OutputFormat {
    /// JPEG-XL: best compression, modern browsers
    Jxl,
    /// WebP: wide browser support, fallback
    WebP,
}

impl OutputFormat {
    /// The file extension for this format.
    pub fn extension(&self) -> (r: &'static str)
        ensures
            r@ == match *self {
                OutputFormat::Jxl => "jxl"@,
                OutputFormat::WebP => "webp"@,
            },
    {
        match self {
            OutputFormat::Jxl => "jxl",
            OutputFormat::WebP => "webp",
        }
    }
}

// ---------------------------------------------------------------------------
// File names
// ---------------------------------------------------------------------------

/// Where the extension of the file name in `path` begins: its last dot,
/// when that dot lies in the last path component.
pub open spec fn extension_dot(path: Seq<char>) -> Option<int> {
    match rfind_char_opt(path, '.') {
        Some(d) => match rfind_char_opt(path, '/') {
            Some(sl) => if d > sl {
                Some(d)
            } else {
                None
            },
            None => Some(d),
        },
        None => None,
    }
}

fn extension_dot_index(p: &[char]) -> (r: Option<usize>)
    ensures
        match r {
            Some(d) => extension_dot(p@) == Some(d as int) && d < p@.len(),
            None => extension_dot(p@) is None,
        },
{
    match rfind_char_index(p, '.') {
        Some(d) => {
            proof {
                assert(last_char_index(p@, '.', d as int));
            }
            match rfind_char_index(p, '/') {
                Some(sl) => if d > sl {
                    Some(d)
                } else {
                    None
                },
                None => Some(d),
            }
        },
        None => None,
    }
}

/// The path with the extension of its file name replaced by `ext` (or
/// `ext` appended after a dot when the file name has none).
pub open spec fn with_extension(path: Seq<char>, ext: Seq<char>) -> Seq<char> {
    match extension_dot(path) {
        Some(d) => path.subrange(0, d) + seq!['.'] + ext,
        None => path + seq!['.'] + ext,
    }
}

/// Changes a file path's extension.
pub fn change_extension(path: &str, new_ext: &str) -> (r: String)
    ensures
        r@ == with_extension(path@, new_ext@),
{
    let p = str_chars(path);
    let mut text = match extension_dot_index(&p) {
        Some(d) => slice_chars(&p, 0, d),
        None => p,
    };
    text.push('.');
    append_str(&mut text, new_ext);
    chars_to_string(&text)
}

/// The path with `-<width>w` inserted before the extension of its file
/// name (at the end when the file name has none).
pub open spec fn with_width_suffix(path: Seq<char>, width: u32) -> Seq<char> {
    match extension_dot(path) {
        Some(d) => path.subrange(0, d) + seq!['-'] + decimal_digits(width as nat) + seq!['w']
            + path.subrange(d, path.len() as int),
        None => path + seq!['-'] + decimal_digits(width as nat) + seq!['w'],
    }
}

/// Adds a width suffix to a path, before the extension: `photo.png` with
/// width 640 gives `photo-640w.png`.
pub fn add_width_suffix(path: &str, width: u32) -> (r: String)
    ensures
        r@ == with_width_suffix(path@, width),
{
    let p = str_chars(path);
    let digits = decimal_chars(width as u64);
    match extension_dot_index(&p) {
        Some(d) => {
            let mut text = slice_chars(&p, 0, d);
            text.push('-');
            append_chars(&mut text, &digits);
            text.push('w');
            let rest = slice_chars(&p, d, p.len());
            append_chars(&mut text, &rest);
            chars_to_string(&text)
        },
        None => {
            let mut text = p;
            text.push('-');
            append_chars(&mut text, &digits);
            text.push('w');
            chars_to_string(&text)
        },
    }
}

/// `s` with every trailing copy of `p` removed.
pub open spec fn trim_suffix_all(s: Seq<char>, p: Seq<char>) -> Seq<char>
    decreases s.len(),
{
    if p.len() > 0 && ends_with(s, p) {
        trim_suffix_all(s.subrange(0, s.len() - p.len()), p)
    } else {
        s
    }
}

fn trim_suffix_all_chars(s: &[char], p: &[char]) -> (r: Vec<char>)
    ensures
        r@ == trim_suffix_all(s@, p@),
{
    let mut end: usize = s.len();
    let mut cur = slice_chars(s, 0, end);
    proof {
        assert(cur@ =~= s@);
    }
    while p.len() > 0 && vec_ends_with(&cur, p)
        invariant
            end <= s.len(),
            cur@ == s@.subrange(0, end as int),
            trim_suffix_all(cur@, p@) == trim_suffix_all(s@, p@),
        decreases end,
    {
        end = end - p.len();
        proof {
            assert(cur@.subrange(0, cur@.len() - p@.len()) =~= s@.subrange(0, end as int));
        }
        cur = slice_chars(s, 0, end);
    }
    cur
}

/// The path of one variant of the image at `path`: the format's extension,
/// and `-<width>w` before it unless `width` is the original width.
pub open spec fn variant_path_text(path: Seq<char>, ext: Seq<char>, width: u32, original_width: u32) -> Seq<char> {
    let base = with_extension(path, ext);
    if width == original_width {
        base
    } else {
        with_width_suffix(base, width)
    }
}

/// The file one variant of an image is written to: the variant's path
/// without its trailing `.<ext>`, a dot and the variant's hash, then
/// `.<ext>` again.
pub open spec fn variant_file_text(
    path: Seq<char>,
    ext: Seq<char>,
    width: u32,
    original_width: u32,
    hash: Seq<char>,
) -> Seq<char> {
    trim_suffix_all(variant_path_text(path, ext, width, original_width), seq!['.'] + ext)
        + seq!['.'] + hash + seq!['.'] + ext
}

/// The URL the pages use for one variant of an image: `/` and its file.
pub open spec fn variant_url_text(
    path: Seq<char>,
    ext: Seq<char>,
    width: u32,
    original_width: u32,
    hash: Seq<char>,
) -> Seq<char> {
    seq!['/'] + variant_file_text(path, ext, width, original_width, hash)
}

/// The extension of an output format.
pub open spec fn format_ext(format: OutputFormat) -> Seq<char> {
    match format {
        OutputFormat::Jxl => "jxl"@,
        OutputFormat::WebP => "webp"@,
    }
}

fn variant_file_chars(path: &str, format: OutputFormat, width: u32, original_width: u32, hash: &str) -> (r:
    Vec<char>)
    ensures
        r@ == variant_file_text(path@, format_ext(format), width, original_width, hash@),
{
    let ext = format.extension();
    let base = change_extension(path, ext);
    let vp = if width == original_width {
        base
    } else {
        add_width_suffix(base.as_str(), width)
    };
    let mut dot_ext: Vec<char> = Vec::new();
    dot_ext.push('.');
    append_str(&mut dot_ext, ext);
    let vchars = str_chars(vp.as_str());
    let mut t = trim_suffix_all_chars(&vchars, &dot_ext);
    t.push('.');
    append_str(&mut t, hash);
    append_chars(&mut t, &dot_ext);
    proof {
        assert(t@ =~= variant_file_text(path@, ext@, width, original_width, hash@));
    }
    t
}

/// The file one variant of the image at `path` is written to, given the
/// variant's hash.
pub fn variant_file_path(path: &str, format: OutputFormat, width: u32, original_width: u32, hash: &str) -> (r:
    String)
    ensures
        r@ == variant_file_text(path@, format_ext(format), width, original_width, hash@),
{
    let t = variant_file_chars(path, format, width, original_width, hash);
    chars_to_string(&t)
}

/// The URL of one variant of the image at `path`, given the variant's hash.
pub fn variant_url(path: &str, format: OutputFormat, width: u32, original_width: u32, hash: &str) -> (r:
    String)
    ensures
        r@ == variant_url_text(path@, format_ext(format), width, original_width, hash@),
{
    let f = variant_file_chars(path, format, width, original_width, hash);
    let mut t: Vec<char> = Vec::new();
    t.push('/');
    append_chars(&mut t, &f);
    chars_to_string(&t)
}

/// The `srcset` entries of an image in one format: for each variant width,
/// its URL (with the hash given for it) and the width.
pub fn image_srcset(
    path: &str,
    format: OutputFormat,
    widths: &Vec<u32>,
    original_width: u32,
    hashes: &Vec<String>,
) -> (r: Vec<(String, u32)>)
    requires
        hashes@.len() == widths@.len(),
    ensures
        r@.len() == widths@.len(),
        forall|i: int|
            0 <= i < widths@.len() ==> (#[trigger] r@[i]).1 == widths@[i] && r@[i].0@
                == variant_url_text(path@, format_ext(format), widths@[i], original_width, hashes@[i]@),
{
    let mut out: Vec<(String, u32)> = Vec::new();
    let mut i: usize = 0;
    while i < widths.len()
        invariant
            i <= widths.len(),
            hashes@.len() == widths@.len(),
            out@.len() == i,
            forall|k: int|
                0 <= k < i ==> (#[trigger] out@[k]).1 == widths@[k] && out@[k].0@
                    == variant_url_text(path@, format_ext(format), widths@[k], original_width, hashes@[k]@),
        decreases widths.len() - i,
    {
        let url = variant_url(path, format, widths[i], original_width, hashes[i].as_str());
        out.push((url, widths[i]));
        i += 1;
    }
    out
}

/// Whether `f` is the static output of one variant of the image at `path`.
pub open spec fn is_variant_output(
    f: OutputFile,
    path: Seq<char>,
    format: OutputFormat,
    v: ImageVariant,
    original_width: u32,
    hash: Seq<char>,
) -> bool {
    f matches OutputFile::Static { path: p, content: c } && p.0@ == variant_file_text(
        path,
        format_ext(format),
        v.width,
        original_width,
        hash,
    ) && c@ == v.data@
}

fn push_variant_outputs(
    out: &mut Vec<OutputFile>,
    path: &str,
    format: OutputFormat,
    variants: &Vec<ImageVariant>,
    original_width: u32,
    hashes: &Vec<String>,
)
    requires
        hashes@.len() == variants@.len(),
    ensures
        final(out)@.len() == old(out)@.len() + variants@.len(),
        forall|k: int| 0 <= k < old(out)@.len() ==> #[trigger] final(out)@[k] == old(out)@[k],
        forall|i: int|
            0 <= i < variants@.len() ==> is_variant_output(
                #[trigger] final(out)@[old(out)@.len() + i],
                path@,
                format,
                variants@[i],
                original_width,
                hashes@[i]@,
            ),
{
    let ghost start = out@;
    let mut i: usize = 0;
    while i < variants.len()
        invariant
            i <= variants.len(),
            hashes@.len() == variants@.len(),
            out@.len() == start.len() + i,
            forall|k: int| 0 <= k < start.len() ==> #[trigger] out@[k] == start[k],
            forall|j: int|
                0 <= j < i ==> is_variant_output(
                    #[trigger] out@[start.len() + j],
                    path@,
                    format,
                    variants@[j],
                    original_width,
                    hashes@[j]@,
                ),
        decreases variants.len() - i,
    {
        let v = &variants[i];
        let file = variant_file_path(path, format, v.width, original_width, hashes[i].as_str());
        let data = v.data.clone();
        proof {
            assert(data@ =~= v.data@);
        }
        out.push(OutputFile::Static { path: StaticPath(file), content: data });
        proof {
            assert(out@[start.len() + i] == out@[out@.len() - 1]);
        }
        i += 1;
    }
}

/// The files a processed image is written as: each JPEG-XL variant, then
/// each WebP variant, at its cache-busted path (with the hash given for
/// it), in place of the original.
pub fn image_output_files(
    path: &str,
    set: &ProcessedImageSet,
    jxl_hashes: &Vec<String>,
    webp_hashes: &Vec<String>,
) -> (r: Vec<OutputFile>)
    requires
        jxl_hashes@.len() == set.jxl_variants@.len(),
        webp_hashes@.len() == set.webp_variants@.len(),
    ensures
        r@.len() == set.jxl_variants@.len() + set.webp_variants@.len(),
        forall|i: int|
            0 <= i < set.jxl_variants@.len() ==> is_variant_output(
                #[trigger] r@[i],
                path@,
                OutputFormat::Jxl,
                set.jxl_variants@[i],
                set.original_width,
                jxl_hashes@[i]@,
            ),
        forall|i: int|
            0 <= i < set.webp_variants@.len() ==> is_variant_output(
                #[trigger] r@[set.jxl_variants@.len() + i],
                path@,
                OutputFormat::WebP,
                set.webp_variants@[i],
                set.original_width,
                webp_hashes@[i]@,
            ),
{
    let mut out: Vec<OutputFile> = Vec::new();
    push_variant_outputs(&mut out, path, OutputFormat::Jxl, &set.jxl_variants, set.original_width, jxl_hashes);
    let ghost mid = out@;
    push_variant_outputs(
        &mut out,
        path,
        OutputFormat::WebP,
        &set.webp_variants,
        set.original_width,
        webp_hashes,
    );
    proof {
        assert forall|i: int| 0 <= i < set.jxl_variants@.len() implies is_variant_output(
            #[trigger] out@[i],
            path@,
            OutputFormat::Jxl,
            set.jxl_variants@[i],
            set.original_width,
            jxl_hashes@[i]@,
        ) by {
            assert(out@[i] == mid[i]);
            assert(mid[0 + i] == mid[i]);
        }
    }
    out
}

// ---------------------------------------------------------------------------
// Variants
// ---------------------------------------------------------------------------

/// Standard responsive breakpoints, in pixels.
pub open spec fn breakpoints() -> Seq<u32> {
    seq![320u32, 640, 960, 1280, 1920]
}

/// Standard responsive breakpoints, in pixels; only those narrower than
/// the original image are generated.
pub fn responsive_widths() -> (r: Vec<u32>)
    ensures
        r@ == breakpoints(),
{
    let r = vec![320u32, 640, 960, 1280, 1920];
    assert(r@ =~= breakpoints());
    r
}

/// The breakpoints of `bs` narrower than `width`, in order.
pub open spec fn narrower(bs: Seq<u32>, width: u32) -> Seq<u32>
    decreases bs.len(),
{
    if bs.len() == 0 {
        Seq::empty()
    } else {
        let rest = narrower(bs.drop_last(), width);
        if bs.last() < width {
            rest.push(bs.last())
        } else {
            rest
        }
    }
}

/// The widths generated for an image `width` pixels wide: the narrower
/// breakpoints, then the original width.
pub open spec fn variant_widths(width: u32) -> Seq<u32> {
    narrower(breakpoints(), width).push(width)
}

proof fn lemma_narrower_bounded(bs: Seq<u32>, width: u32)
    ensures
        forall|i: int| 0 <= i < narrower(bs, width).len() ==> narrower(bs, width)[i] < width,
        forall|i: int|
            0 <= i < narrower(bs, width).len() ==> #[trigger] bs.contains(narrower(bs, width)[i]),
    decreases bs.len(),
{
    if bs.len() > 0 {
        lemma_narrower_bounded(bs.drop_last(), width);
        let rest = narrower(bs.drop_last(), width);
        assert forall|i: int| 0 <= i < rest.len() implies #[trigger] bs.contains(rest[i]) by {
            assert(bs.drop_last().contains(rest[i]));
            let k = choose|k: int| 0 <= k < bs.drop_last().len() && bs.drop_last()[k] == rest[i];
            assert(bs[k] == rest[i]);
        }
        if bs.last() < width {
            assert(bs[bs.len() - 1] == bs.last());
        }
    }
}

/// The generated widths are strictly increasing and end with the original
/// width (so sorting and removing duplicates leaves them as they are).
pub proof fn lemma_variant_widths_sorted(width: u32)
    ensures
        forall|i: int, j: int|
            0 <= i < j < variant_widths(width).len() ==> variant_widths(width)[i]
                < variant_widths(width)[j],
        variant_widths(width).last() == width,
{
    let bs = breakpoints();
    assert(narrower(bs, width) =~= narrower(bs, width));
    reveal_with_fuel(narrower, 6);
    lemma_narrower_bounded(bs, width);
    let n = narrower(bs, width);
    assert(bs.drop_last().drop_last().drop_last().drop_last().drop_last() =~= Seq::<u32>::empty());
    assert forall|i: int, j: int| 0 <= i < j < n.len() implies n[i] < n[j] by {
        assert(bs.drop_last() =~= seq![320u32, 640, 960, 1280]);
        assert(bs.drop_last().drop_last() =~= seq![320u32, 640, 960]);
        assert(bs.drop_last().drop_last().drop_last() =~= seq![320u32, 640]);
        assert(bs.drop_last().drop_last().drop_last().drop_last() =~= seq![320u32]);
    }
}

/// The widths to generate for an image `width` pixels wide, ascending.
pub fn plan_widths(width: u32) -> (r: Vec<u32>)
    ensures
        r@ == variant_widths(width),
{
    let bs = responsive_widths();
    let mut out: Vec<u32> = Vec::new();
    let mut i: usize = 0;
    while i < bs.len()
        invariant
            i <= bs.len(),
            bs@ == breakpoints(),
            out@ == narrower(bs@.take(i as int), width),
        decreases bs.len() - i,
    {
        proof {
            assert(bs@.take(i + 1).drop_last() =~= bs@.take(i as int));
        }
        if bs[i] < width {
            out.push(bs[i]);
        }
        i += 1;
    }
    proof {
        assert(bs@.take(bs@.len() as int) =~= bs@);
    }
    out.push(width);
    out
}

/// A decoded image.
#[derive(Clone, Debug)]
pub struct DecodedImage {
    pub pixels: Vec<u8>,
    pub width: u32,
    pub height: u32,
    pub channels: u8,
}

/// Width and height of a decoded image (`None` when it could not be
/// decoded).
pub fn get_dimensions(decoded: Option<&DecodedImage>) -> (r: Option<(u32, u32)>)
    ensures
        match decoded {
            Some(d) => r == Some((d.width, d.height)),
            None => r is None,
        },
{
    match decoded {
        Some(d) => Some((d.width, d.height)),
        None => None,
    }
}

/// Image metadata without the processed bytes.
#[derive(Clone, Debug)]
pub struct ImageMetadata {
    /// Original width
    pub width: u32,
    /// Original height
    pub height: u32,
    /// Thumbhash as base64 data URL
    pub thumbhash_data_url: String,
    /// Which widths variants are generated for
    pub variant_widths: Vec<u32>,
}

/// The metadata of an image from its decoding and its placeholder (both
/// optional: `None` when either failed).
pub fn get_image_metadata(decoded: Option<&DecodedImage>, thumbhash: Option<String>) -> (r: Option<
    ImageMetadata,
>)
    ensures
        r is Some <==> decoded is Some && thumbhash is Some,
        r matches Some(m) ==> {
            &&& m.width == decoded.unwrap().width
            &&& m.height == decoded.unwrap().height
            &&& Some(m.thumbhash_data_url) == thumbhash
            &&& m.variant_widths@ == variant_widths(m.width)
        },
{
    match decoded {
        Some(d) => match thumbhash {
            Some(t) => Some(
                ImageMetadata {
                    width: d.width,
                    height: d.height,
                    thumbhash_data_url: t,
                    variant_widths: plan_widths(d.width),
                },
            ),
            None => None,
        },
        None => None,
    }
}

/// One encoded variant of an image (one format, one width).
#[derive(Clone, Debug)]
pub struct ImageVariant {
    /// The encoded image data
    pub data: Vec<u8>,
    /// Width in pixels
    pub width: u32,
    /// Height in pixels
    pub height: u32,
}

/// All variants of an image.
#[derive(Clone, Debug)]
pub struct ProcessedImageSet {
    pub original_width: u32,
    pub original_height: u32,
    /// Thumbhash as base64 data URL (tiny PNG placeholder)
    pub thumbhash_data_url: String,
    /// JPEG-XL variants, by ascending width
    pub jxl_variants: Vec<ImageVariant>,
    /// WebP variants, by ascending width
    pub webp_variants: Vec<ImageVariant>,
}

/// What the plugins gave for one planned width: the height of the image
/// resized to that width (`None` if resizing failed; not used at the
/// original width, where the decoded image itself is encoded), and each
/// encoding (`None` if it failed).
#[derive(Clone, Debug)]
pub struct VariantOutcome {
    pub height: Option<u32>,
    pub jxl: Option<Vec<u8>>,
    pub webp: Option<Vec<u8>>,
}

pub open spec fn variant_view(v: ImageVariant) -> (Seq<u8>, u32, u32) {
    (v.data@, v.width, v.height)
}

/// The height of the image at planned width `w`: the original height at
/// the original width (no resize), else the height the resize gave.
pub open spec fn outcome_height(w: u32, o: VariantOutcome, original_width: u32, original_height: u32) -> Option<u32> {
    if w == original_width {
        Some(original_height)
    } else {
        o.height
    }
}

/// The variants of one format that were encoded, for planned widths
/// `widths` with plugin outcomes `outs`, of an image `ow` × `oh`.
pub open spec fn encoded_variants(
    widths: Seq<u32>,
    outs: Seq<VariantOutcome>,
    jxl: bool,
    ow: u32,
    oh: u32,
) -> Seq<(Seq<u8>, u32, u32)>
    decreases outs.len(),
{
    if outs.len() == 0 {
        Seq::empty()
    } else {
        let rest = encoded_variants(widths, outs.drop_last(), jxl, ow, oh);
        let i = outs.len() - 1;
        let o = outs.last();
        match (if jxl {
            o.jxl
        } else {
            o.webp
        }) {
            Some(data) => rest.push((data@, widths[i], outcome_height(widths[i], o, ow, oh).unwrap())),
            None => rest,
        }
    }
}

/// Every planned width below the original width was resized.
pub open spec fn all_resized(widths: Seq<u32>, outs: Seq<VariantOutcome>, ow: u32) -> bool {
    outs.len() == widths.len() && forall|i: int|
        0 <= i < outs.len() && widths[i] != ow ==> (#[trigger] outs[i]).height is Some
}

proof fn lemma_encoded_ascending(
    widths: Seq<u32>,
    outs: Seq<VariantOutcome>,
    jxl: bool,
    ow: u32,
    oh: u32,
)
    requires
        outs.len() <= widths.len(),
        forall|a: int, b: int| 0 <= a < b < widths.len() ==> widths[a] < widths[b],
    ensures
        forall|k: int|
            0 <= k < encoded_variants(widths, outs, jxl, ow, oh).len() ==> widths.contains(
                #[trigger] encoded_variants(widths, outs, jxl, ow, oh)[k].1,
            ) && encoded_variants(widths, outs, jxl, ow, oh)[k].1 <= widths[outs.len() - 1],
        forall|a: int, b: int|
            0 <= a < b < encoded_variants(widths, outs, jxl, ow, oh).len() ==> encoded_variants(
                widths,
                outs,
                jxl,
                ow,
                oh,
            )[a].1 < encoded_variants(widths, outs, jxl, ow, oh)[b].1,
    decreases outs.len(),
{
    if outs.len() > 0 {
        let init = outs.drop_last();
        lemma_encoded_ascending(widths, init, jxl, ow, oh);
        let rest = encoded_variants(widths, init, jxl, ow, oh);
        let e = encoded_variants(widths, outs, jxl, ow, oh);
        let n = outs.len() - 1;
        assert forall|k: int| 0 <= k < rest.len() implies rest[k].1 < widths[n] by {
            assert(rest[k].1 <= widths[n - 1]);
        }
        if e.len() > rest.len() {
            assert(e == rest.push(e.last()));
            assert(e.last().1 == widths[n]);
            assert(widths.contains(widths[n]));
            assert forall|k: int| 0 <= k < e.len() implies widths.contains(#[trigger] e[k].1)
                && e[k].1 <= widths[n] by {
                if k < rest.len() {
                    assert(e[k] == rest[k]);
                }
            }
            assert forall|a: int, b: int| 0 <= a < b < e.len() implies e[a].1 < e[b].1 by {
                assert(e[a] == rest[a]);
                if b < rest.len() {
                    assert(e[b] == rest[b]);
                }
            }
        } else {
            assert(e == rest);
            assert forall|k: int| 0 <= k < e.len() implies widths.contains(#[trigger] e[k].1)
                && e[k].1 <= widths[n] by {
                if n > 0 {
                    assert(widths[n - 1] < widths[n]);
                }
            }
        }
    }
}

/// The variants of each format come out at planned widths, in strictly
/// ascending order of width.
pub proof fn lemma_variants_ascending(
    original_width: u32,
    original_height: u32,
    outs: Seq<VariantOutcome>,
    jxl: bool,
)
    requires
        outs.len() == variant_widths(original_width).len(),
    ensures
        ({
            let e = encoded_variants(variant_widths(original_width), outs, jxl, original_width, original_height);
            &&& forall|k: int| 0 <= k < e.len() ==> variant_widths(original_width).contains(#[trigger] e[k].1)
            &&& forall|a: int, b: int| 0 <= a < b < e.len() ==> e[a].1 < e[b].1
        }),
{
    lemma_variant_widths_sorted(original_width);
    lemma_encoded_ascending(variant_widths(original_width), outs, jxl, original_width, original_height);
}

/// Puts together the variants of an image `original_width` ×
/// `original_height`, given its placeholder and the plugins' outcome for
/// each planned width (see [`plan_widths`]). The variant at the original
/// width is the decoded image itself: its height is the original height
/// and it needs no resize. `None` when the placeholder failed, a resize
/// failed, or either format has no variant at all.
pub fn process_image(
    original_width: u32,
    original_height: u32,
    thumbhash: Option<String>,
    outcomes: Vec<VariantOutcome>,
) -> (r: Option<ProcessedImageSet>)
    ensures
        ({
            let widths = variant_widths(original_width);
            &&& r is Some <==> {
                &&& thumbhash is Some
                &&& all_resized(widths, outcomes@, original_width)
                &&& encoded_variants(widths, outcomes@, true, original_width, original_height).len() > 0
                &&& encoded_variants(widths, outcomes@, false, original_width, original_height).len() > 0
            }
            &&& r matches Some(set) ==> {
                &&& set.original_width == original_width
                &&& set.original_height == original_height
                &&& Some(set.thumbhash_data_url) == thumbhash
                &&& set.jxl_variants@.map_values(|v: ImageVariant| variant_view(v))
                    == encoded_variants(widths, outcomes@, true, original_width, original_height)
                &&& set.webp_variants@.map_values(|v: ImageVariant| variant_view(v))
                    == encoded_variants(widths, outcomes@, false, original_width, original_height)
            }
        }),
{
    let thumb = match thumbhash {
        Some(t) => t,
        None => {
            return None;
        },
    };
    let widths = plan_widths(original_width);
    if outcomes.len() != widths.len() {
        return None;
    }
    let ghost outs = outcomes@;
    let mut jxl: Vec<ImageVariant> = Vec::new();
    let mut webp: Vec<ImageVariant> = Vec::new();
    let mut i: usize = 0;
    while i < outcomes.len()
        invariant
            i <= outcomes.len(),
            outs == outcomes@,
            widths@ == variant_widths(original_width),
            outcomes@.len() == widths@.len(),
            forall|k: int| 0 <= k < i && widths@[k] != original_width ==> (#[trigger] outs[k]).height is Some,
            jxl@.map_values(|v: ImageVariant| variant_view(v)) == encoded_variants(
                widths@,
                outs.take(i as int),
                true,
                original_width,
                original_height,
            ),
            webp@.map_values(|v: ImageVariant| variant_view(v)) == encoded_variants(
                widths@,
                outs.take(i as int),
                false,
                original_width,
                original_height,
            ),
        decreases outcomes.len() - i,
    {
        proof {
            assert(outs.take(i + 1).drop_last() =~= outs.take(i as int));
            assert(outs.take(i + 1).last() == outs[i as int]);
        }
        let o = &outcomes[i];
        let height = if widths[i] == original_width {
            original_height
        } else {
            match o.height {
                Some(h) => h,
                None => {
                    return None;
                },
            }
        };
        match &o.jxl {
            Some(data) => {
                let ghost before = jxl@;
                jxl.push(ImageVariant { data: data.clone(), width: widths[i], height });
                proof {
                    assert(jxl@.map_values(|v: ImageVariant| variant_view(v)) =~= before.map_values(
                        |v: ImageVariant| variant_view(v),
                    ).push((data@, widths@[i as int], height)));
                }
            },
            None => {},
        }
        match &o.webp {
            Some(data) => {
                let ghost before = webp@;
                webp.push(ImageVariant { data: data.clone(), width: widths[i], height });
                proof {
                    assert(webp@.map_values(|v: ImageVariant| variant_view(v)) =~= before.map_values(
                        |v: ImageVariant| variant_view(v),
                    ).push((data@, widths@[i as int], height)));
                }
            },
            None => {},
        }
        i += 1;
    }
    proof {
        assert(outs.take(outs.len() as int) =~= outs);
    }
    if jxl.len() == 0 || webp.len() == 0 {
        return None;
    }
    Some(
        ProcessedImageSet {
            original_width,
            original_height,
            thumbhash_data_url: thumb,
            jxl_variants: jxl,
            webp_variants: webp,
        },
    )
}

} // verus!
