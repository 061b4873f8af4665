//! Pages handed to the search indexer, and content types of served files.

use vstd::prelude::*;
use crate::db::{OutputFile, SiteOutput};
use crate::queries::SearchPage;
use crate::text::{
    char_pred, chars_to_string, ends_with, ends_with_str, eq_str, lemma_end_chars, str_chars,
    trim_end_by, trim_end_matches_chars,
};

verus! {

/// The URL under which a page is indexed: the root as `/`, any other route
/// with exactly one trailing slash.
pub open spec fn search_url(route: Seq<char>) -> Seq<char> {
    if route == seq!['/'] {
        seq!['/']
    } else {
        trim_end_by(route, char_pred('/')) + seq!['/']
    }
}

/// The rendered pages to index, in output order, other outputs left out.
pub open spec fn search_pages_of(files: Seq<OutputFile>) -> Seq<(Seq<char>, Seq<char>)>
    decreases files.len(),
{
    if files.len() == 0 {
        Seq::empty()
    } else {
        let rest = search_pages_of(files.drop_last());
        match files.last() {
            OutputFile::Html { route, content } => rest.push((search_url(route@), content@)),
            _ => rest,
        }
    }
}

/// Collects the HTML pages of a built site for search indexing.
pub fn collect_search_pages(output: &SiteOutput) -> (r: Vec<SearchPage>)
    ensures
        r@.map_values(|p: SearchPage| (p.url@, p.html@)) == search_pages_of(output.files@),
{
    let mut out: Vec<SearchPage> = Vec::new();
    let mut i: usize = 0;
    while i < output.files.len()
        invariant
            i <= output.files.len(),
            out@.map_values(|p: SearchPage| (p.url@, p.html@)) == search_pages_of(
                output.files@.take(i as int),
            ),
        decreases output.files.len() - i,
    {
        proof {
            assert(output.files@.take(i + 1).drop_last() =~= output.files@.take(i as int));
        }
        match &output.files[i] {
            OutputFile::Html { route, content } => {
                let r = str_chars(route.as_str());
                proof {
                    reveal_strlit("/");
                    assert("/"@ =~= seq!['/']);
                }
                let url = if eq_str(&r, "/") {
                    "/".to_owned()
                } else {
                    let mut t = trim_end_matches_chars(&r, '/');
                    t.push('/');
                    chars_to_string(&t)
                };
                assert(url@ == search_url(route@));
                let ghost before = out@;
                out.push(SearchPage { url, html: content.clone() });
                proof {
                    assert(out@.map_values(|p: SearchPage| (p.url@, p.html@)) =~= before.map_values(
                        |p: SearchPage| (p.url@, p.html@),
                    ).push((search_url(route@), content@)));
                }
            },
            _ => {},
        }
        i += 1;
    }
    proof {
        assert(output.files@.take(output.files@.len() as int) =~= output.files@);
    }
    out
}

/// The content type served for a path, by its extension.
pub open spec fn mime_of(p: Seq<char>) -> Seq<char> {
    if ends_with(p, ".js"@) {
        "application/javascript"@
    } else if ends_with(p, ".wasm"@) {
        "application/wasm"@
    } else if ends_with(p, ".css"@) {
        "text/css"@
    } else if ends_with(p, ".html"@) {
        "text/html"@
    } else if ends_with(p, ".json"@) {
        "application/json"@
    } else if ends_with(p, ".svg"@) {
        "image/svg+xml"@
    } else if ends_with(p, ".png"@) {
        "image/png"@
    } else if ends_with(p, ".jpg"@) || ends_with(p, ".jpeg"@) {
        "image/jpeg"@
    } else if ends_with(p, ".webp"@) {
        "image/webp"@
    } else if ends_with(p, ".jxl"@) {
        "image/jxl"@
    } else if ends_with(p, ".woff2"@) {
        "font/woff2"@
    } else if ends_with(p, ".woff"@) {
        "font/woff"@
    } else if ends_with(p, ".ttf"@) {
        "font/ttf"@
    } else if ends_with(p, ".otf"@) {
        "font/otf"@
    } else {
        "application/octet-stream"@
    }
}

/// Guesses the content type of a served file from its extension.
pub fn guess_mime(path: &str) -> (r: &'static str)
    ensures
        r@ == mime_of(path@),
{
    let p = str_chars(path);
    if ends_with_str(&p, ".js") {
        "application/javascript"
    } else if ends_with_str(&p, ".wasm") {
        "application/wasm"
    } else if ends_with_str(&p, ".css") {
        "text/css"
    } else if ends_with_str(&p, ".html") {
        "text/html"
    } else if ends_with_str(&p, ".json") {
        "application/json"
    } else if ends_with_str(&p, ".svg") {
        "image/svg+xml"
    } else if ends_with_str(&p, ".png") {
        "image/png"
    } else if ends_with_str(&p, ".jpg") || ends_with_str(&p, ".jpeg") {
        "image/jpeg"
    } else if ends_with_str(&p, ".webp") {
        "image/webp"
    } else if ends_with_str(&p, ".jxl") {
        "image/jxl"
    } else if ends_with_str(&p, ".woff2") {
        "font/woff2"
    } else if ends_with_str(&p, ".woff") {
        "font/woff"
    } else if ends_with_str(&p, ".ttf") {
        "font/ttf"
    } else if ends_with_str(&p, ".otf") {
        "font/otf"
    } else {
        "application/octet-stream"
    }
}

/// The content types of served search and asset files, by file extension:
/// each extension gives its type, and a path with none of them is served as
/// `application/octet-stream`.
pub proof fn lemma_mime_table(p: Seq<char>)
    ensures
        ends_with(p, ".js"@) ==> mime_of(p) == "application/javascript"@,
        ends_with(p, ".wasm"@) ==> mime_of(p) == "application/wasm"@,
        ends_with(p, ".css"@) ==> mime_of(p) == "text/css"@,
        ends_with(p, ".html"@) ==> mime_of(p) == "text/html"@,
        ends_with(p, ".json"@) ==> mime_of(p) == "application/json"@,
        ends_with(p, ".svg"@) ==> mime_of(p) == "image/svg+xml"@,
        ends_with(p, ".png"@) ==> mime_of(p) == "image/png"@,
        ends_with(p, ".jpg"@) ==> mime_of(p) == "image/jpeg"@,
        ends_with(p, ".jpeg"@) ==> mime_of(p) == "image/jpeg"@,
        ends_with(p, ".webp"@) ==> mime_of(p) == "image/webp"@,
        ends_with(p, ".jxl"@) ==> mime_of(p) == "image/jxl"@,
        ends_with(p, ".woff2"@) ==> mime_of(p) == "font/woff2"@,
        ends_with(p, ".woff"@) ==> mime_of(p) == "font/woff"@,
        ends_with(p, ".ttf"@) ==> mime_of(p) == "font/ttf"@,
        ends_with(p, ".otf"@) ==> mime_of(p) == "font/otf"@,
        !ends_with(p, ".js"@) && !ends_with(p, ".wasm"@) && !ends_with(p, ".css"@) && !ends_with(p, ".html"@) && !ends_with(p, ".json"@) && !ends_with(p, ".svg"@) && !ends_with(p, ".png"@) && !ends_with(p, ".jpg"@) && !ends_with(p, ".jpeg"@) && !ends_with(p, ".webp"@) && !ends_with(p, ".jxl"@) && !ends_with(p, ".woff2"@) && !ends_with(p, ".woff"@) && !ends_with(p, ".ttf"@) && !ends_with(p, ".otf"@) ==> mime_of(p) == "application/octet-stream"@,
{
    reveal_strlit(".css");
    reveal_strlit(".html");
    reveal_strlit(".jpeg");
    reveal_strlit(".jpg");
    reveal_strlit(".js");
    reveal_strlit(".json");
    reveal_strlit(".jxl");
    reveal_strlit(".otf");
    reveal_strlit(".png");
    reveal_strlit(".svg");
    reveal_strlit(".ttf");
    reveal_strlit(".wasm");
    reveal_strlit(".webp");
    reveal_strlit(".woff");
    reveal_strlit(".woff2");
    reveal_strlit("application/javascript");
    reveal_strlit("application/json");
    reveal_strlit("application/octet-stream");
    reveal_strlit("application/wasm");
    reveal_strlit("font/otf");
    reveal_strlit("font/ttf");
    reveal_strlit("font/woff");
    reveal_strlit("font/woff2");
    reveal_strlit("image/jpeg");
    reveal_strlit("image/jxl");
    reveal_strlit("image/png");
    reveal_strlit("image/svg+xml");
    reveal_strlit("image/webp");
    reveal_strlit("text/css");
    reveal_strlit("text/html");
    if ends_with(p, ".js"@) {
        lemma_end_chars(p, ".js"@);
    }
    if ends_with(p, ".wasm"@) {
        lemma_end_chars(p, ".wasm"@);
    }
    if ends_with(p, ".css"@) {
        lemma_end_chars(p, ".css"@);
    }
    if ends_with(p, ".html"@) {
        lemma_end_chars(p, ".html"@);
    }
    if ends_with(p, ".json"@) {
        lemma_end_chars(p, ".json"@);
    }
    if ends_with(p, ".svg"@) {
        lemma_end_chars(p, ".svg"@);
    }
    if ends_with(p, ".png"@) {
        lemma_end_chars(p, ".png"@);
    }
    if ends_with(p, ".jpg"@) {
        lemma_end_chars(p, ".jpg"@);
    }
    if ends_with(p, ".jpeg"@) {
        lemma_end_chars(p, ".jpeg"@);
    }
    if ends_with(p, ".webp"@) {
        lemma_end_chars(p, ".webp"@);
    }
    if ends_with(p, ".jxl"@) {
        lemma_end_chars(p, ".jxl"@);
    }
    if ends_with(p, ".woff2"@) {
        lemma_end_chars(p, ".woff2"@);
    }
    if ends_with(p, ".woff"@) {
        lemma_end_chars(p, ".woff"@);
    }
    if ends_with(p, ".ttf"@) {
        lemma_end_chars(p, ".ttf"@);
    }
    if ends_with(p, ".otf"@) {
        lemma_end_chars(p, ".otf"@);
    }
}

} // verus!
