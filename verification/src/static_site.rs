//! Decisions of the static file server (`ddc static`): which files answer
//! a request path, their content type, and the page for a missing path.

use vstd::prelude::*;
use crate::inputs::{camino_join, path_join};
use crate::text::{
    append_str, char_pred, chars_to_string, ends_with, ends_with_str, lemma_end_chars, str_chars,
    trim_start_by,
};

verus! {

/// The request path without its leading slashes.
pub open spec fn relative_request(path: Seq<char>) -> Seq<char> {
    trim_start_by(path, char_pred('/'))
}

/// The files to try for a request path below the served directory `root`,
/// in order: the path joined to `root`; for a directory path (empty or
/// ending with `/`) its `index.html`, for any other path the file itself,
/// then the `index.html` inside it.
pub open spec fn lookup_candidates(root: Seq<char>, path: Seq<char>) -> Seq<Seq<char>> {
    let p = relative_request(path);
    let file = camino_join(root, p);
    if p.len() == 0 || p.last() == '/' {
        seq![camino_join(file, "index.html"@)]
    } else {
        seq![file, camino_join(file, "index.html"@)]
    }
}

/// Removes the leading slashes of `s`.
fn strip_leading_slashes(s: &[char]) -> (r: Vec<char>)
    ensures
        r@ == trim_start_by(s@, char_pred('/')),
{
    let mut i: usize = 0;
    while i < s.len() && s[i] == '/'
        invariant
            i <= s.len(),
            forall|j: int| 0 <= j < i ==> s@[j] == '/',
        decreases s.len() - i,
    {
        i += 1;
    }
    proof {
        crate::text::lemma_trim_start_at(s@, char_pred('/'), i as int);
    }
    crate::text::slice_chars(s, i, s.len())
}

/// The files to try for a request path; see [`lookup_candidates`].
pub fn static_lookup_paths(root: &str, path: &str) -> (r: Vec<String>)
    ensures
        r@.map_values(|s: String| s@) == lookup_candidates(root@, path@),
{
    let all = str_chars(path);
    let p = strip_leading_slashes(&all);
    let rel = chars_to_string(&p);
    let file = path_join(root, rel.as_str());
    proof {
        reveal_strlit("index.html");
    }
    if p.len() == 0 || p[p.len() - 1] == '/' {
        let v = vec![path_join(file.as_str(), "index.html")];
        assert(v@.map_values(|s: String| s@) =~= lookup_candidates(root@, path@));
        v
    } else {
        let index = path_join(file.as_str(), "index.html");
        let v = vec![file, index];
        assert(v@.map_values(|s: String| s@) =~= lookup_candidates(root@, path@));
        v
    }
}

/// The page for a path that is not there.
pub open spec fn not_found_html(path: Seq<char>) -> Seq<char> {
    "<!DOCTYPE html>\n<html><head><title>404 Not Found</title></head>\n<body><h1>404 Not Found</h1><p>The requested path <code>/"@
        + relative_request(path) + "</code> was not found.</p></body>\n</html>"@
}

/// The 404 page for a request path.
pub fn not_found_page(path: &str) -> (r: String)
    ensures
        r@ == not_found_html(path@),
{
    let all = str_chars(path);
    let p = strip_leading_slashes(&all);
    let mut t = str_chars(
        "<!DOCTYPE html>\n<html><head><title>404 Not Found</title></head>\n<body><h1>404 Not Found</h1><p>The requested path <code>/",
    );
    crate::text::append_chars(&mut t, &p);
    append_str(&mut t, "</code> was not found.</p></body>\n</html>");
    chars_to_string(&t)
}

/// The content type of a served static file, by its extension.
pub open spec fn static_mime_of(p: Seq<char>) -> Seq<char> {
    if ends_with(p, ".html"@) || ends_with(p, ".htm"@) {
        "text/html"@
    } else if ends_with(p, ".css"@) {
        "text/css"@
    } else if ends_with(p, ".js"@) {
        "application/javascript"@
    } else if ends_with(p, ".json"@) {
        "application/json"@
    } else if ends_with(p, ".png"@) {
        "image/png"@
    } else if ends_with(p, ".jpg"@) || ends_with(p, ".jpeg"@) {
        "image/jpeg"@
    } else if ends_with(p, ".gif"@) {
        "image/gif"@
    } else if ends_with(p, ".svg"@) {
        "image/svg+xml"@
    } else if ends_with(p, ".webp"@) {
        "image/webp"@
    } else if ends_with(p, ".ico"@) {
        "image/x-icon"@
    } else if ends_with(p, ".woff2"@) {
        "font/woff2"@
    } else if ends_with(p, ".woff"@) {
        "font/woff"@
    } else if ends_with(p, ".ttf"@) {
        "font/ttf"@
    } else if ends_with(p, ".xml"@) {
        "application/xml"@
    } else if ends_with(p, ".txt"@) {
        "text/plain"@
    } else if ends_with(p, ".wasm"@) {
        "application/wasm"@
    } else {
        "application/octet-stream"@
    }
}

/// Guesses the content type of a served static file.
pub fn guess_static_mime(path: &str) -> (r: &'static str)
    ensures
        r@ == static_mime_of(path@),
{
    let p = str_chars(path);
    if ends_with_str(&p, ".html") || ends_with_str(&p, ".htm") {
        "text/html"
    } else if ends_with_str(&p, ".css") {
        "text/css"
    } else if ends_with_str(&p, ".js") {
        "application/javascript"
    } else if ends_with_str(&p, ".json") {
        "application/json"
    } else if ends_with_str(&p, ".png") {
        "image/png"
    } else if ends_with_str(&p, ".jpg") || ends_with_str(&p, ".jpeg") {
        "image/jpeg"
    } else if ends_with_str(&p, ".gif") {
        "image/gif"
    } else if ends_with_str(&p, ".svg") {
        "image/svg+xml"
    } else if ends_with_str(&p, ".webp") {
        "image/webp"
    } else if ends_with_str(&p, ".ico") {
        "image/x-icon"
    } else if ends_with_str(&p, ".woff2") {
        "font/woff2"
    } else if ends_with_str(&p, ".woff") {
        "font/woff"
    } else if ends_with_str(&p, ".ttf") {
        "font/ttf"
    } else if ends_with_str(&p, ".xml") {
        "application/xml"
    } else if ends_with_str(&p, ".txt") {
        "text/plain"
    } else if ends_with_str(&p, ".wasm") {
        "application/wasm"
    } else {
        "application/octet-stream"
    }
}

/// The content types of the static server, by file extension: each
/// extension gives its type, and a path with none of them is served as
/// `application/octet-stream`.
pub proof fn lemma_static_mime_table(p: Seq<char>)
    ensures
        ends_with(p, ".html"@) ==> static_mime_of(p) == "text/html"@,
        ends_with(p, ".htm"@) ==> static_mime_of(p) == "text/html"@,
        ends_with(p, ".css"@) ==> static_mime_of(p) == "text/css"@,
        ends_with(p, ".js"@) ==> static_mime_of(p) == "application/javascript"@,
        ends_with(p, ".json"@) ==> static_mime_of(p) == "application/json"@,
        ends_with(p, ".png"@) ==> static_mime_of(p) == "image/png"@,
        ends_with(p, ".jpg"@) ==> static_mime_of(p) == "image/jpeg"@,
        ends_with(p, ".jpeg"@) ==> static_mime_of(p) == "image/jpeg"@,
        ends_with(p, ".gif"@) ==> static_mime_of(p) == "image/gif"@,
        ends_with(p, ".svg"@) ==> static_mime_of(p) == "image/svg+xml"@,
        ends_with(p, ".webp"@) ==> static_mime_of(p) == "image/webp"@,
        ends_with(p, ".ico"@) ==> static_mime_of(p) == "image/x-icon"@,
        ends_with(p, ".woff2"@) ==> static_mime_of(p) == "font/woff2"@,
        ends_with(p, ".woff"@) ==> static_mime_of(p) == "font/woff"@,
        ends_with(p, ".ttf"@) ==> static_mime_of(p) == "font/ttf"@,
        ends_with(p, ".xml"@) ==> static_mime_of(p) == "application/xml"@,
        ends_with(p, ".txt"@) ==> static_mime_of(p) == "text/plain"@,
        ends_with(p, ".wasm"@) ==> static_mime_of(p) == "application/wasm"@,
        !ends_with(p, ".html"@) && !ends_with(p, ".htm"@) && !ends_with(p, ".css"@) && !ends_with(p, ".js"@) && !ends_with(p, ".json"@) && !ends_with(p, ".png"@) && !ends_with(p, ".jpg"@) && !ends_with(p, ".jpeg"@) && !ends_with(p, ".gif"@) && !ends_with(p, ".svg"@) && !ends_with(p, ".webp"@) && !ends_with(p, ".ico"@) && !ends_with(p, ".woff2"@) && !ends_with(p, ".woff"@) && !ends_with(p, ".ttf"@) && !ends_with(p, ".xml"@) && !ends_with(p, ".txt"@) && !ends_with(p, ".wasm"@) ==> static_mime_of(p) == "application/octet-stream"@,
{
    reveal_strlit(".css");
    reveal_strlit(".gif");
    reveal_strlit(".htm");
    reveal_strlit(".html");
    reveal_strlit(".ico");
    reveal_strlit(".jpeg");
    reveal_strlit(".jpg");
    reveal_strlit(".js");
    reveal_strlit(".json");
    reveal_strlit(".png");
    reveal_strlit(".svg");
    reveal_strlit(".ttf");
    reveal_strlit(".txt");
    reveal_strlit(".wasm");
    reveal_strlit(".webp");
    reveal_strlit(".woff");
    reveal_strlit(".woff2");
    reveal_strlit(".xml");
    reveal_strlit("application/javascript");
    reveal_strlit("application/json");
    reveal_strlit("application/octet-stream");
    reveal_strlit("application/wasm");
    reveal_strlit("application/xml");
    reveal_strlit("font/ttf");
    reveal_strlit("font/woff");
    reveal_strlit("font/woff2");
    reveal_strlit("image/gif");
    reveal_strlit("image/jpeg");
    reveal_strlit("image/png");
    reveal_strlit("image/svg+xml");
    reveal_strlit("image/webp");
    reveal_strlit("image/x-icon");
    reveal_strlit("text/css");
    reveal_strlit("text/html");
    reveal_strlit("text/plain");
    if ends_with(p, ".html"@) {
        lemma_end_chars(p, ".html"@);
    }
    if ends_with(p, ".htm"@) {
        lemma_end_chars(p, ".htm"@);
    }
    if ends_with(p, ".css"@) {
        lemma_end_chars(p, ".css"@);
    }
    if ends_with(p, ".js"@) {
        lemma_end_chars(p, ".js"@);
    }
    if ends_with(p, ".json"@) {
        lemma_end_chars(p, ".json"@);
    }
    if ends_with(p, ".png"@) {
        lemma_end_chars(p, ".png"@);
    }
    if ends_with(p, ".jpg"@) {
        lemma_end_chars(p, ".jpg"@);
    }
    if ends_with(p, ".jpeg"@) {
        lemma_end_chars(p, ".jpeg"@);
    }
    if ends_with(p, ".gif"@) {
        lemma_end_chars(p, ".gif"@);
    }
    if ends_with(p, ".svg"@) {
        lemma_end_chars(p, ".svg"@);
    }
    if ends_with(p, ".webp"@) {
        lemma_end_chars(p, ".webp"@);
    }
    if ends_with(p, ".ico"@) {
        lemma_end_chars(p, ".ico"@);
    }
    if ends_with(p, ".woff2"@) {
        lemma_end_chars(p, ".woff2"@);
    }
    if ends_with(p, ".woff"@) {
        lemma_end_chars(p, ".woff"@);
    }
    if ends_with(p, ".ttf"@) {
        lemma_end_chars(p, ".ttf"@);
    }
    if ends_with(p, ".xml"@) {
        lemma_end_chars(p, ".xml"@);
    }
    if ends_with(p, ".txt"@) {
        lemma_end_chars(p, ".txt"@);
    }
    if ends_with(p, ".wasm"@) {
        lemma_end_chars(p, ".wasm"@);
    }
}

} // verus!
