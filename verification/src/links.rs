//! Link checking for generated HTML.
//!
//! Works on the HTML of the rendered pages: anchors are pulled out with
//! regular expressions, classified as internal, external or special, and
//! internal targets (including `#fragment` anchors) are resolved against
//! the set of known routes and the heading ids found on each page.

use vstd::prelude::*;
use crate::text::{
    lemma_split_no_sep, lemma_split_nonempty,
    find_char_opt, lemma_find_char_none, lemma_find_char_some,
    append_chars, append_str, char_pred, chars_to_string, ends_with, ends_with_str, eq_chars,
    find_char, first_char_index, join, join_chars, lacks_char, slice_chars, split_char,
    split_chars, starts_with, starts_with_str, str_chars, trim_end_by, trim_end_matches_chars,
};
use crate::types::Route;

verus! {

// ---------------------------------------------------------------------------
// Result types
// ---------------------------------------------------------------------------

/// A broken link found during checking.
#[derive(Clone, Debug)]
pub struct BrokenLink {
    /// The route of the page containing the broken link
    pub source_route: Route,
    /// The href value that's broken
    pub href: String,
    /// Why it's broken
    pub reason: String,
    /// Is this an external link?
    pub is_external: bool,
}

/// Abstract value of a broken link: source route, href, reason, external.
pub open spec fn broken_view(b: BrokenLink) -> (Seq<char>, Seq<char>, Seq<char>, bool) {
    (b.source_route@, b.href@, b.reason@, b.is_external)
}

pub open spec fn broken_views(s: Seq<BrokenLink>) -> Seq<(Seq<char>, Seq<char>, Seq<char>, bool)> {
    s.map_values(|b: BrokenLink| broken_view(b))
}

/// Results from link checking.
#[derive(Clone, Debug)]
pub struct LinkCheckResult {
    pub total_links: usize,
    pub internal_links: usize,
    pub external_links: usize,
    pub external_checked: usize,
    pub broken_links: Vec<BrokenLink>,
}

/// Number of links in `s` whose `is_external` flag is `ext`.
pub open spec fn count_with_flag(s: Seq<BrokenLink>, ext: bool) -> nat
    decreases s.len(),
{
    if s.len() == 0 {
        0
    } else {
        count_with_flag(s.drop_last(), ext) + if s.last().is_external == ext {
            1nat
        } else {
            0nat
        }
    }
}

/// No more links have a flag than there are links.
pub proof fn lemma_count_with_flag_bound(s: Seq<BrokenLink>, ext: bool)
    ensures
        count_with_flag(s, ext) <= s.len(),
    decreases s.len(),
{
    if s.len() > 0 {
        lemma_count_with_flag_bound(s.drop_last(), ext);
    }
}

/// Every broken link is either internal or external.
pub proof fn lemma_count_partition(s: Seq<BrokenLink>)
    ensures
        count_with_flag(s, true) + count_with_flag(s, false) == s.len(),
    decreases s.len(),
{
    if s.len() > 0 {
        lemma_count_partition(s.drop_last());
    }
}

fn count_flag(links: &Vec<BrokenLink>, ext: bool) -> (r: usize)
    ensures
        r == count_with_flag(links@, ext),
{
    let mut c: usize = 0;
    let mut i: usize = 0;
    while i < links.len()
        invariant
            i <= links.len(),
            c == count_with_flag(links@.take(i as int), ext),
            c <= i,
        decreases links.len() - i,
    {
        proof {
            assert(links@.take(i + 1).drop_last() =~= links@.take(i as int));
        }
        if links[i].is_external == ext {
            c += 1;
        }
        i += 1;
    }
    assert(links@.take(links.len() as int) =~= links@);
    c
}

impl LinkCheckResult {
    /// No link is broken.
    pub fn is_ok(&self) -> (r: bool)
        ensures
            r == (self.broken_links@.len() == 0),
    {
        self.broken_links.len() == 0
    }

    /// Number of broken internal links.
    pub fn internal_broken(&self) -> (r: usize)
        ensures
            r == count_with_flag(self.broken_links@, false),
    {
        count_flag(&self.broken_links, false)
    }

    /// Number of broken external links.
    pub fn external_broken(&self) -> (r: usize)
        ensures
            r == count_with_flag(self.broken_links@, true),
    {
        count_flag(&self.broken_links, true)
    }
}

// ---------------------------------------------------------------------------
// Route normalization
// ---------------------------------------------------------------------------

pub open spec fn views(s: Seq<Vec<char>>) -> Seq<Seq<char>> {
    s.map_values(|v: Vec<char>| v@)
}

/// The segment stack after walking `parts`: empty and `.` segments are
/// ignored, `..` drops the last kept segment (if any), others are kept.
pub open spec fn segment_stack(parts: Seq<Seq<char>>) -> Seq<Seq<char>>
    decreases parts.len(),
{
    if parts.len() == 0 {
        Seq::empty()
    } else {
        let st = segment_stack(parts.drop_last());
        let p = parts.last();
        if p.len() == 0 || p == seq!['.'] {
            st
        } else if p == seq!['.', '.'] {
            if st.len() > 0 {
                st.drop_last()
            } else {
                st
            }
        } else {
            st.push(p)
        }
    }
}

/// Normalized form of a route path: `..` and `.` resolved, a leading
/// slash, and no trailing slash except for the root.
pub open spec fn normalize_route_spec(path: Seq<char>) -> Seq<char> {
    let st = segment_stack(split_char(path, '/'));
    if st.len() == 0 {
        seq!['/']
    } else {
        seq!['/'] + join(st, seq!['/'])
    }
}

proof fn lemma_stack_step(parts: Seq<Seq<char>>, i: int)
    requires
        0 <= i < parts.len(),
    ensures
        segment_stack(parts.take(i + 1)) == ({
            let st = segment_stack(parts.take(i));
            let p = parts[i];
            if p.len() == 0 || p == seq!['.'] {
                st
            } else if p == seq!['.', '.'] {
                if st.len() > 0 {
                    st.drop_last()
                } else {
                    st
                }
            } else {
                st.push(p)
            }
        }),
{
    assert(parts.take(i + 1).drop_last() =~= parts.take(i));
}

/// Normalized route of the characters of a path.
pub fn normalize_route_chars(path: &[char]) -> (r: Vec<char>)
    ensures
        r@ == normalize_route_spec(path@),
{
    let parts = split_chars(path, '/');
    let ghost ps = split_char(path@, '/');
    assert(views(parts@) =~= ps);
    let mut stack: Vec<Vec<char>> = Vec::new();
    let mut i: usize = 0;
    while i < parts.len()
        invariant
            i <= parts.len(),
            ps == split_char(path@, '/'),
            views(parts@) == ps,
            views(stack@) == segment_stack(ps.take(i as int)),
        decreases parts.len() - i,
    {
        proof {
            lemma_stack_step(ps, i as int);
            assert(parts@[i as int]@ == ps[i as int]);
        }
        let p = &parts[i];
        let is_dot = p.len() == 1 && p[0] == '.';
        let is_dotdot = p.len() == 2 && p[0] == '.' && p[1] == '.';
        proof {
            assert(is_dot == (p@ == seq!['.'])) by {
                if p@ == seq!['.'] {
                    assert(p@[0] == '.');
                }
                if is_dot {
                    assert(p@ =~= seq!['.']);
                }
            }
            assert(is_dotdot == (p@ == seq!['.', '.'])) by {
                if p@ == seq!['.', '.'] {
                    assert(p@[0] == '.' && p@[1] == '.');
                }
                if is_dotdot {
                    assert(p@ =~= seq!['.', '.']);
                }
            }
        }
        if p.len() == 0 || is_dot {
        } else if is_dotdot {
            if stack.len() > 0 {
                let ghost before = stack@;
                stack.pop();
                assert(stack@ =~= before.drop_last());
                assert(views(stack@) =~= views(before).drop_last());
            }
        } else {
            let q = slice_chars(p, 0, p.len());
            assert(p@.subrange(0, p@.len() as int) =~= p@);
            stack.push(q);
            assert(views(stack@) =~= segment_stack(ps.take(i as int)).push(p@));
        }
        i += 1;
    }
    assert(ps.take(parts.len() as int) =~= ps);
    let mut r: Vec<char> = Vec::new();
    r.push('/');
    if stack.len() == 0 {
        assert(r@ =~= seq!['/']);
        return r;
    }
    let sep: Vec<char> = vec!['/'];
    let joined = join_chars(&stack, &sep);
    assert(sep@ =~= seq!['/']);
    append_chars(&mut r, &joined);
    assert(r@ =~= seq!['/'] + join(segment_stack(ps), seq!['/']));
    r
}

/// Normalize a route path (handle `..` and `.`, ensure a leading slash,
/// no trailing slash except for the root).
pub fn normalize_route(path: &str) -> (r: String)
    ensures
        r@ == normalize_route_spec(path@),
{
    let p = str_chars(path);
    let n = normalize_route_chars(&p);
    chars_to_string(&n)
}

/// A segment kept by normalization: not empty, not `.` or `..`, and free
/// of slashes.
pub open spec fn plain_segment(p: Seq<char>) -> bool {
    p.len() > 0 && p != seq!['.'] && p != seq!['.', '.'] && lacks_char(p, '/')
}

proof fn lemma_split_pieces_lack(s: Seq<char>, sep: char)
    ensures
        forall|i: int|
            0 <= i < split_char(s, sep).len() ==> lacks_char(#[trigger] split_char(s, sep)[i], sep),
    decreases s.len(),
{
    lemma_split_nonempty(s, sep);
    if s.len() > 0 {
        let t = s.drop_last();
        lemma_split_pieces_lack(t, sep);
        lemma_split_nonempty(t, sep);
        let init = split_char(t, sep);
        if s.last() != sep {
            assert forall|i: int| 0 <= i < split_char(s, sep).len() implies lacks_char(
                #[trigger] split_char(s, sep)[i],
                sep,
            ) by {
                if i == init.len() - 1 {
                    assert(lacks_char(init[i], sep));
                    assert(split_char(s, sep)[i] == init[i].push(s.last()));
                } else {
                    assert(split_char(s, sep)[i] == init[i]);
                }
            }
        } else {
            assert forall|i: int| 0 <= i < split_char(s, sep).len() implies lacks_char(
                #[trigger] split_char(s, sep)[i],
                sep,
            ) by {
                if i < init.len() {
                    assert(split_char(s, sep)[i] == init[i]);
                }
            }
        }
    }
}

proof fn lemma_stack_plain(parts: Seq<Seq<char>>)
    requires
        forall|i: int| 0 <= i < parts.len() ==> lacks_char(#[trigger] parts[i], '/'),
    ensures
        forall|i: int|
            0 <= i < segment_stack(parts).len() ==> plain_segment(#[trigger] segment_stack(parts)[i]),
    decreases parts.len(),
{
    if parts.len() > 0 {
        let init = parts.drop_last();
        assert forall|i: int| 0 <= i < init.len() implies lacks_char(#[trigger] init[i], '/') by {
            assert(init[i] == parts[i]);
        }
        lemma_stack_plain(init);
        let p = parts.last();
        assert(lacks_char(parts[parts.len() - 1], '/'));
        let st = segment_stack(init);
        let r = segment_stack(parts);
        assert forall|i: int| 0 <= i < r.len() implies plain_segment(#[trigger] r[i]) by {
            if p.len() == 0 || p == seq!['.'] {
                assert(r == st);
            } else if p == seq!['.', '.'] {
                if st.len() > 0 {
                    assert(r == st.drop_last());
                    assert(r[i] == st[i]);
                } else {
                    assert(r == st);
                }
            } else {
                assert(r == st.push(p));
                if i < st.len() {
                    assert(r[i] == st[i]);
                } else {
                    assert(r[i] == p);
                }
            }
        }
    }
}

/// Appending characters other than the separator extends the last piece.
proof fn lemma_split_extend(w: Seq<char>, z: Seq<char>, sep: char)
    requires
        lacks_char(z, sep),
    ensures
        split_char(w + z, sep) == split_char(w, sep).update(
            split_char(w, sep).len() - 1,
            split_char(w, sep).last() + z,
        ),
    decreases z.len(),
{
    lemma_split_nonempty(w, sep);
    let sw = split_char(w, sep);
    if z.len() == 0 {
        assert(w + z =~= w);
        assert(sw.last() + z =~= sw.last());
        assert(sw.update(sw.len() - 1, sw.last()) =~= sw);
    } else {
        let zi = z.drop_last();
        assert(lacks_char(zi, sep));
        lemma_split_extend(w, zi, sep);
        assert((w + z).drop_last() =~= w + zi);
        assert((w + z).last() == z.last());
        assert(z.last() != sep) by {
            assert(z[z.len() - 1] != sep);
        }
        lemma_split_nonempty(w + zi, sep);
        let si = split_char(w + zi, sep);
        assert(si.last() == sw.last() + zi);
        assert(si.last().push(z.last()) =~= sw.last() + z);
        assert(si.update(si.len() - 1, si.last().push(z.last())) =~= sw.update(
            sw.len() - 1,
            sw.last() + z,
        ));
    }
}

/// Joining pieces free of the separator and splitting again gives the
/// pieces back.
proof fn lemma_split_join(parts: Seq<Seq<char>>, sep: char)
    requires
        parts.len() >= 1,
        forall|i: int| 0 <= i < parts.len() ==> lacks_char(#[trigger] parts[i], sep),
    ensures
        split_char(join(parts, seq![sep]), sep) == parts,
    decreases parts.len(),
{
    if parts.len() == 1 {
        lemma_split_no_sep(parts[0], sep);
        assert(seq![parts[0]] =~= parts);
    } else {
        let init = parts.drop_last();
        assert forall|i: int| 0 <= i < init.len() implies lacks_char(#[trigger] init[i], sep) by {
            assert(init[i] == parts[i]);
        }
        lemma_split_join(init, sep);
        let x = join(init, seq![sep]);
        let y = parts.last();
        assert(lacks_char(y, sep)) by {
            assert(parts[parts.len() - 1] == y);
        }
        assert(join(parts, seq![sep]) == x + seq![sep] + y);
        assert((x + seq![sep]).drop_last() =~= x);
        assert((x + seq![sep]).last() == sep);
        lemma_split_extend(x + seq![sep], y, sep);
        let sx = split_char(x + seq![sep], sep);
        assert(sx == init.push(Seq::<char>::empty()));
        assert(Seq::<char>::empty() + y =~= y);
        assert(sx.update(sx.len() - 1, sx.last() + y) =~= parts);
    }
}

proof fn lemma_stack_of_plain(st: Seq<Seq<char>>)
    requires
        forall|i: int| 0 <= i < st.len() ==> plain_segment(#[trigger] st[i]),
    ensures
        segment_stack(seq![Seq::<char>::empty()] + st) == st,
    decreases st.len(),
{
    let q = seq![Seq::<char>::empty()] + st;
    if st.len() == 0 {
        assert(q.drop_last() =~= Seq::<Seq<char>>::empty());
        assert(segment_stack(Seq::<Seq<char>>::empty()) == Seq::<Seq<char>>::empty());
        assert(q.last() == Seq::<char>::empty());
        assert(segment_stack(q) == segment_stack(q.drop_last()));
        assert(q =~= seq![Seq::<char>::empty()] + st);
    } else {
        let init = st.drop_last();
        assert forall|i: int| 0 <= i < init.len() implies plain_segment(#[trigger] init[i]) by {
            assert(init[i] == st[i]);
        }
        lemma_stack_of_plain(init);
        assert(q.drop_last() =~= seq![Seq::<char>::empty()] + init);
        assert(q.last() == st.last());
        assert(plain_segment(st[st.len() - 1]));
        let p = q.last();
        assert(p.len() > 0);
        assert(p != seq!['.']);
        assert(p != seq!['.', '.']);
        assert(segment_stack(q) == segment_stack(q.drop_last()).push(p));
        assert(init.push(st.last()) =~= st);
    }
}

/// Normalizing a normalized route changes nothing, and a normalized route
/// starts with a slash and has only plain segments (no empty, `.` or `..`
/// segment, so no trailing slash except for the root).
pub proof fn lemma_normalize_route_idempotent(path: Seq<char>)
    ensures
        normalize_route_spec(normalize_route_spec(path)) == normalize_route_spec(path),
        normalize_route_spec(path)[0] == '/',
        forall|i: int|
            0 <= i < segment_stack(split_char(path, '/')).len() ==> plain_segment(
                #[trigger] segment_stack(split_char(path, '/'))[i],
            ),
        normalize_route_spec(path) == seq!['/'] || {
            let rest = normalize_route_spec(path).drop_first();
            &&& normalize_route_spec(path).last() != '/'
            &&& forall|i: int|
                0 <= i < split_char(rest, '/').len() ==> plain_segment(
                    #[trigger] split_char(rest, '/')[i],
                )
        },
{
    let st = segment_stack(split_char(path, '/'));
    lemma_split_pieces_lack(path, '/');
    lemma_stack_plain(split_char(path, '/'));
    let n = normalize_route_spec(path);
    if st.len() > 0 {
        assert forall|i: int| 0 <= i < st.len() implies lacks_char(#[trigger] st[i], '/') by {
            assert(plain_segment(st[i]));
        }
        lemma_split_join(st, '/');
        assert(n.drop_first() =~= join(st, seq!['/']));
        lemma_join_last(st, seq!['/']);
        assert(plain_segment(st[st.len() - 1]));
        assert(n.last() == st.last().last());
    }
    if st.len() == 0 {
        assert(n == seq!['/']);
        let e = Seq::<char>::empty();
        assert(seq!['/'].drop_last() =~= e);
        assert(split_char(e, '/') == seq![e]);
        assert(split_char(seq!['/'], '/') == seq![e, e]);
        assert(seq![e, e].drop_last() =~= seq![e]);
        assert(seq![e].drop_last() =~= Seq::<Seq<char>>::empty());
        assert(segment_stack(Seq::<Seq<char>>::empty()) == Seq::<Seq<char>>::empty());
        assert(seq![e].last() == e);
        assert(segment_stack(seq![e]) == segment_stack(seq![e].drop_last()));
        assert(segment_stack(seq![e]) =~= Seq::<Seq<char>>::empty());
        assert(seq![e, e].last() == e);
        assert(segment_stack(seq![e, e]) == segment_stack(seq![e, e].drop_last()));
        assert(segment_stack(seq![e, e]) =~= Seq::<Seq<char>>::empty());
    } else {
        let parts = seq![Seq::<char>::empty()] + st;
        assert forall|i: int| 0 <= i < parts.len() implies lacks_char(#[trigger] parts[i], '/') by {
            if i > 0 {
                assert(parts[i] == st[i - 1]);
            }
        }
        lemma_split_join(parts, '/');
        assert(join(parts, seq!['/']) =~= seq!['/'] + join(st, seq!['/'])) by {
            lemma_join_prepend_empty(st, seq!['/']);
        }
        lemma_stack_of_plain(st);
    }
}

/// A join ends with the end of its last part, when that part is not empty.
proof fn lemma_join_last(st: Seq<Seq<char>>, sep: Seq<char>)
    requires
        st.len() >= 1,
        st.last().len() > 0,
    ensures
        join(st, sep).len() > 0,
        join(st, sep).last() == st.last().last(),
{
    if st.len() > 1 {
        let a = join(st.drop_last(), sep) + sep;
        assert(join(st, sep) == a + st.last());
        assert((a + st.last()).last() == st.last().last());
    } else {
        assert(join(st, sep) == st[0]);
    }
}

/// Joining with an empty first piece puts a separator in front.
proof fn lemma_join_prepend_empty(st: Seq<Seq<char>>, sep: Seq<char>)
    requires
        st.len() >= 1,
    ensures
        join(seq![Seq::<char>::empty()] + st, sep) == sep + join(st, sep),
    decreases st.len(),
{
    let q = seq![Seq::<char>::empty()] + st;
    if st.len() == 1 {
        assert(q.drop_last() =~= seq![Seq::<char>::empty()]);
        assert(join(seq![Seq::<char>::empty()], sep) == Seq::<char>::empty());
        assert(Seq::<char>::empty() + sep + st[0] =~= sep + st[0]);
    } else {
        lemma_join_prepend_empty(st.drop_last(), sep);
        assert(q.drop_last() =~= seq![Seq::<char>::empty()] + st.drop_last());
        assert(q.last() == st.last());
        assert(sep + join(st.drop_last(), sep) + sep + st.last() =~= sep + (join(
            st.drop_last(),
            sep,
        ) + sep + st.last()));
    }
}


// ---------------------------------------------------------------------------
// Internal link checking
// ---------------------------------------------------------------------------

/// The heading ids found on one page.
#[derive(Clone, Debug)]
pub struct RouteHeadings {
    pub route: String,
    pub ids: Vec<String>,
}

pub open spec fn string_views(s: Seq<String>) -> Seq<Seq<char>> {
    s.map_values(|x: String| x@)
}

/// The texts of a sequence with one more string end with its text.
pub proof fn lemma_string_views_push(s: Seq<String>, x: String)
    ensures
        string_views(s.push(x)) == string_views(s).push(x@),
{
    assert(string_views(s.push(x)) =~= string_views(s).push(x@));
}

/// One more element of a prefix is the prefix with that element pushed.
pub proof fn lemma_take_push<A>(s: Seq<A>, i: int)
    requires
        0 <= i < s.len(),
    ensures
        s.take(i + 1) == s.take(i).push(s[i]),
{
    assert(s.take(i + 1) =~= s.take(i).push(s[i]));
}

/// `k` is one of the routes in `known`.
pub open spec fn route_known(known: Seq<String>, k: Seq<char>) -> bool {
    exists|i: int| 0 <= i < known.len() && #[trigger] known[i]@ == k
}

/// `i` is the last entry of `v` recorded for `key` (later entries replace
/// earlier ones, as inserting into a map does).
pub open spec fn last_entry_for(v: Seq<RouteHeadings>, key: Seq<char>, i: int) -> bool {
    0 <= i < v.len() && v[i].route@ == key && forall|j: int|
        i < j < v.len() ==> (#[trigger] v[j]).route@ != key
}

/// The heading ids recorded for `key`, if any.
pub open spec fn ids_lookup(v: Seq<RouteHeadings>, key: Seq<char>) -> Option<Seq<Seq<char>>> {
    if exists|i: int| last_entry_for(v, key, i) {
        Some(string_views(v[choose|i: int| last_entry_for(v, key, i)].ids@))
    } else {
        None
    }
}

proof fn lemma_last_entry_unique(v: Seq<RouteHeadings>, key: Seq<char>, i: int, j: int)
    requires
        last_entry_for(v, key, i),
        last_entry_for(v, key, j),
    ensures
        i == j,
{
    if i < j {
        assert(v[j].route@ != key);
    } else if j < i {
        assert(v[i].route@ != key);
    }
}

/// The path part of an href (before the first `#`).
pub open spec fn href_path(href: Seq<char>) -> Seq<char> {
    match find_char_opt(href, '#') {
        Some(i) => href.subrange(0, i),
        None => href,
    }
}

/// The fragment of an href (after the first `#`), if it has one.
pub open spec fn href_fragment(href: Seq<char>) -> Option<Seq<char>> {
    match find_char_opt(href, '#') {
        Some(i) => Some(href.subrange(i + 1, href.len() as int)),
        None => None,
    }
}

/// The route an internal link points to, seen from `source`.
pub open spec fn resolve_target(source: Seq<char>, path: Seq<char>) -> Seq<char> {
    if path.len() > 0 && path[0] == '/' {
        normalize_route_spec(path)
    } else {
        normalize_route_spec(source + seq!['/'] + path)
    }
}

pub open spec fn without_trailing_slash(t: Seq<char>) -> Seq<char> {
    trim_end_by(t, char_pred('/'))
}

/// The target is a known route, with or without a trailing slash.
pub open spec fn route_exists(known: Seq<String>, target: Seq<char>) -> bool {
    let ws = without_trailing_slash(target);
    ||| route_known(known, target)
    ||| (ws.len() > 0 && ws != target && route_known(known, ws))
    ||| route_known(known, ws.push('/'))
}

/// The heading ids of the target page, trying the exact route, then
/// without and with a trailing slash.
pub open spec fn target_ids(ids: Seq<RouteHeadings>, target: Seq<char>) -> Option<Seq<Seq<char>>> {
    let ws = without_trailing_slash(target);
    match ids_lookup(ids, target) {
        Some(l) => Some(l),
        None => match ids_lookup(ids, ws) {
            Some(l) => Some(l),
            None => ids_lookup(ids, ws.push('/')),
        },
    }
}

/// Path endings of files that are served as they are.
pub open spec fn is_static_path(p: Seq<char>) -> bool {
    ||| ends_with(p, ".css"@)
    ||| ends_with(p, ".js"@)
    ||| ends_with(p, ".png"@)
    ||| ends_with(p, ".jpg"@)
    ||| ends_with(p, ".jpeg"@)
    ||| ends_with(p, ".gif"@)
    ||| ends_with(p, ".svg"@)
    ||| ends_with(p, ".ico"@)
    ||| ends_with(p, ".woff"@)
    ||| ends_with(p, ".woff2"@)
    ||| ends_with(p, ".ttf"@)
    ||| ends_with(p, ".eot"@)
    ||| ends_with(p, ".pdf"@)
    ||| ends_with(p, ".zip"@)
    ||| ends_with(p, ".tar"@)
    ||| ends_with(p, ".gz"@)
}

/// The file endings that mark a static file: `.css`, `.js`, `.png`,
/// `.jpg`, `.jpeg`, `.gif`, `.svg`, `.ico`, `.woff`, `.woff2`, `.ttf`,
/// `.eot`, `.pdf`, `.zip`, `.tar`, `.gz`, and no others.
pub proof fn lemma_static_endings(p: Seq<char>)
    ensures
        is_static_path(p) <==> (ends_with(p, ".css"@) ||
            ends_with(p, ".js"@) ||
            ends_with(p, ".png"@) ||
            ends_with(p, ".jpg"@) ||
            ends_with(p, ".jpeg"@) ||
            ends_with(p, ".gif"@) ||
            ends_with(p, ".svg"@) ||
            ends_with(p, ".ico"@) ||
            ends_with(p, ".woff"@) ||
            ends_with(p, ".woff2"@) ||
            ends_with(p, ".ttf"@) ||
            ends_with(p, ".eot"@) ||
            ends_with(p, ".pdf"@) ||
            ends_with(p, ".zip"@) ||
            ends_with(p, ".tar"@) ||
            ends_with(p, ".gz"@)),
{
}

/// A link without a fragment to a file with a static ending (a stylesheet,
/// script, image, font, PDF or archive) is never reported broken, whether
/// or not its target is a known route.
pub proof fn lemma_static_links_accepted(
    source: Seq<char>,
    href: Seq<char>,
    known: Seq<String>,
    ids: Seq<RouteHeadings>,
)
    requires
        lacks_char(href, '#'),
        (ends_with(href, ".css"@) ||
            ends_with(href, ".js"@) ||
            ends_with(href, ".png"@) ||
            ends_with(href, ".jpg"@) ||
            ends_with(href, ".jpeg"@) ||
            ends_with(href, ".gif"@) ||
            ends_with(href, ".svg"@) ||
            ends_with(href, ".ico"@) ||
            ends_with(href, ".woff"@) ||
            ends_with(href, ".woff2"@) ||
            ends_with(href, ".ttf"@) ||
            ends_with(href, ".eot"@) ||
            ends_with(href, ".pdf"@) ||
            ends_with(href, ".zip"@) ||
            ends_with(href, ".tar"@) ||
            ends_with(href, ".gz"@)),
    ensures
        internal_link_problem(source, href, known, ids) is None,
{
    reveal_strlit(".css");
    reveal_strlit(".js");
    reveal_strlit(".png");
    reveal_strlit(".jpg");
    reveal_strlit(".jpeg");
    reveal_strlit(".gif");
    reveal_strlit(".svg");
    reveal_strlit(".ico");
    reveal_strlit(".woff");
    reveal_strlit(".woff2");
    reveal_strlit(".ttf");
    reveal_strlit(".eot");
    reveal_strlit(".pdf");
    reveal_strlit(".zip");
    reveal_strlit(".tar");
    reveal_strlit(".gz");
    lemma_find_char_none(href, '#');
    assert(href_path(href) == href);
    assert(href.len() > 0);
}

pub open spec fn anchor_on_page_msg(f: Seq<char>) -> Seq<char> {
    "anchor '#"@ + f + "' not found on page"@
}

pub open spec fn anchor_on_target_msg(f: Seq<char>) -> Seq<char> {
    "anchor '#"@ + f + "' not found on target page"@
}

pub open spec fn target_missing_msg(t: Seq<char>) -> Seq<char> {
    "target '"@ + t + "' not found"@
}

/// Why an internal link from `source` is broken, or `None` if it is fine.
pub open spec fn internal_link_problem(
    source: Seq<char>,
    href: Seq<char>,
    known: Seq<String>,
    ids: Seq<RouteHeadings>,
) -> Option<Seq<char>> {
    let path = href_path(href);
    let frag = href_fragment(href);
    if path.len() == 0 {
        match frag {
            Some(f) => if f.len() > 0 {
                match ids_lookup(ids, source) {
                    Some(l) => if !l.contains(f) {
                        Some(anchor_on_page_msg(f))
                    } else {
                        None
                    },
                    None => None,
                }
            } else {
                None
            },
            None => None,
        }
    } else {
        let target = resolve_target(source, path);
        if !route_exists(known, target) {
            if is_static_path(path) {
                None
            } else {
                Some(target_missing_msg(target))
            }
        } else {
            match frag {
                Some(f) => if f.len() > 0 {
                    match target_ids(ids, target) {
                        Some(l) => if !l.contains(f) {
                            Some(anchor_on_target_msg(f))
                        } else {
                            None
                        },
                        None => None,
                    }
                } else {
                    None
                },
                None => None,
            }
        }
    }
}

/// Whether `k` is one of the routes in `known`.
pub fn route_known_exec(known: &Vec<String>, k: &[char]) -> (r: bool)
    ensures
        r == route_known(known@, k@),
{
    let mut i: usize = 0;
    while i < known.len()
        invariant
            i <= known.len(),
            forall|j: int| 0 <= j < i ==> known@[j]@ != k@,
        decreases known.len() - i,
    {
        let c = str_chars(known[i].as_str());
        if eq_chars(&c, k) {
            return true;
        }
        i += 1;
    }
    false
}

/// Index of the last entry recorded for `key`.
fn ids_lookup_exec(v: &Vec<RouteHeadings>, key: &[char]) -> (r: Option<usize>)
    ensures
        r matches Some(i) ==> i < v@.len() && ids_lookup(v@, key@) == Some(string_views(v@[i as int].ids@)),
        r is None ==> ids_lookup(v@, key@) is None,
{
    let mut k: usize = v.len();
    while k > 0
        invariant
            k <= v.len(),
            forall|j: int| k <= j < v@.len() ==> (#[trigger] v@[j]).route@ != key@,
        decreases k,
    {
        let c = str_chars(v[k - 1].route.as_str());
        if eq_chars(&c, key) {
            proof {
                let i = (k - 1) as int;
                assert(last_entry_for(v@, key@, i));
                let w = choose|w: int| last_entry_for(v@, key@, w);
                lemma_last_entry_unique(v@, key@, i, w);
            }
            return Some(k - 1);
        }
        k -= 1;
    }
    proof {
        assert forall|i: int| !last_entry_for(v@, key@, i) by {
            if 0 <= i < v@.len() {
                assert(v@[i].route@ != key@);
            }
        }
    }
    None
}

/// Whether `f` is one of `list`.
pub(crate) fn contains_string(list: &Vec<String>, f: &[char]) -> (r: bool)
    ensures
        r == string_views(list@).contains(f@),
{
    let mut i: usize = 0;
    while i < list.len()
        invariant
            i <= list.len(),
            forall|j: int| 0 <= j < i ==> list@[j]@ != f@,
        decreases list.len() - i,
    {
        let c = str_chars(list[i].as_str());
        if eq_chars(&c, f) {
            assert(string_views(list@)[i as int] == f@);
            return true;
        }
        i += 1;
    }
    proof {
        if string_views(list@).contains(f@) {
            let j = choose|j: int| 0 <= j < string_views(list@).len() && string_views(list@)[j] == f@;
            assert(list@[j]@ == f@);
        }
    }
    false
}

/// Check if a path looks like a static file.
pub fn is_likely_static_file(path: &[char]) -> (r: bool)
    ensures
        r == is_static_path(path@),
{
    ends_with_str(path, ".css") || ends_with_str(path, ".js") || ends_with_str(path, ".png")
        || ends_with_str(path, ".jpg") || ends_with_str(path, ".jpeg") || ends_with_str(
        path,
        ".gif",
    ) || ends_with_str(path, ".svg") || ends_with_str(path, ".ico") || ends_with_str(
        path,
        ".woff",
    ) || ends_with_str(path, ".woff2") || ends_with_str(path, ".ttf") || ends_with_str(
        path,
        ".eot",
    ) || ends_with_str(path, ".pdf") || ends_with_str(path, ".zip") || ends_with_str(
        path,
        ".tar",
    ) || ends_with_str(path, ".gz")
}

/// The message for a fragment missing on the page itself.
fn anchor_message(f: &[char], on_target: bool) -> (r: String)
    ensures
        on_target ==> r@ == anchor_on_target_msg(f@),
        !on_target ==> r@ == anchor_on_page_msg(f@),
{
    let mut v: Vec<char> = Vec::new();
    append_str(&mut v, "anchor '#");
    append_chars(&mut v, f);
    if on_target {
        append_str(&mut v, "' not found on target page");
    } else {
        append_str(&mut v, "' not found on page");
    }
    assert(v@ =~= if on_target { anchor_on_target_msg(f@) } else { anchor_on_page_msg(f@) });
    chars_to_string(&v)
}

/// Look up the heading ids of the target page.
fn target_ids_exec(ids: &Vec<RouteHeadings>, target: &[char]) -> (r: Option<usize>)
    ensures
        r matches Some(i) ==> i < ids@.len() && target_ids(ids@, target@) == Some(string_views(ids@[i as int].ids@)),
        r is None ==> target_ids(ids@, target@) is None,
{
    let ws = trim_end_matches_chars(target, '/');
    let mut ws_slash = slice_chars(&ws, 0, ws.len());
    ws_slash.push('/');
    proof {
        assert(ws@.subrange(0, ws@.len() as int) =~= ws@);
    }
    match ids_lookup_exec(ids, target) {
        Some(i) => Some(i),
        None => match ids_lookup_exec(ids, &ws) {
            Some(i) => Some(i),
            None => ids_lookup_exec(ids, &ws_slash),
        },
    }
}

/// Check if an internal link is valid.
/// Returns `None` if valid, `Some(reason)` if broken.
pub fn check_internal_link(
    source_route: &Route,
    href: &str,
    known_routes: &Vec<String>,
    heading_ids: &Vec<RouteHeadings>,
) -> (r: Option<String>)
    ensures
        match r {
            Some(m) => internal_link_problem(source_route@, href@, known_routes@, heading_ids@)
                == Some(m@),
            None => internal_link_problem(source_route@, href@, known_routes@, heading_ids@)
                is None,
        },
{
    let h = str_chars(href);
    let source = str_chars(source_route.as_str());
    let (path, fragment): (Vec<char>, Option<Vec<char>>) = match find_char(&h, '#') {
        Some(idx) => {
            proof {
                lemma_find_char_some(h@, '#', idx as int);
            }
            (slice_chars(&h, 0, idx), Some(slice_chars(&h, idx + 1, h.len())))
        },
        None => {
            proof {
                lemma_find_char_none(h@, '#');
            }
            (slice_chars(&h, 0, h.len()), None)
        },
    };
    assert(h@.subrange(0, h@.len() as int) =~= h@);
    assert(path@ == href_path(href@));
    assert(match fragment {
        Some(f) => href_fragment(href@) == Some(f@),
        None => href_fragment(href@) is None,
    });
    if path.len() == 0 {
        if let Some(frag) = &fragment {
            if frag.len() > 0 {
                if let Some(i) = ids_lookup_exec(heading_ids, &source) {
                    if !contains_string(&heading_ids[i].ids, frag) {
                        return Some(anchor_message(frag, false));
                    }
                }
            }
        }
        return None;
    }
    let target: Vec<char> = if path[0] == '/' {
        normalize_route_chars(&path)
    } else {
        let mut joined = slice_chars(&source, 0, source.len());
        assert(source@.subrange(0, source@.len() as int) =~= source@);
        joined.push('/');
        append_chars(&mut joined, &path);
        assert(joined@ =~= source@ + seq!['/'] + path@);
        normalize_route_chars(&joined)
    };
    assert(target@ == resolve_target(source_route@, path@));
    let ws = trim_end_matches_chars(&target, '/');
    let mut ws_slash = slice_chars(&ws, 0, ws.len());
    assert(ws@.subrange(0, ws@.len() as int) =~= ws@);
    ws_slash.push('/');
    let exists = route_known_exec(known_routes, &target) || (ws.len() > 0 && !eq_chars(
        &ws,
        &target,
    ) && route_known_exec(known_routes, &ws)) || route_known_exec(known_routes, &ws_slash);
    if !exists {
        if is_likely_static_file(&path) {
            return None;
        }
        let mut m: Vec<char> = Vec::new();
        append_str(&mut m, "target '");
        append_chars(&mut m, &target);
        append_str(&mut m, "' not found");
        assert(m@ =~= target_missing_msg(target@));
        return Some(chars_to_string(&m));
    }
    if let Some(frag) = &fragment {
        if frag.len() > 0 {
            if let Some(i) = target_ids_exec(heading_ids, &target) {
                if !contains_string(&heading_ids[i].ids, frag) {
                    return Some(anchor_message(frag, true));
                }
            }
        }
    }
    None
}


// ---------------------------------------------------------------------------
// Link extraction
// ---------------------------------------------------------------------------

/// Pattern for `href` attributes of anchor tags; group 1 is the href.
pub const HREF_PATTERN: &'static str = "<a\\s[^>]*href=[\"']([^\"']+)[\"']";

/// Pattern for `id` attributes of heading tags; group 1 is the id.
pub const HEADING_ID_PATTERN: &'static str = "<h[1-6][^>]*\\sid=[\"']([^\"']+)[\"']";

/// What `regex::Regex::new(pattern)` followed by `captures_iter(text)`
/// yields: `None` when the pattern does not compile, otherwise the text of
/// capture group 1 of each successive match (`None` where the group did not
/// take part in the match).
pub uninterp spec fn regex_group1_matches(pattern: Seq<char>, text: Seq<char>) -> Option<
    Seq<Option<Seq<char>>>,
>;

pub open spec fn opt_string_views(v: Seq<Option<String>>) -> Seq<Option<Seq<char>>> {
    v.map_values(
        |o: Option<String>|
            match o {
                Some(s) => Some(s@),
                None => None,
            },
    )
}

/// `regex::Regex::new` and `Regex::captures_iter`, keeping capture group 1
/// of each match. The result is named by `regex_group1_matches`.
#[verifier::external_body]
fn regex_group1(pattern: &str, text: &str) -> (r: Option<Vec<Option<String>>>)
    ensures
        match r {
            Some(v) => regex_group1_matches(pattern@, text@) == Some(opt_string_views(v@)),
            None => regex_group1_matches(pattern@, text@) is None,
        },
{
    match regex::Regex::new(pattern) {
        Ok(re) => Some(
            re.captures_iter(text).map(|c| c.get(1).map(|m| m.as_str().to_string())).collect(),
        ),
        Err(_) => None,
    }
}

/// The texts of the groups that took part, in order.
pub open spec fn present(s: Seq<Option<Seq<char>>>) -> Seq<Seq<char>>
    decreases s.len(),
{
    if s.len() == 0 {
        Seq::empty()
    } else {
        let p = present(s.drop_last());
        match s.last() {
            Some(x) => p.push(x),
            None => p,
        }
    }
}

/// The group-1 texts of all matches of `pattern` in `text` (none if the
/// pattern does not compile).
pub open spec fn captured(pattern: Seq<char>, text: Seq<char>) -> Seq<Seq<char>> {
    match regex_group1_matches(pattern, text) {
        Some(s) => present(s),
        None => Seq::empty(),
    }
}

fn present_strings(v: Vec<Option<String>>) -> (r: Vec<String>)
    ensures
        string_views(r@) == present(opt_string_views(v@)),
{
    let mut out: Vec<String> = Vec::new();
    let mut i: usize = 0;
    while i < v.len()
        invariant
            i <= v.len(),
            string_views(out@) == present(opt_string_views(v@).take(i as int)),
        decreases v.len() - i,
    {
        proof {
            assert(opt_string_views(v@).take(i + 1).drop_last() =~= opt_string_views(v@).take(
                i as int,
            ));
        }
        match &v[i] {
            Some(x) => {
                out.push(x.clone());
                assert(string_views(out@) =~= present(opt_string_views(v@).take(i as int)).push(
                    x@,
                ));
            },
            None => {},
        }
        i += 1;
    }
    assert(opt_string_views(v@).take(v.len() as int) =~= opt_string_views(v@));
    out
}

/// The group-1 texts of all matches of `pattern` in `text`.
fn capture_all(pattern: &str, text: &str) -> (r: Vec<String>)
    ensures
        string_views(r@) == captured(pattern@, text@),
{
    match regex_group1(pattern, text) {
        Some(v) => present_strings(v),
        None => {
            let e: Vec<String> = Vec::new();
            assert(string_views(e@) =~= Seq::<Seq<char>>::empty());
            e
        },
    }
}

/// A page with its route and HTML content.
pub struct Page<'a> {
    pub route: &'a Route,
    pub html: &'a str,
}

/// The anchors and heading ids found in one page.
pub struct ScannedPage {
    pub route: Route,
    pub hrefs: Vec<String>,
    pub heading_ids: Vec<String>,
}

/// Scan one page for hrefs and heading ids.
pub fn scan_page(page: &Page) -> (r: ScannedPage)
    ensures
        r.route@ == page.route@,
        string_views(r.hrefs@) == captured(HREF_PATTERN@, page.html@),
        string_views(r.heading_ids@) == captured(HEADING_ID_PATTERN@, page.html@),
{
    ScannedPage {
        route: page.route.duplicate(),
        hrefs: capture_all(HREF_PATTERN, page.html),
        heading_ids: capture_all(HEADING_ID_PATTERN, page.html),
    }
}

/// An extracted link with its source.
#[derive(Clone, Debug)]
pub struct ExtractedLink {
    pub source_route: Route,
    pub href: String,
}

pub open spec fn link_view(l: ExtractedLink) -> (Seq<char>, Seq<char>) {
    (l.source_route@, l.href@)
}

pub open spec fn link_views(s: Seq<ExtractedLink>) -> Seq<(Seq<char>, Seq<char>)> {
    s.map_values(|l: ExtractedLink| link_view(l))
}

/// Extracted links from all pages.
pub struct ExtractedLinks {
    pub total: usize,
    pub internal: Vec<ExtractedLink>,
    pub external: Vec<ExtractedLink>,
    /// Every page route (a set: membership is what counts)
    pub known_routes: Vec<String>,
    /// Heading ids per route (for fragment validation); a later entry for
    /// a route replaces an earlier one
    pub heading_ids: Vec<RouteHeadings>,
}

/// How a link is handled.
pub enum LinkKind {
    External,
    Internal,
    Skipped,
}

/// `http(s)` links are external, same-page anchors and relative or absolute
/// paths are internal, `mailto:`, `tel:` and `javascript:` links are skipped.
pub open spec fn link_kind(href: Seq<char>) -> LinkKind {
    if starts_with(href, "http://"@) || starts_with(href, "https://"@) {
        LinkKind::External
    } else if starts_with(href, seq!['#']) {
        LinkKind::Internal
    } else if starts_with(href, "mailto:"@) || starts_with(href, "tel:"@) || starts_with(
        href,
        "javascript:"@,
    ) {
        LinkKind::Skipped
    } else {
        LinkKind::Internal
    }
}

/// Abstract value of a scanned page: route, hrefs, heading ids.
pub open spec fn scan_view(s: ScannedPage) -> (Seq<char>, Seq<Seq<char>>, Seq<Seq<char>>) {
    (s.route@, string_views(s.hrefs@), string_views(s.heading_ids@))
}

pub open spec fn scan_views(s: Seq<ScannedPage>) -> Seq<(Seq<char>, Seq<Seq<char>>, Seq<Seq<char>>)> {
    s.map_values(|x: ScannedPage| scan_view(x))
}

/// All (source route, href) pairs of the scanned pages, in page order.
pub open spec fn all_links(scans: Seq<(Seq<char>, Seq<Seq<char>>, Seq<Seq<char>>)>) -> Seq<
    (Seq<char>, Seq<char>),
>
    decreases scans.len(),
{
    if scans.len() == 0 {
        Seq::empty()
    } else {
        all_links(scans.drop_last()) + page_links(scans.last())
    }
}

pub open spec fn page_links(p: (Seq<char>, Seq<Seq<char>>, Seq<Seq<char>>)) -> Seq<
    (Seq<char>, Seq<char>),
> {
    p.1.map_values(|h: Seq<char>| (p.0, h))
}

/// The pairs of `links` whose href is of kind `external` (or internal).
pub open spec fn links_where(links: Seq<(Seq<char>, Seq<char>)>, external: bool) -> Seq<
    (Seq<char>, Seq<char>),
>
    decreases links.len(),
{
    if links.len() == 0 {
        Seq::empty()
    } else {
        let rest = links_where(links.drop_last(), external);
        let l = links.last();
        let keep = if external {
            link_kind(l.1) is External
        } else {
            link_kind(l.1) is Internal
        };
        if keep {
            rest.push(l)
        } else {
            rest
        }
    }
}

/// Number of links of `links` that are skipped (`mailto:`, `tel:`,
/// `javascript:`).
pub open spec fn skipped_count(links: Seq<(Seq<char>, Seq<char>)>) -> nat
    decreases links.len(),
{
    if links.len() == 0 {
        0
    } else {
        skipped_count(links.drop_last()) + if link_kind(links.last().1) is Skipped {
            1nat
        } else {
            0nat
        }
    }
}

/// Every link found is exactly one of internal, external or skipped: the
/// three counts add up to the total.
pub proof fn lemma_links_partition(links: Seq<(Seq<char>, Seq<char>)>)
    ensures
        links_where(links, true).len() + links_where(links, false).len() + skipped_count(links)
            == links.len(),
    decreases links.len(),
{
    if links.len() > 0 {
        lemma_links_partition(links.drop_last());
    }
}

pub open spec fn page_routes(scans: Seq<(Seq<char>, Seq<Seq<char>>, Seq<Seq<char>>)>) -> Seq<
    Seq<char>,
> {
    scans.map_values(|p: (Seq<char>, Seq<Seq<char>>, Seq<Seq<char>>)| p.0)
}

pub open spec fn heading_entry_view(h: RouteHeadings) -> (Seq<char>, Seq<Seq<char>>) {
    (h.route@, string_views(h.ids@))
}

pub open spec fn heading_entry_views(s: Seq<RouteHeadings>) -> Seq<(Seq<char>, Seq<Seq<char>>)> {
    s.map_values(|h: RouteHeadings| heading_entry_view(h))
}

pub open spec fn page_heading_entries(scans: Seq<(Seq<char>, Seq<Seq<char>>, Seq<Seq<char>>)>) -> Seq<
    (Seq<char>, Seq<Seq<char>>),
> {
    scans.map_values(|p: (Seq<char>, Seq<Seq<char>>, Seq<Seq<char>>)| (p.0, p.2))
}

/// `n`, or the largest `usize` if `n` is larger.
pub open spec fn capped(n: nat) -> nat {
    if n <= usize::MAX {
        n
    } else {
        usize::MAX as nat
    }
}

/// What extracting links from pages scanned as `scans` yields.
pub open spec fn extracted_matches(
    r: ExtractedLinks,
    scans: Seq<(Seq<char>, Seq<Seq<char>>, Seq<Seq<char>>)>,
) -> bool {
    &&& r.total == capped(all_links(scans).len())
    &&& link_views(r.internal@) == links_where(all_links(scans), false)
    &&& link_views(r.external@) == links_where(all_links(scans), true)
    &&& string_views(r.known_routes@) == page_routes(scans)
    &&& heading_entry_views(r.heading_ids@) == page_heading_entries(scans)
}

fn classify(href: &[char]) -> (r: u8)
    ensures
        r == 0 <==> link_kind(href@) is External,
        r == 1 <==> link_kind(href@) is Internal,
        r == 2 <==> link_kind(href@) is Skipped,
{
    if starts_with_str(href, "http://") || starts_with_str(href, "https://") {
        0
    } else if href.len() > 0 && href[0] == '#' {
        assert(starts_with(href@, seq!['#'])) by {
            assert(href@.subrange(0, 1) =~= seq!['#']);
        }
        1
    } else if starts_with_str(href, "mailto:") || starts_with_str(href, "tel:")
        || starts_with_str(href, "javascript:") {
        assert(!starts_with(href@, seq!['#'])) by {
            if starts_with(href@, seq!['#']) {
                assert(href@.subrange(0, 1)[0] == '#');
            }
        }
        2
    } else {
        1
    }
}

/// Classify the links of already scanned pages. (The link count stops at
/// the largest `usize`.)
pub fn extract_links_from_scans(scans: &Vec<ScannedPage>) -> (r: ExtractedLinks)
    ensures
        extracted_matches(r, scan_views(scans@)),
{
    let ghost sv = scan_views(scans@);
    let mut total: usize = 0;
    let mut internal: Vec<ExtractedLink> = Vec::new();
    let mut external: Vec<ExtractedLink> = Vec::new();
    let mut known_routes: Vec<String> = Vec::new();
    let mut heading_ids: Vec<RouteHeadings> = Vec::new();
    let mut i: usize = 0;
    while i < scans.len()
        invariant
            i <= scans.len(),
            sv == scan_views(scans@),
            total == capped(all_links(sv.take(i as int)).len()),
            link_views(internal@) == links_where(all_links(sv.take(i as int)), false),
            link_views(external@) == links_where(all_links(sv.take(i as int)), true),
            string_views(known_routes@) == page_routes(sv.take(i as int)),
            heading_entry_views(heading_ids@) == page_heading_entries(sv.take(i as int)),
        decreases scans.len() - i,
    {
        let page = &scans[i];
        let ghost before = all_links(sv.take(i as int));
        proof {
            lemma_take_push(sv, i as int);
            assert(sv.take(i + 1).drop_last() =~= sv.take(i as int));
            assert(sv[i as int] == scan_view(*page));
        }
        let r = page.route.as_str().to_owned();
        let ghost kr0 = known_routes@;
        known_routes.push(r);
        proof {
            lemma_string_views_push(kr0, r);
            assert(page_routes(sv.take(i + 1)) =~= page_routes(sv.take(i as int)).push(
                page.route@,
            ));
        }
        let mut ids: Vec<String> = Vec::new();
        let mut k: usize = 0;
        while k < page.heading_ids.len()
            invariant
                k <= page.heading_ids.len(),
                string_views(ids@) == string_views(page.heading_ids@.take(k as int)),
            decreases page.heading_ids.len() - k,
        {
            let ghost ids0 = ids@;
            let x = page.heading_ids[k].clone();
            ids.push(x);
            proof {
                lemma_take_push(page.heading_ids@, k as int);
                lemma_string_views_push(ids0, x);
                lemma_string_views_push(page.heading_ids@.take(k as int), page.heading_ids@[k as int]);
            }
            k += 1;
        }
        assert(page.heading_ids@.take(page.heading_ids.len() as int) =~= page.heading_ids@);
        let entry = RouteHeadings { route: page.route.as_str().to_owned(), ids };
        let ghost hi0 = heading_ids@;
        heading_ids.push(entry);
        proof {
            assert(heading_ids@ == hi0.push(entry));
            assert(heading_entry_views(heading_ids@) =~= heading_entry_views(hi0).push(
                heading_entry_view(entry),
            ));
            assert(page_heading_entries(sv.take(i + 1)) =~= page_heading_entries(
                sv.take(i as int),
            ).push((page.route@, string_views(page.heading_ids@))));
        }
        let ghost pl = page_links(sv[i as int]);
        let mut j: usize = 0;
        while j < page.hrefs.len()
            invariant
                j <= page.hrefs.len(),
                pl == page_links(scan_view(*page)),
                before + pl == all_links(sv.take(i + 1)),
                total == capped((before + pl.take(j as int)).len()),
                link_views(internal@) == links_where(before + pl.take(j as int), false),
                link_views(external@) == links_where(before + pl.take(j as int), true),
            decreases page.hrefs.len() - j,
        {
            let href = str_chars(page.hrefs[j].as_str());
            proof {
                assert((before + pl.take(j + 1)).drop_last() =~= before + pl.take(j as int));
                assert((before + pl.take(j + 1)).last() == pl[j as int]);
                assert(pl[j as int] == (page.route@, page.hrefs@[j as int]@));
            }
            if total < usize::MAX {
                total += 1;
            }
            let kind = classify(&href);
            if kind == 0 {
                external.push(
                    ExtractedLink { source_route: page.route.duplicate(), href: page.hrefs[j].clone() },
                );
                assert(link_views(external@) =~= links_where(before + pl.take(j as int), true).push(
                    pl[j as int],
                ));
            } else if kind == 1 {
                internal.push(
                    ExtractedLink { source_route: page.route.duplicate(), href: page.hrefs[j].clone() },
                );
                assert(link_views(internal@) =~= links_where(before + pl.take(j as int), false).push(
                    pl[j as int],
                ));
            }
            j += 1;
        }
        assert(pl.take(page.hrefs.len() as int) =~= pl);
        i += 1;
    }
    assert(sv.take(scans.len() as int) =~= sv);
    ExtractedLinks { total, internal, external, known_routes, heading_ids }
}

/// The scans of all pages, in order.
pub open spec fn scans_of(pages: Seq<Page>) -> Seq<(Seq<char>, Seq<Seq<char>>, Seq<Seq<char>>)> {
    pages.map_values(
        |p: Page|
            (p.route@, captured(HREF_PATTERN@, p.html@), captured(HEADING_ID_PATTERN@, p.html@)),
    )
}

/// Scan every page.
pub fn scan_pages(pages: &[Page]) -> (r: Vec<ScannedPage>)
    ensures
        scan_views(r@) == scans_of(pages@),
{
    let mut scans: Vec<ScannedPage> = Vec::new();
    let mut i: usize = 0;
    while i < pages.len()
        invariant
            i <= pages.len(),
            scan_views(scans@) == scans_of(pages@.take(i as int)),
        decreases pages.len() - i,
    {
        let s = scan_page(&pages[i]);
        let ghost sc0 = scans@;
        scans.push(s);
        proof {
            lemma_take_push(pages@, i as int);
            assert(scan_views(scans@) =~= scan_views(sc0).push(scan_view(s)));
            assert(scans_of(pages@.take(i + 1)) =~= scans_of(pages@.take(i as int)).push(
                (
                    pages@[i as int].route@,
                    captured(HREF_PATTERN@, pages@[i as int].html@),
                    captured(HEADING_ID_PATTERN@, pages@[i as int].html@),
                ),
            ));
        }
        i += 1;
    }
    assert(pages@.take(pages.len() as int) =~= pages@);
    scans
}

/// Extract all links from pages, categorized.
pub fn extract_links(pages: &[Page]) -> (r: ExtractedLinks)
    ensures
        extracted_matches(r, scans_of(pages@)),
{
    let scans = scan_pages(pages);
    extract_links_from_scans(&scans)
}

/// Abstract value of a broken internal link found for `l`, if any.
pub open spec fn internal_breaks(
    links: Seq<ExtractedLink>,
    known: Seq<String>,
    ids: Seq<RouteHeadings>,
) -> Seq<(Seq<char>, Seq<char>, Seq<char>, bool)>
    decreases links.len(),
{
    if links.len() == 0 {
        Seq::empty()
    } else {
        let rest = internal_breaks(links.drop_last(), known, ids);
        let l = links.last();
        match internal_link_problem(l.source_route@, l.href@, known, ids) {
            Some(reason) => rest.push((l.source_route@, l.href@, reason, false)),
            None => rest,
        }
    }
}

/// Check internal links only (fast, no network).
pub fn check_internal_links(extracted: &ExtractedLinks) -> (r: LinkCheckResult)
    ensures
        r.total_links == extracted.total,
        r.internal_links == extracted.internal@.len(),
        r.external_links == extracted.external@.len(),
        r.external_checked == 0,
        broken_views(r.broken_links@) == internal_breaks(
            extracted.internal@,
            extracted.known_routes@,
            extracted.heading_ids@,
        ),
{
    let mut broken: Vec<BrokenLink> = Vec::new();
    let mut i: usize = 0;
    while i < extracted.internal.len()
        invariant
            i <= extracted.internal.len(),
            broken_views(broken@) == internal_breaks(
                extracted.internal@.take(i as int),
                extracted.known_routes@,
                extracted.heading_ids@,
            ),
        decreases extracted.internal.len() - i,
    {
        let link = &extracted.internal[i];
        proof {
            assert(extracted.internal@.take(i + 1).drop_last() =~= extracted.internal@.take(
                i as int,
            ));
        }
        match check_internal_link(
            &link.source_route,
            link.href.as_str(),
            &extracted.known_routes,
            &extracted.heading_ids,
        ) {
            Some(reason) => {
                broken.push(
                    BrokenLink {
                        source_route: link.source_route.duplicate(),
                        href: link.href.clone(),
                        reason,
                        is_external: false,
                    },
                );
                assert(broken_views(broken@) =~= internal_breaks(
                    extracted.internal@.take(i as int),
                    extracted.known_routes@,
                    extracted.heading_ids@,
                ).push((link.source_route@, link.href@, reason@, false)));
            },
            None => {},
        }
        i += 1;
    }
    assert(extracted.internal@.take(extracted.internal.len() as int) =~= extracted.internal@);
    LinkCheckResult {
        total_links: extracted.total,
        internal_links: extracted.internal.len(),
        external_links: extracted.external.len(),
        external_checked: 0,
        broken_links: broken,
    }
}

/// Check all links (internal only).
pub fn check_links(pages: &[Page]) -> (r: LinkCheckResult)
    ensures
        exists|ex: ExtractedLinks|
            {
                &&& extracted_matches(ex, scans_of(pages@))
                &&& r.total_links == ex.total
                &&& r.internal_links == ex.internal@.len()
                &&& r.external_links == ex.external@.len()
                &&& r.external_checked == 0
                &&& broken_views(r.broken_links@) == internal_breaks(
                    ex.internal@,
                    ex.known_routes@,
                    ex.heading_ids@,
                )
            },
{
    let extracted = extract_links(pages);
    check_internal_links(&extracted)
}

} // verus!
