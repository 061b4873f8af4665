//! Project initialization (`ddc init`): the starter templates, how one is
//! chosen by name, the site name shown in the new project, and how it is
//! filled into the template files.

use vstd::prelude::*;
use crate::text::{
    append_chars, append_str, char_to_uppercase, chars_to_string, eq_chars, find_seq,
    first_occurrence, join, join_chars, slice_chars, split_char, split_chars, str_chars,
    upper_char_text, contains_seq, find_seq_index, find_seq_opt,
};

verus! {

/// A project template.
#[derive(Clone, Copy, Debug)]
pub struct Template {
    pub name: &'static str,
    pub description: &'static str,
}

/// The starter templates: (name, description).
pub open spec fn template_list() -> Seq<(Seq<char>, Seq<char>)> {
    seq![
        ("minimal"@, "Clean slate with basic structure"@),
        ("blog"@, "Blog with posts section"@),
    ]
}

pub open spec fn template_views(t: Seq<Template>) -> Seq<(Seq<char>, Seq<char>)> {
    t.map_values(|x: Template| (x.name@, x.description@))
}

/// The available templates.
pub fn available_templates() -> (r: Vec<Template>)
    ensures
        template_views(r@) == template_list(),
{
    let r = vec![
        Template { name: "minimal", description: "Clean slate with basic structure" },
        Template { name: "blog", description: "Blog with posts section" },
    ];
    assert(template_views(r@) =~= template_list());
    r
}

/// The error for an unknown template name.
pub open spec fn unknown_template_message(name: Seq<char>, templates: Seq<(Seq<char>, Seq<char>)>) -> Seq<
    char,
> {
    "Unknown template: '"@ + name + "'. Available templates: "@ + join(
        templates.map_values(|t: (Seq<char>, Seq<char>)| t.0),
        ", "@,
    )
}

/// Picks the first template named `name`, or the error listing the names.
pub fn select_template(templates: &Vec<Template>, name: &str) -> (r: Result<usize, String>)
    ensures
        match r {
            Ok(i) => i < templates@.len() && templates@[i as int].name@ == name@ && forall|j: int|
                0 <= j < i ==> templates@[j].name@ != name@,
            Err(e) => (forall|j: int| 0 <= j < templates@.len() ==> templates@[j].name@ != name@)
                && e@ == unknown_template_message(name@, template_views(templates@)),
        },
{
    let n = str_chars(name);
    let mut i: usize = 0;
    while i < templates.len()
        invariant
            i <= templates.len(),
            n@ == name@,
            forall|j: int| 0 <= j < i ==> templates@[j].name@ != name@,
        decreases templates.len() - i,
    {
        let t = str_chars(templates[i].name);
        if eq_chars(&t, &n) {
            return Ok(i);
        }
        i += 1;
    }
    let ghost names = template_views(templates@).map_values(|t: (Seq<char>, Seq<char>)| t.0);
    let mut parts: Vec<Vec<char>> = Vec::new();
    let mut k: usize = 0;
    while k < templates.len()
        invariant
            k <= templates.len(),
            names == template_views(templates@).map_values(|t: (Seq<char>, Seq<char>)| t.0),
            parts@.map_values(|p: Vec<char>| p@) == names.take(k as int),
        decreases templates.len() - k,
    {
        let ghost before = parts@;
        parts.push(str_chars(templates[k].name));
        proof {
            assert(names[k as int] == templates@[k as int].name@);
            assert(parts@.map_values(|p: Vec<char>| p@) =~= before.map_values(|p: Vec<char>| p@).push(
                names[k as int],
            ));
            assert(names.take(k + 1) =~= names.take(k as int).push(names[k as int]));
        }
        k += 1;
    }
    assert(names.take(names.len() as int) =~= names);
    let sep = str_chars(", ");
    let listing = join_chars(&parts, &sep);
    let mut text = str_chars("Unknown template: '");
    append_str(&mut text, name);
    append_str(&mut text, "'. Available templates: ");
    append_chars(&mut text, &listing);
    Err(chars_to_string(&text))
}

// ---------------------------------------------------------------------------
// Site names
// ---------------------------------------------------------------------------

/// A word with its first character upper-cased.
pub open spec fn capitalize(w: Seq<char>) -> Seq<char> {
    if w.len() == 0 {
        Seq::empty()
    } else {
        upper_char_text(w[0]) + w.drop_first()
    }
}

/// A kebab-case name in title case: `my-cool-site` is `My Cool Site`.
pub open spec fn humanized(name: Seq<char>) -> Seq<char> {
    join(split_char(name, '-').map_values(|w: Seq<char>| capitalize(w)), seq![' '])
}

/// Converts a kebab-case name to title case.
pub fn humanize_name(name: &str) -> (r: String)
    ensures
        r@ == humanized(name@),
{
    let chars = str_chars(name);
    let words = split_chars(&chars, '-');
    let ghost sp = split_char(name@, '-');
    let ghost want = sp.map_values(|w: Seq<char>| capitalize(w));
    let mut parts: Vec<Vec<char>> = Vec::new();
    let mut i: usize = 0;
    while i < words.len()
        invariant
            i <= words.len(),
            words@.len() == sp.len(),
            sp == split_char(name@, '-'),
            want == sp.map_values(|w: Seq<char>| capitalize(w)),
            forall|j: int| 0 <= j < words@.len() ==> #[trigger] words@[j]@ == sp[j],
            parts@.map_values(|p: Vec<char>| p@) == want.take(i as int),
        decreases words.len() - i,
    {
        let w = &words[i];
        let mut cap: Vec<char> = if w.len() == 0 {
            Vec::new()
        } else {
            let mut up = char_to_uppercase(w[0]);
            let rest = slice_chars(w, 1, w.len());
            append_chars(&mut up, &rest);
            up
        };
        proof {
            assert(w@ == sp[i as int]);
            if w@.len() > 0 {
                assert(w@.subrange(1, w@.len() as int) =~= w@.drop_first());
            }
            assert(cap@ =~= capitalize(sp[i as int]));
        }
        let ghost before = parts@;
        parts.push(cap);
        proof {
            assert(parts@.map_values(|p: Vec<char>| p@) =~= before.map_values(|p: Vec<char>| p@).push(
                want[i as int],
            ));
            assert(want.take(i + 1) =~= want.take(i as int).push(want[i as int]));
        }
        i += 1;
    }
    assert(want.take(want.len() as int) =~= want);
    let sep: Vec<char> = vec![' '];
    assert(sep@ =~= seq![' ']);
    let joined = join_chars(&parts, &sep);
    chars_to_string(&joined)
}

// ---------------------------------------------------------------------------
// Filling templates
// ---------------------------------------------------------------------------

/// `s` with every non-overlapping occurrence of `pat` (not empty), from the
/// left, replaced by `rep` (as `str::replace`).
pub open spec fn replace_all(s: Seq<char>, pat: Seq<char>, rep: Seq<char>) -> Seq<char>
    decreases s.len(),
{
    if pat.len() == 0 {
        s
    } else {
        match find_seq_opt(s, pat) {
            Some(i) => if 0 <= i && i + pat.len() <= s.len() {
                s.subrange(0, i) + rep + replace_all(s.subrange(i + pat.len(), s.len() as int), pat, rep)
            } else {
                s
            },
            None => s,
        }
    }
}

/// The placeholder for the site name in template files.
pub open spec fn site_name_placeholder() -> Seq<char> {
    "{{site_name}}"@
}

/// Replaces every occurrence of `pat` (not empty) in `s` by `rep`.
fn replace_chars(s: &[char], pat: &[char], rep: &[char]) -> (r: Vec<char>)
    requires
        pat@.len() > 0,
    ensures
        r@ == replace_all(s@, pat@, rep@),
{
    let mut out: Vec<char> = Vec::new();
    let mut rest = slice_chars(s, 0, s.len());
    assert(rest@ =~= s@);
    loop
        invariant
            pat@.len() > 0,
            out@ + replace_all(rest@, pat@, rep@) == replace_all(s@, pat@, rep@),
        decreases rest@.len(),
    {
        match find_seq_index(&rest, pat) {
            Some(i) => {
                proof {
                    let k = choose|k: int| first_occurrence(rest@, pat@, k);
                    assert(first_occurrence(rest@, pat@, k));
                    assert(i as int == k);
                }
                let n = rest.len();
                let head = slice_chars(&rest, 0, i);
                let tail = slice_chars(&rest, i + pat.len(), n);
                let ghost before = out@;
                append_chars(&mut out, &head);
                append_chars(&mut out, rep);
                proof {
                    assert(out@ + replace_all(tail@, pat@, rep@) =~= before + replace_all(
                        rest@,
                        pat@,
                        rep@,
                    ));
                }
                rest = tail;
            },
            None => {
                append_chars(&mut out, &rest);
                return out;
            },
        }
    }
}

/// Fills the site name into a template file's text.
pub fn fill_site_name(content: &str, site_name: &str) -> (r: String)
    ensures
        r@ == replace_all(content@, site_name_placeholder(), site_name@),
{
    let c = str_chars(content);
    let pat = str_chars("{{site_name}}");
    proof {
        reveal_strlit("{{site_name}}");
    }
    let rep = str_chars(site_name);
    let r = replace_chars(&c, &pat, &rep);
    chars_to_string(&r)
}

} // verus!
