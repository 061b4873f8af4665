//! The rule manifest: every requirement defined in the content, with the
//! URL where it is defined, for tooling that traces specifications.

use vstd::prelude::*;
use crate::db::ReqDefinition;
use crate::text::{append_str, chars_to_string, eq_chars, str_chars};
use crate::types::Route;

verus! {

/// A rule entry in the manifest, with its target URL.
#[derive(Clone, Debug)]
pub struct RuleEntry {
    /// The full URL path including anchor (such as
    /// `/spec/core/#r-channel.id.allocation`)
    pub url: String,
}

/// The rules manifest: rule ids and their URLs, in the order they were
/// first defined (each id once).
#[derive(Clone, Debug)]
pub struct RulesManifest {
    pub rules: Vec<(String, RuleEntry)>,
}

/// A rule id defined in more than one place.
#[derive(Clone, Debug)]
pub struct DuplicateRule {
    /// The rule id that was duplicated
    pub id: String,
    /// URL where the rule was first defined
    pub first_url: String,
    /// URL where the duplicate was found
    pub second_url: String,
}

/// The rules defined on one page or section.
#[derive(Clone, Debug)]
pub struct RuleSource {
    pub route: Route,
    pub rules: Vec<ReqDefinition>,
}

/// Abstract value of a manifest: (id, url) in order.
pub open spec fn manifest_view(m: Seq<(String, RuleEntry)>) -> Seq<(Seq<char>, Seq<char>)> {
    m.map_values(|e: (String, RuleEntry)| (e.0@, e.1.url@))
}

pub open spec fn duplicate_view(d: Seq<DuplicateRule>) -> Seq<(Seq<char>, Seq<char>, Seq<char>)> {
    d.map_values(|x: DuplicateRule| (x.id@, x.first_url@, x.second_url@))
}

/// The URL of a rule: the route, `#`, and the rule's anchor.
pub open spec fn rule_url(route: Seq<char>, anchor: Seq<char>) -> Seq<char> {
    route + seq!['#'] + anchor
}

/// Every (id, url) definition of the sources, in order.
pub open spec fn definitions(sources: Seq<RuleSource>) -> Seq<(Seq<char>, Seq<char>)>
    decreases sources.len(),
{
    if sources.len() == 0 {
        Seq::empty()
    } else {
        let s = sources.last();
        definitions(sources.drop_last()) + s.rules@.map_values(
            |r: ReqDefinition| (r.id@, rule_url(s.route@, r.anchor_id@)),
        )
    }
}

/// The URL first recorded for `id` in an ordered manifest, if any.
pub open spec fn url_of(m: Seq<(Seq<char>, Seq<char>)>, id: Seq<char>) -> Option<Seq<char>>
    decreases m.len(),
{
    if m.len() == 0 {
        None
    } else {
        match url_of(m.drop_last(), id) {
            Some(u) => Some(u),
            None => if m.last().0 == id {
                Some(m.last().1)
            } else {
                None
            },
        }
    }
}

/// The manifest and duplicates after the definitions `defs`, in order:
/// the first definition of an id is recorded, each later one is reported
/// as a duplicate of it.
pub open spec fn collect(defs: Seq<(Seq<char>, Seq<char>)>) -> (
    Seq<(Seq<char>, Seq<char>)>,
    Seq<(Seq<char>, Seq<char>, Seq<char>)>,
)
    decreases defs.len(),
{
    if defs.len() == 0 {
        (Seq::empty(), Seq::empty())
    } else {
        let (m, d) = collect(defs.drop_last());
        let (id, url) = defs.last();
        match url_of(m, id) {
            Some(first) => (m, d.push((id, first, url))),
            None => (m.push((id, url)), d),
        }
    }
}

/// The URL recorded for `id`, searching the manifest entries.
fn find_url(rules: &Vec<(String, RuleEntry)>, id: &[char]) -> (r: Option<String>)
    ensures
        match r {
            Some(u) => url_of(manifest_view(rules@), id@) == Some(u@),
            None => url_of(manifest_view(rules@), id@) is None,
        },
{
    let ghost mv = manifest_view(rules@);
    let mut i: usize = 0;
    while i < rules.len()
        invariant
            i <= rules.len(),
            mv == manifest_view(rules@),
            url_of(mv.take(i as int), id@) is None,
        decreases rules.len() - i,
    {
        proof {
            assert(mv.take(i + 1).drop_last() =~= mv.take(i as int));
        }
        let k = str_chars(rules[i].0.as_str());
        if eq_chars(&k, id) {
            proof {
                assert(mv[i as int] == (rules@[i as int].0@, rules@[i as int].1.url@));
                assert(mv.take(i + 1).last() == mv[i as int]);
                assert(url_of(mv.take(i + 1), id@) == Some(mv[i as int].1));
                lemma_url_of_prefix(mv, i + 1, mv.len() as int, id@);
                assert(mv.take(mv.len() as int) =~= mv);
            }
            return Some(rules[i].1.url.clone());
        }
        i += 1;
    }
    proof {
        assert(mv.take(mv.len() as int) =~= mv);
    }
    None
}

proof fn lemma_url_of_prefix(m: Seq<(Seq<char>, Seq<char>)>, n: int, k: int, id: Seq<char>)
    requires
        0 <= n <= k <= m.len(),
        url_of(m.take(n), id) is Some,
    ensures
        url_of(m.take(k), id) == url_of(m.take(n), id),
    decreases k - n,
{
    if k > n {
        lemma_url_of_prefix(m, n, k - 1, id);
        assert(m.take(k).drop_last() =~= m.take(k - 1));
    }
}

/// Collects all rules of the sources (in the order given: sections, then
/// pages, each in route order) into the manifest, with the ids defined
/// more than once.
pub fn collect_rules(sources: &Vec<RuleSource>) -> (r: (RulesManifest, Vec<DuplicateRule>))
    ensures
        (manifest_view(r.0.rules@), duplicate_view(r.1@)) == collect(definitions(sources@)),
{
    let mut rules: Vec<(String, RuleEntry)> = Vec::new();
    let mut duplicates: Vec<DuplicateRule> = Vec::new();
    let ghost all = definitions(sources@);
    let mut s: usize = 0;
    while s < sources.len()
        invariant
            s <= sources.len(),
            all == definitions(sources@),
            (manifest_view(rules@), duplicate_view(duplicates@)) == collect(
                definitions(sources@.take(s as int)),
            ),
        decreases sources.len() - s,
    {
        let src = &sources[s];
        let ghost base = definitions(sources@.take(s as int));
        let ghost these = src.rules@.map_values(
            |r: ReqDefinition| (r.id@, rule_url(src.route@, r.anchor_id@)),
        );
        proof {
            assert(sources@.take(s + 1).drop_last() =~= sources@.take(s as int));
            assert(definitions(sources@.take(s + 1)) == base + these);
        }
        let mut j: usize = 0;
        while j < src.rules.len()
            invariant
                j <= src.rules.len(),
                these == src.rules@.map_values(
                    |r: ReqDefinition| (r.id@, rule_url(src.route@, r.anchor_id@)),
                ),
                (manifest_view(rules@), duplicate_view(duplicates@)) == collect(
                    base + these.take(j as int),
                ),
            decreases src.rules.len() - j,
        {
            let rule = &src.rules[j];
            let mut url = str_chars(src.route.as_str());
            url.push('#');
            append_str(&mut url, rule.anchor_id.as_str());
            let id = str_chars(rule.id.as_str());
            proof {
                assert((base + these.take(j + 1)).drop_last() =~= base + these.take(j as int));
                assert((base + these.take(j + 1)).last() == (rule.id@, url@));
            }
            match find_url(&rules, &id) {
                Some(first) => {
                    let ghost before = duplicates@;
                    duplicates.push(
                        DuplicateRule {
                            id: rule.id.clone(),
                            first_url: first,
                            second_url: chars_to_string(&url),
                        },
                    );
                    proof {
                        assert(duplicate_view(duplicates@) =~= duplicate_view(before).push(
                            (rule.id@, first@, url@),
                        ));
                    }
                },
                None => {
                    let ghost before = rules@;
                    rules.push((rule.id.clone(), RuleEntry { url: chars_to_string(&url) }));
                    proof {
                        assert(manifest_view(rules@) =~= manifest_view(before).push(
                            (rule.id@, url@),
                        ));
                    }
                },
            }
            j += 1;
        }
        proof {
            assert(these.take(these.len() as int) =~= these);
        }
        s += 1;
    }
    proof {
        assert(sources@.take(sources@.len() as int) =~= sources@);
    }
    (RulesManifest { rules }, duplicates)
}

proof fn lemma_url_of_none(m: Seq<(Seq<char>, Seq<char>)>, id: Seq<char>)
    requires
        url_of(m, id) is None,
    ensures
        forall|i: int| 0 <= i < m.len() ==> m[i].0 != id,
    decreases m.len(),
{
    if m.len() > 0 {
        lemma_url_of_none(m.drop_last(), id);
        assert forall|i: int| 0 <= i < m.len() implies m[i].0 != id by {
            if i < m.len() - 1 {
                assert(m[i] == m.drop_last()[i]);
            }
        }
    }
}

/// Each rule id is recorded once in the manifest, whatever the
/// definitions: later definitions of an id only go to the duplicates.
pub proof fn lemma_manifest_ids_unique(defs: Seq<(Seq<char>, Seq<char>)>)
    ensures
        forall|i: int, j: int|
            0 <= i < j < collect(defs).0.len() ==> collect(defs).0[i].0 != collect(defs).0[j].0,
    decreases defs.len(),
{
    if defs.len() > 0 {
        lemma_manifest_ids_unique(defs.drop_last());
        let (m, d) = collect(defs.drop_last());
        let (id, url) = defs.last();
        if url_of(m, id) is None {
            lemma_url_of_none(m, id);
            let n = m.push((id, url));
            assert forall|i: int, j: int| 0 <= i < j < n.len() implies n[i].0 != n[j].0 by {
                if j == m.len() {
                    assert(n[i] == m[i]);
                } else {
                    assert(n[i] == m[i] && n[j] == m[j]);
                }
            }
        }
    }
}

/// The HTML page that redirects to a rule's definition.
pub open spec fn redirect_html(rule_id: Seq<char>, target_url: Seq<char>) -> Seq<char> {
    "<!DOCTYPE html>\n<html lang=\"en\">\n<head>\n<meta charset=\"utf-8\">\n<meta http-equiv=\"refresh\" content=\"0; url="@
        + target_url + "\">\n<link rel=\"canonical\" href=\""@ + target_url
        + "\">\n<title>Redirecting to "@ + rule_id + "</title>\n</head>\n<body>\nRedirecting to <a href=\""@
        + target_url + "\">"@ + rule_id + "</a>...\n</body>\n</html>\n"@
}

/// Generates an HTML redirect page for a rule (a meta refresh, for static
/// hosting without server-side redirects).
pub fn generate_redirect_html(rule_id: &str, target_url: &str) -> (r: String)
    ensures
        r@ == redirect_html(rule_id@, target_url@),
{
    let mut t = str_chars(
        "<!DOCTYPE html>\n<html lang=\"en\">\n<head>\n<meta charset=\"utf-8\">\n<meta http-equiv=\"refresh\" content=\"0; url=",
    );
    append_str(&mut t, target_url);
    append_str(&mut t, "\">\n<link rel=\"canonical\" href=\"");
    append_str(&mut t, target_url);
    append_str(&mut t, "\">\n<title>Redirecting to ");
    append_str(&mut t, rule_id);
    append_str(&mut t, "</title>\n</head>\n<body>\nRedirecting to <a href=\"");
    append_str(&mut t, target_url);
    append_str(&mut t, "\">");
    append_str(&mut t, rule_id);
    append_str(&mut t, "</a>...\n</body>\n</html>\n");
    chars_to_string(&t)
}

} // verus!
