//! External link checking.
//!
//! The HTTP requests themselves are made by the link-check plugin. This
//! module decides everything around them: which URLs need a request (each
//! distinct URL once, and none whose result for the day is cached), what
//! options the plugin gets, how its answers are read, what is cached, and
//! which links are reported broken.

use vstd::prelude::*;
use crate::db::{ExternalLinkStatus, LinkStatusView};
use crate::links::{
    broken_views, contains_string, string_views, BrokenLink, ExtractedLink, ExtractedLinks,
};
use crate::text::{append_chars, chars_to_string, decimal_chars, decimal_digits, eq_chars, eq_str, str_chars};

verus! {

// ---------------------------------------------------------------------------
// Options
// ---------------------------------------------------------------------------

/// Default delay between requests to the same domain, in milliseconds.
pub const DEFAULT_RATE_LIMIT_MS: u64 = 1000;

/// Request timeout handed to the plugin, in seconds.
pub const CHECK_TIMEOUT_SECS: u64 = 10;

/// Options for external link checking.
#[derive(Clone, Debug)]
pub struct ExternalLinkOptions {
    /// Domains to skip checking (anti-bot policies, known flaky, ...); a set.
    pub skip_domains: Vec<String>,
    /// Minimum delay between requests to the same domain, in milliseconds.
    pub rate_limit_ms: u64,
}

/// The set of skipped domains.
pub open spec fn domain_set(o: ExternalLinkOptions) -> Set<Seq<char>> {
    string_views(o.skip_domains@).to_set()
}

impl Default for ExternalLinkOptions {
    fn default() -> (r: ExternalLinkOptions)
        ensures
            r.skip_domains@.len() == 0,
            r.rate_limit_ms == DEFAULT_RATE_LIMIT_MS,
    {
        ExternalLinkOptions { skip_domains: Vec::new(), rate_limit_ms: DEFAULT_RATE_LIMIT_MS }
    }
}

impl ExternalLinkOptions {
    /// No skipped domains, the default rate limit.
    pub fn new() -> (r: ExternalLinkOptions)
        ensures
            r.skip_domains@.len() == 0,
            r.rate_limit_ms == DEFAULT_RATE_LIMIT_MS,
    {
        ExternalLinkOptions { skip_domains: Vec::new(), rate_limit_ms: DEFAULT_RATE_LIMIT_MS }
    }

    /// Adds `domains` to the skipped domains.
    pub fn skip_domains(self, domains: Vec<String>) -> (r: ExternalLinkOptions)
        ensures
            domain_set(r) == domain_set(self).union(string_views(domains@).to_set()),
            string_views(self.skip_domains@).no_duplicates() ==> string_views(
                r.skip_domains@,
            ).no_duplicates(),
            r.rate_limit_ms == self.rate_limit_ms,
    {
        let mut out = self;
        let ghost start = string_views(out.skip_domains@);
        let mut i: usize = 0;
        while i < domains.len()
            invariant
                i <= domains.len(),
                string_views(out.skip_domains@).to_set() == start.to_set().union(
                    string_views(domains@.take(i as int)).to_set(),
                ),
                start.no_duplicates() ==> string_views(out.skip_domains@).no_duplicates(),
                out.rate_limit_ms == self.rate_limit_ms,
                start == string_views(self.skip_domains@),
            decreases domains.len() - i,
        {
            let d = str_chars(domains[i].as_str());
            let ghost before = string_views(out.skip_domains@);
            proof {
                assert(domains@.take(i + 1) =~= domains@.take(i as int).push(domains@[i as int]));
                assert(string_views(domains@.take(i + 1)) =~= string_views(
                    domains@.take(i as int),
                ).push(domains@[i as int]@));
            }
            if !contains_string(&out.skip_domains, &d) {
                out.skip_domains.push(domains[i].clone());
                proof {
                    assert(string_views(out.skip_domains@) =~= before.push(domains@[i as int]@));
                    before.lemma_push_to_set_commute(domains@[i as int]@);
                    if start.no_duplicates() {
                        assert forall|a: int, b: int|
                            0 <= a < b < string_views(out.skip_domains@).len() implies string_views(
                            out.skip_domains@,
                        )[a] != string_views(out.skip_domains@)[b] by {
                            if b == before.len() {
                                assert(before[a] == string_views(out.skip_domains@)[a]);
                            } else {
                                assert(before[a] == string_views(out.skip_domains@)[a]);
                                assert(before[b] == string_views(out.skip_domains@)[b]);
                            }
                        }
                    }
                }
            } else {
                proof {
                    assert(before.to_set().contains(domains@[i as int]@));
                    assert(before.to_set() =~= before.to_set().insert(domains@[i as int]@));
                }
            }
            proof {
                string_views(domains@.take(i as int)).lemma_push_to_set_commute(
                    domains@[i as int]@,
                );
            }
            i += 1;
        }
        proof {
            assert(domains@.take(domains@.len() as int) =~= domains@);
        }
        out
    }

    /// Sets the rate limit, in milliseconds.
    pub fn rate_limit_ms(self, ms: u64) -> (r: ExternalLinkOptions)
        ensures
            r.rate_limit_ms == ms,
            r.skip_domains@ == self.skip_domains@,
    {
        let mut out = self;
        out.rate_limit_ms = ms;
        out
    }
}

/// Options sent to the link-check plugin.
#[derive(Clone, Debug)]
pub struct CheckOptions {
    /// Domains to skip checking.
    pub skip_domains: Vec<String>,
    /// Minimum delay between requests to the same domain (milliseconds).
    pub rate_limit_ms: u64,
    /// Request timeout in seconds.
    pub timeout_secs: u64,
}

impl Default for CheckOptions {
    fn default() -> (r: CheckOptions)
        ensures
            r.skip_domains@.len() == 0,
            r.rate_limit_ms == DEFAULT_RATE_LIMIT_MS,
            r.timeout_secs == CHECK_TIMEOUT_SECS,
    {
        CheckOptions {
            skip_domains: Vec::new(),
            rate_limit_ms: DEFAULT_RATE_LIMIT_MS,
            timeout_secs: CHECK_TIMEOUT_SECS,
        }
    }
}

/// The plugin options for a check with `options`.
pub fn plugin_check_options(options: &ExternalLinkOptions) -> (r: CheckOptions)
    ensures
        string_views(r.skip_domains@) == string_views(options.skip_domains@),
        r.rate_limit_ms == options.rate_limit_ms,
        r.timeout_secs == CHECK_TIMEOUT_SECS,
{
    let mut domains: Vec<String> = Vec::new();
    let mut i: usize = 0;
    while i < options.skip_domains.len()
        invariant
            i <= options.skip_domains.len(),
            string_views(domains@) == string_views(options.skip_domains@.take(i as int)),
        decreases options.skip_domains.len() - i,
    {
        let ghost before = domains@;
        domains.push(options.skip_domains[i].clone());
        proof {
            assert(options.skip_domains@.take(i + 1) =~= options.skip_domains@.take(i as int).push(
                options.skip_domains@[i as int],
            ));
            assert(domains@ =~= before.push(options.skip_domains@[i as int]));
            assert(string_views(domains@) =~= string_views(before).push(
                options.skip_domains@[i as int]@,
            ));
            assert(string_views(domains@) =~= string_views(
                options.skip_domains@.take(i + 1),
            ));
        }
        i += 1;
    }
    proof {
        assert(options.skip_domains@.take(options.skip_domains@.len() as int)
            =~= options.skip_domains@);
    }
    CheckOptions {
        skip_domains: domains,
        rate_limit_ms: options.rate_limit_ms,
        timeout_secs: CHECK_TIMEOUT_SECS,
    }
}

// ---------------------------------------------------------------------------
// Plugin replies
// ---------------------------------------------------------------------------

/// Status of one URL as the plugin reports it.
#[derive(Clone, Debug)]
pub struct LinkStatus {
    /// "ok", "error", "failed", or "skipped"
    pub status: String,
    /// HTTP status code (for "error" status)
    pub code: Option<u16>,
    /// Error message (for "failed" status)
    pub message: Option<String>,
}

/// The plugin's reply to a check.
#[derive(Clone, Debug)]
pub struct CheckResult {
    /// Status for each URL, in the order the URLs were sent.
    pub statuses: Vec<LinkStatus>,
    /// Number of URLs that were actually checked (not skipped).
    pub checked_count: u32,
}

/// What a plugin status means: `None` for a skipped URL (neither cached
/// nor reported), otherwise the link's status.
pub open spec fn link_status_meaning(s: LinkStatus) -> Option<LinkStatusView> {
    if s.status@ == "ok"@ {
        Some(LinkStatusView::Valid)
    } else if s.status@ == "error"@ {
        Some(
            LinkStatusView::Error(
                match s.code {
                    Some(c) => c,
                    None => 0,
                },
            ),
        )
    } else if s.status@ == "failed"@ {
        Some(
            LinkStatusView::Failed(
                match s.message {
                    Some(m) => m@,
                    None => "unknown error"@,
                },
            ),
        )
    } else if s.status@ == "skipped"@ {
        None
    } else {
        Some(LinkStatusView::Failed("unknown status: "@ + s.status@))
    }
}

/// Reads one plugin status.
pub fn status_from_plugin(s: &LinkStatus) -> (r: Option<ExternalLinkStatus>)
    ensures
        match r {
            Some(st) => link_status_meaning(*s) == Some(st@),
            None => link_status_meaning(*s) is None,
        },
{
    let st = str_chars(s.status.as_str());
    if eq_str(&st, "ok") {
        Some(ExternalLinkStatus::Valid)
    } else if eq_str(&st, "error") {
        let code: u16 = match s.code {
            Some(c) => c,
            None => 0,
        };
        Some(ExternalLinkStatus::Error(code))
    } else if eq_str(&st, "failed") {
        let msg = match &s.message {
            Some(m) => m.clone(),
            None => "unknown error".to_owned(),
        };
        Some(ExternalLinkStatus::Failed(msg))
    } else if eq_str(&st, "skipped") {
        None
    } else {
        let mut text = str_chars("unknown status: ");
        append_chars(&mut text, &st);
        Some(ExternalLinkStatus::Failed(chars_to_string(&text)))
    }
}

/// Why a link with status `st` is broken, if it is.
pub open spec fn broken_reason(st: LinkStatusView) -> Option<Seq<char>> {
    match st {
        LinkStatusView::Valid => None,
        LinkStatusView::Error(c) => Some("HTTP "@ + decimal_digits(c as nat)),
        LinkStatusView::Failed(m) => Some(m),
    }
}

/// The reason text for a broken status, `None` for a working link.
pub fn broken_reason_text(st: &ExternalLinkStatus) -> (r: Option<String>)
    ensures
        match r {
            Some(t) => broken_reason(st@) == Some(t@),
            None => broken_reason(st@) is None,
        },
{
    match st {
        ExternalLinkStatus::Valid => None,
        ExternalLinkStatus::Error(c) => {
            let mut text = str_chars("HTTP ");
            let digits = decimal_chars(*c as u64);
            append_chars(&mut text, &digits);
            Some(chars_to_string(&text))
        },
        ExternalLinkStatus::Failed(m) => Some(m.clone()),
    }
}

// ---------------------------------------------------------------------------
// The day cache
// ---------------------------------------------------------------------------

/// Map built from cache entries; a later entry for a key replaces an
/// earlier one.
pub open spec fn cache_map(s: Seq<(String, i32, ExternalLinkStatus)>) -> Map<
    (Seq<char>, i32),
    LinkStatusView,
>
    decreases s.len(),
{
    if s.len() == 0 {
        Map::empty()
    } else {
        let e = s.last();
        cache_map(s.drop_last()).insert((e.0@, e.1), e.2@)
    }
}

/// Check results keyed by URL and day (days counted from the common era),
/// so that a URL is requested at most once a day.
pub struct LinkCache {
    entries: Vec<(String, i32, ExternalLinkStatus)>,
}

impl View for LinkCache {
    type V = Map<(Seq<char>, i32), LinkStatusView>;

    closed spec fn view(&self) -> Map<(Seq<char>, i32), LinkStatusView> {
        cache_map(self.entries@)
    }
}

proof fn lemma_cache_map_absent(s: Seq<(String, i32, ExternalLinkStatus)>, k: (Seq<char>, i32))
    requires
        forall|j: int| 0 <= j < s.len() ==> (s[j].0@, s[j].1) != k,
    ensures
        !cache_map(s).contains_key(k),
    decreases s.len(),
{
    if s.len() > 0 {
        lemma_cache_map_absent(s.drop_last(), k);
    }
}

proof fn lemma_cache_map_last(
    s: Seq<(String, i32, ExternalLinkStatus)>,
    k: (Seq<char>, i32),
    i: int,
)
    requires
        0 <= i < s.len(),
        (s[i].0@, s[i].1) == k,
        forall|j: int| i < j < s.len() ==> (s[j].0@, s[j].1) != k,
    ensures
        cache_map(s).contains_key(k),
        cache_map(s)[k] == s[i].2@,
    decreases s.len(),
{
    if i < s.len() - 1 {
        lemma_cache_map_last(s.drop_last(), k, i);
    }
}

impl LinkCache {
    /// An empty cache.
    pub fn new() -> (r: LinkCache)
        ensures
            r@ == Map::<(Seq<char>, i32), LinkStatusView>::empty(),
    {
        LinkCache { entries: Vec::new() }
    }

    /// The cached status of `url` on `day`.
    pub fn get(&self, url: &str, day: i32) -> (r: Option<ExternalLinkStatus>)
        ensures
            match r {
                Some(st) => self@.contains_key((url@, day)) && self@[(url@, day)] == st@,
                None => !self@.contains_key((url@, day)),
            },
    {
        let u = str_chars(url);
        let mut i: usize = self.entries.len();
        while i > 0
            invariant
                i <= self.entries.len(),
                u@ == url@,
                forall|j: int|
                    i <= j < self.entries@.len() ==> (self.entries@[j].0@, self.entries@[j].1) != (
                    url@,
                    day,
                ),
            decreases i,
        {
            let e = &self.entries[i - 1];
            assert(*e == self.entries@[i - 1]);
            if e.1 == day {
                let k = str_chars(e.0.as_str());
                if eq_chars(&k, &u) {
                    assert(self.entries@[i - 1].0@ == url@);
                    proof {
                        lemma_cache_map_last(self.entries@, (url@, day), i - 1);
                    }
                    return Some(e.2.duplicate());
                }
            }
            i -= 1;
        }
        proof {
            lemma_cache_map_absent(self.entries@, (url@, day));
        }
        None
    }

    /// Records `status` for `url` on `day`, replacing any earlier record.
    pub fn insert(&mut self, url: String, day: i32, status: ExternalLinkStatus)
        ensures
            final(self)@ == old(self)@.insert((url@, day), status@),
    {
        self.entries.push((url, day, status));
        proof {
            assert(self.entries@.drop_last() =~= old(self).entries@);
        }
    }
}

/// A lookup after a write gives back what was written, and leaves the
/// other keys as they were.
pub proof fn lemma_cache_read_after_write(
    m: Map<(Seq<char>, i32), LinkStatusView>,
    url: Seq<char>,
    day: i32,
    st: LinkStatusView,
    other: (Seq<char>, i32),
)
    ensures
        m.insert((url, day), st).contains_key((url, day)),
        m.insert((url, day), st)[(url, day)] == st,
        other != (url, day) ==> (m.insert((url, day), st).contains_key(other) == m.contains_key(
            other,
        )),
        other != (url, day) && m.contains_key(other) ==> m.insert((url, day), st)[other]
            == m[other],
{
}

// ---------------------------------------------------------------------------
// Planning the requests
// ---------------------------------------------------------------------------

/// The distinct hrefs of `links`, each where it first occurs.
pub open spec fn unique_hrefs(links: Seq<ExtractedLink>) -> Seq<Seq<char>>
    decreases links.len(),
{
    if links.len() == 0 {
        Seq::empty()
    } else {
        let rest = unique_hrefs(links.drop_last());
        if rest.contains(links.last().href@) {
            rest
        } else {
            rest.push(links.last().href@)
        }
    }
}

/// The URLs of `urls` that have no cached result for `day`.
pub open spec fn uncached(
    urls: Seq<Seq<char>>,
    cache: Map<(Seq<char>, i32), LinkStatusView>,
    day: i32,
) -> Seq<Seq<char>>
    decreases urls.len(),
{
    if urls.len() == 0 {
        Seq::empty()
    } else {
        let rest = uncached(urls.drop_last(), cache, day);
        if cache.contains_key((urls.last(), day)) {
            rest
        } else {
            rest.push(urls.last())
        }
    }
}

/// The URLs of `urls` that have a cached result for `day`, with it.
pub open spec fn cached(
    urls: Seq<Seq<char>>,
    cache: Map<(Seq<char>, i32), LinkStatusView>,
    day: i32,
) -> Seq<(Seq<char>, LinkStatusView)>
    decreases urls.len(),
{
    if urls.len() == 0 {
        Seq::empty()
    } else {
        let rest = cached(urls.drop_last(), cache, day);
        if cache.contains_key((urls.last(), day)) {
            rest.push((urls.last(), cache[(urls.last(), day)]))
        } else {
            rest
        }
    }
}

pub open spec fn cached_views(s: Seq<(String, ExternalLinkStatus)>) -> Seq<
    (Seq<char>, LinkStatusView),
> {
    s.map_values(|e: (String, ExternalLinkStatus)| (e.0@, e.1@))
}

/// Which URLs need a request, and which have a result for the day already.
pub struct ExternalCheckPlan {
    /// URLs to send to the plugin, each once.
    pub to_check: Vec<String>,
    /// URLs with a cached result, with that result.
    pub cached: Vec<(String, ExternalLinkStatus)>,
}

/// The distinct external URLs of `links`, in order of first use.
fn distinct_hrefs(links: &Vec<ExtractedLink>) -> (r: Vec<String>)
    ensures
        string_views(r@) == unique_hrefs(links@),
{
    let mut out: Vec<String> = Vec::new();
    let mut i: usize = 0;
    while i < links.len()
        invariant
            i <= links.len(),
            string_views(out@) == unique_hrefs(links@.take(i as int)),
        decreases links.len() - i,
    {
        let h = str_chars(links[i].href.as_str());
        proof {
            assert(links@.take(i + 1).drop_last() =~= links@.take(i as int));
        }
        if !contains_string(&out, &h) {
            out.push(links[i].href.clone());
            proof {
                assert(string_views(out@) =~= unique_hrefs(links@.take(i as int)).push(
                    links@[i as int].href@,
                ));
            }
        }
        i += 1;
    }
    proof {
        assert(links@.take(links@.len() as int) =~= links@);
    }
    out
}

/// The first step of an external link check: without the link-check
/// plugin the check is skipped (`None`: no broken links, none checked, the
/// cache untouched); with it, the plan of [`plan_external_check`].
pub fn external_check_plan(
    plugin_loaded: bool,
    extracted: &ExtractedLinks,
    cache: &LinkCache,
    day: i32,
) -> (r: Option<ExternalCheckPlan>)
    ensures
        r is None <==> !plugin_loaded,
        r matches Some(p) ==> string_views(p.to_check@) == uncached(
            unique_hrefs(extracted.external@),
            cache@,
            day,
        ) && cached_views(p.cached@) == cached(unique_hrefs(extracted.external@), cache@, day),
{
    if !plugin_loaded {
        return None;
    }
    Some(plan_external_check(extracted, cache, day))
}

/// The result of an external link check that was skipped: no broken links,
/// none checked.
pub fn skipped_external_check() -> (r: (Vec<BrokenLink>, usize))
    ensures
        r.0@.len() == 0,
        r.1 == 0,
{
    (Vec::new(), 0)
}

/// Splits the distinct external URLs of `extracted` into those to request
/// and those whose result for `day` is cached.
pub fn plan_external_check(extracted: &ExtractedLinks, cache: &LinkCache, day: i32) -> (r:
    ExternalCheckPlan)
    ensures
        string_views(r.to_check@) == uncached(unique_hrefs(extracted.external@), cache@, day),
        cached_views(r.cached@) == cached(unique_hrefs(extracted.external@), cache@, day),
{
    let urls = distinct_hrefs(&extracted.external);
    let ghost u = string_views(urls@);
    let mut to_check: Vec<String> = Vec::new();
    let mut hits: Vec<(String, ExternalLinkStatus)> = Vec::new();
    let mut i: usize = 0;
    while i < urls.len()
        invariant
            i <= urls.len(),
            u == string_views(urls@),
            string_views(to_check@) == uncached(u.take(i as int), cache@, day),
            cached_views(hits@) == cached(u.take(i as int), cache@, day),
        decreases urls.len() - i,
    {
        proof {
            assert(u.take(i + 1).drop_last() =~= u.take(i as int));
            assert(u.take(i + 1).last() == urls@[i as int]@);
        }
        match cache.get(urls[i].as_str(), day) {
            Some(st) => {
                hits.push((urls[i].clone(), st));
                proof {
                    assert(cached_views(hits@) =~= cached(u.take(i as int), cache@, day).push(
                        (urls@[i as int]@, cache@[(urls@[i as int]@, day)]),
                    ));
                }
            },
            None => {
                to_check.push(urls[i].clone());
                proof {
                    assert(string_views(to_check@) =~= uncached(u.take(i as int), cache@, day).push(
                        urls@[i as int]@,
                    ));
                }
            },
        }
        i += 1;
    }
    proof {
        assert(u.take(u.len() as int) =~= u);
    }
    ExternalCheckPlan { to_check, cached: hits }
}

// ---------------------------------------------------------------------------
// Reading the results
// ---------------------------------------------------------------------------

/// The links of `links` to `url`, reported as broken for `reason`.
pub open spec fn url_reports(links: Seq<ExtractedLink>, url: Seq<char>, reason: Seq<char>) -> Seq<
    (Seq<char>, Seq<char>, Seq<char>, bool),
>
    decreases links.len(),
{
    if links.len() == 0 {
        Seq::empty()
    } else {
        let rest = url_reports(links.drop_last(), url, reason);
        let l = links.last();
        if l.href@ == url {
            rest.push((l.source_route@, l.href@, reason, true))
        } else {
            rest
        }
    }
}

/// What is reported for a list of (URL, status) results: every link to a
/// URL whose status is a broken one, with the reason.
pub open spec fn reports(
    links: Seq<ExtractedLink>,
    results: Seq<(Seq<char>, Option<LinkStatusView>)>,
) -> Seq<(Seq<char>, Seq<char>, Seq<char>, bool)>
    decreases results.len(),
{
    if results.len() == 0 {
        Seq::empty()
    } else {
        let rest = reports(links, results.drop_last());
        let (url, st) = results.last();
        match st {
            Some(s) => match broken_reason(s) {
                Some(reason) => rest + url_reports(links, url, reason),
                None => rest,
            },
            None => rest,
        }
    }
}

/// The plugin's results paired with the URLs they answer (in order; a URL
/// without an answer, or an answer without a URL, is dropped).
pub open spec fn fresh_results(to_check: Seq<Seq<char>>, reply: Option<CheckResult>) -> Seq<
    (Seq<char>, Option<LinkStatusView>),
> {
    match reply {
        Some(res) => if to_check.len() == 0 {
            Seq::empty()
        } else {
            let n = if to_check.len() <= res.statuses@.len() {
                to_check.len() as int
            } else {
                res.statuses@.len() as int
            };
            Seq::new(n as nat, |i: int| (to_check[i], link_status_meaning(res.statuses@[i])))
        },
        None => Seq::empty(),
    }
}

/// The cache after recording every result that is not a skip.
pub open spec fn cache_after(
    cache: Map<(Seq<char>, i32), LinkStatusView>,
    results: Seq<(Seq<char>, Option<LinkStatusView>)>,
    day: i32,
) -> Map<(Seq<char>, i32), LinkStatusView>
    decreases results.len(),
{
    if results.len() == 0 {
        cache
    } else {
        let rest = cache_after(cache, results.drop_last(), day);
        let (url, st) = results.last();
        match st {
            Some(s) => rest.insert((url, day), s),
            None => rest,
        }
    }
}

/// Every URL that got an answer other than a skip is in the cache for
/// the day afterwards, so it is not requested again that day.
pub proof fn lemma_answered_urls_cached(
    cache: Map<(Seq<char>, i32), LinkStatusView>,
    results: Seq<(Seq<char>, Option<LinkStatusView>)>,
    day: i32,
)
    ensures
        forall|i: int|
            0 <= i < results.len() && (#[trigger] results[i]).1 is Some ==> cache_after(
                cache,
                results,
                day,
            ).contains_key((results[i].0, day)),
    decreases results.len(),
{
    if results.len() > 0 {
        let init = results.drop_last();
        lemma_answered_urls_cached(cache, init, day);
        assert forall|i: int|
            0 <= i < results.len() && (#[trigger] results[i]).1 is Some implies cache_after(
            cache,
            results,
            day,
        ).contains_key((results[i].0, day)) by {
            if i < results.len() - 1 {
                assert(results[i] == init[i]);
            }
        }
    }
}

/// The cached results as (URL, status) results.
pub open spec fn as_results(c: Seq<(Seq<char>, LinkStatusView)>) -> Seq<
    (Seq<char>, Option<LinkStatusView>),
> {
    c.map_values(|e: (Seq<char>, LinkStatusView)| (e.0, Some(e.1)))
}

/// How many URLs count as checked: those the plugin checked (when it was
/// asked and answered) plus the cached ones.
pub open spec fn checked_total(plan_to_check: nat, reply: Option<CheckResult>, n_cached: nat) -> nat {
    let fresh: nat = if plan_to_check == 0 {
        0
    } else {
        match reply {
            Some(res) => res.checked_count as nat,
            None => 0,
        }
    };
    fresh + n_cached
}

/// Appends the links of `links` to `url` as broken for `reason`.
fn report_url(links: &Vec<ExtractedLink>, url: &[char], reason: &String, out: &mut Vec<BrokenLink>)
    ensures
        broken_views(final(out)@) == broken_views(old(out)@) + url_reports(
            links@,
            url@,
            reason@,
        ),
{
    let ghost start = broken_views(out@);
    let mut i: usize = 0;
    proof {
        assert(start + url_reports(links@.take(0), url@, reason@) =~= start);
    }
    while i < links.len()
        invariant
            i <= links.len(),
            broken_views(out@) == start + url_reports(links@.take(i as int), url@, reason@),
        decreases links.len() - i,
    {
        proof {
            assert(links@.take(i + 1).drop_last() =~= links@.take(i as int));
        }
        let h = str_chars(links[i].href.as_str());
        if eq_chars(&h, url) {
            let ghost before = broken_views(out@);
            out.push(
                BrokenLink {
                    source_route: links[i].source_route.duplicate(),
                    href: links[i].href.clone(),
                    reason: reason.clone(),
                    is_external: true,
                },
            );
            proof {
                assert(broken_views(out@) =~= before.push(broken_views(out@).last()));
                assert(url_reports(links@.take(i + 1), url@, reason@) =~= url_reports(
                    links@.take(i as int),
                    url@,
                    reason@,
                ).push(broken_views(out@).last()));
            }
        }
        i += 1;
    }
    proof {
        assert(links@.take(links@.len() as int) =~= links@);
    }
}

/// Finishes an external check: records and reports the plugin's answers
/// (`reply`, `None` when the plugin was not asked or did not answer), then
/// reports the cached results. Returns the broken links and the number of
/// URLs checked.
pub fn finish_external_check(
    extracted: &ExtractedLinks,
    plan: &ExternalCheckPlan,
    reply: Option<CheckResult>,
    cache: &mut LinkCache,
    day: i32,
) -> (r: (Vec<BrokenLink>, usize))
    ensures
        ({
            let fresh = fresh_results(string_views(plan.to_check@), reply);
            &&& broken_views(r.0@) == reports(extracted.external@, fresh) + reports(
                extracted.external@,
                as_results(cached_views(plan.cached@)),
            )
            &&& final(cache)@ == cache_after(old(cache)@, fresh, day)
            &&& r.1 as int == if checked_total(
                plan.to_check@.len(),
                reply,
                plan.cached@.len(),
            ) <= usize::MAX {
                checked_total(plan.to_check@.len(), reply, plan.cached@.len()) as int
            } else {
                usize::MAX as int
            }
        }),
{
    let ghost fresh = fresh_results(string_views(plan.to_check@), reply);
    let ghost c0 = cache@;
    let ghost links = extracted.external@;
    let mut broken: Vec<BrokenLink> = Vec::new();
    let mut fresh_checked: usize = 0;
    if plan.to_check.len() > 0 {
        match &reply {
            Some(res) => {
                let n = if plan.to_check.len() <= res.statuses.len() {
                    plan.to_check.len()
                } else {
                    res.statuses.len()
                };
                let mut i: usize = 0;
                while i < n
                    invariant
                        i <= n,
                        n <= plan.to_check.len(),
                        n <= res.statuses.len(),
                        reply == Some(*res),
                        plan.to_check@.len() > 0,
                        fresh == fresh_results(string_views(plan.to_check@), reply),
                        fresh.len() == n,
                        links == extracted.external@,
                        broken_views(broken@) == reports(links, fresh.take(i as int)),
                        cache@ == cache_after(c0, fresh.take(i as int), day),
                    decreases n - i,
                {
                    proof {
                        assert(fresh.take(i + 1).drop_last() =~= fresh.take(i as int));
                        assert(fresh.take(i + 1).last() == fresh[i as int]);
                        assert(fresh[i as int] == (
                            plan.to_check@[i as int]@,
                            link_status_meaning(res.statuses@[i as int]),
                        ));
                    }
                    let url = &plan.to_check[i];
                    match status_from_plugin(&res.statuses[i]) {
                        Some(st) => {
                            cache.insert(url.clone(), day, st.duplicate());
                            match broken_reason_text(&st) {
                                Some(reason) => {
                                    let u = str_chars(url.as_str());
                                    report_url(&extracted.external, &u, &reason, &mut broken);
                                },
                                None => {},
                            }
                        },
                        None => {},
                    }
                    i += 1;
                }
                proof {
                    assert(fresh.take(n as int) =~= fresh);
                }
                fresh_checked = res.checked_count as usize;
            },
            None => {
                proof {
                    assert(fresh.len() == 0);
                    assert(fresh.take(0) =~= fresh);
                }
            },
        }
    } else {
        proof {
            assert(fresh.len() == 0);
        }
    }
    let ghost after_fresh = broken_views(broken@);
    let ghost cres = as_results(cached_views(plan.cached@));
    let mut j: usize = 0;
    while j < plan.cached.len()
        invariant
            j <= plan.cached.len(),
            cres == as_results(cached_views(plan.cached@)),
            links == extracted.external@,
            broken_views(broken@) == after_fresh + reports(links, cres.take(j as int)),
        decreases plan.cached.len() - j,
    {
        proof {
            assert(cres.take(j + 1).drop_last() =~= cres.take(j as int));
            assert(cres.take(j + 1).last() == (plan.cached@[j as int].0@, Some(
                plan.cached@[j as int].1@,
            )));
        }
        let entry = &plan.cached[j];
        match broken_reason_text(&entry.1) {
            Some(reason) => {
                let u = str_chars(entry.0.as_str());
                let ghost before = broken_views(broken@);
                report_url(&extracted.external, &u, &reason, &mut broken);
                proof {
                    assert(broken_views(broken@) =~= after_fresh + reports(
                        links,
                        cres.take(j + 1),
                    ));
                }
            },
            None => {},
        }
        j += 1;
    }
    proof {
        assert(cres.take(plan.cached@.len() as int) =~= cres);
    }
    let count = fresh_checked.saturating_add(plan.cached.len());
    (broken, count)
}

} // verus!
