//! Log filtering for the activity panel.
//!
//! Events are routed to the panel when they pass the current filter: a
//! simple level threshold, or a `RUST_LOG`-style expression with per-target
//! overrides. Events of the query engine (targets starting with `picante`)
//! pass only while its debug output is switched on. Each routed event is
//! classified by kind from its message.

use vstd::prelude::*;
use crate::text::{
    first_occurrence,
    append_chars, append_str, chars_to_string, contains_exec, contains_seq, find_char_index,
    find_char_opt, find_seq_index, find_seq_opt, parse_unsigned, parse_unsigned_chars,
    slice_chars, split_char, split_chars, starts_with, starts_with_str, str_chars, to_lowercase,
    trim, trim_chars, lower_text, vec_starts_with, eq_str, decimal_chars, decimal_digits,
};
use crate::tui::{EventKind, LogEvent, LogLevel};

verus! {

// ---------------------------------------------------------------------------
// Levels
// ---------------------------------------------------------------------------

/// Severity of a trace event.
#[derive(Clone, Copy, Debug, PartialEq, Eq, Structural)]
pub enum Level {
    Error,
    Warn,
    Info,
    Debug,
    Trace,
}

/// How verbose a level is: errors are the least verbose, traces the most.
pub open spec fn verbosity(l: Level) -> int {
    match l {
        Level::Error => 0,
        Level::Warn => 1,
        Level::Info => 2,
        Level::Debug => 3,
        Level::Trace => 4,
    }
}

/// Log level for filtering the activity panel.
#[derive(Clone, Copy, Debug, PartialEq, Eq, Structural)]
pub enum TuiLogLevel {
    /// Show nothing
    Off,
    /// Show only errors
    Error,
    /// Show warnings and errors
    Warn,
    /// Show info, warnings, and errors (default)
    Info,
    /// Show debug and above
    Debug,
    /// Show everything
    Trace,
}

/// The most verbose level shown at `t` (-1: none).
pub open spec fn threshold(t: TuiLogLevel) -> int {
    match t {
        TuiLogLevel::Off => -1,
        TuiLogLevel::Error => 0,
        TuiLogLevel::Warn => 1,
        TuiLogLevel::Info => 2,
        TuiLogLevel::Debug => 3,
        TuiLogLevel::Trace => 4,
    }
}

/// Events at `l` are shown at `t`.
pub open spec fn shows(t: TuiLogLevel, l: Level) -> bool {
    verbosity(l) <= threshold(t)
}

pub open spec fn next_level(t: TuiLogLevel) -> TuiLogLevel {
    match t {
        TuiLogLevel::Off => TuiLogLevel::Error,
        TuiLogLevel::Error => TuiLogLevel::Warn,
        TuiLogLevel::Warn => TuiLogLevel::Info,
        TuiLogLevel::Info => TuiLogLevel::Debug,
        TuiLogLevel::Debug => TuiLogLevel::Trace,
        TuiLogLevel::Trace => TuiLogLevel::Off,
    }
}

impl Default for TuiLogLevel {
    fn default() -> (r: TuiLogLevel)
        ensures
            r == TuiLogLevel::Info,
    {
        TuiLogLevel::Info
    }
}

impl TuiLogLevel {
    /// The next, more verbose level; after `Trace` comes `Off` again.
    pub fn next(self) -> (r: TuiLogLevel)
        ensures
            r == next_level(self),
    {
        match self {
            TuiLogLevel::Off => TuiLogLevel::Error,
            TuiLogLevel::Error => TuiLogLevel::Warn,
            TuiLogLevel::Warn => TuiLogLevel::Info,
            TuiLogLevel::Info => TuiLogLevel::Debug,
            TuiLogLevel::Debug => TuiLogLevel::Trace,
            TuiLogLevel::Trace => TuiLogLevel::Off,
        }
    }

    /// Short display name.
    pub fn as_str(&self) -> (r: &'static str)
        ensures
            r@ == match *self {
                TuiLogLevel::Off => "OFF"@,
                TuiLogLevel::Error => "ERROR"@,
                TuiLogLevel::Warn => "WARN"@,
                TuiLogLevel::Info => "INFO"@,
                TuiLogLevel::Debug => "DEBUG"@,
                TuiLogLevel::Trace => "TRACE"@,
            },
    {
        match self {
            TuiLogLevel::Off => "OFF",
            TuiLogLevel::Error => "ERROR",
            TuiLogLevel::Warn => "WARN",
            TuiLogLevel::Info => "INFO",
            TuiLogLevel::Debug => "DEBUG",
            TuiLogLevel::Trace => "TRACE",
        }
    }

    /// Whether events at `level` are shown at this setting.
    pub fn should_show(&self, level: Level) -> (r: bool)
        ensures
            r == shows(*self, level),
    {
        match self {
            TuiLogLevel::Off => false,
            TuiLogLevel::Error => match level {
                Level::Error => true,
                _ => false,
            },
            TuiLogLevel::Warn => match level {
                Level::Error | Level::Warn => true,
                _ => false,
            },
            TuiLogLevel::Info => match level {
                Level::Error | Level::Warn | Level::Info => true,
                _ => false,
            },
            TuiLogLevel::Debug => match level {
                Level::Trace => false,
                _ => true,
            },
            TuiLogLevel::Trace => true,
        }
    }
}

/// Cycling through the levels comes back after six steps.
pub proof fn lemma_next_cycle(t: TuiLogLevel)
    ensures
        next_level(next_level(next_level(next_level(next_level(next_level(t)))))) == t,
{
}

/// Each step of the cycle shows more, except the step from `Trace` back
/// to `Off`.
pub proof fn lemma_next_more_verbose(t: TuiLogLevel, l: Level)
    requires
        t != TuiLogLevel::Trace,
        shows(t, l),
    ensures
        shows(next_level(t), l),
{
}

/// A setting that shows a level shows every less verbose level too.
pub proof fn lemma_shows_less_verbose(t: TuiLogLevel, l: Level, quieter: Level)
    requires
        shows(t, l),
        verbosity(quieter) <= verbosity(l),
    ensures
        shows(t, quieter),
{
}

/// The level named by `s` (already lower-cased), if it names one.
pub open spec fn level_name(s: Seq<char>) -> Option<TuiLogLevel> {
    if s == "error"@ || s == "err"@ {
        Some(TuiLogLevel::Error)
    } else if s == "warn"@ || s == "warning"@ {
        Some(TuiLogLevel::Warn)
    } else if s == "info"@ {
        Some(TuiLogLevel::Info)
    } else if s == "debug"@ || s == "dbg"@ {
        Some(TuiLogLevel::Debug)
    } else if s == "trace"@ {
        Some(TuiLogLevel::Trace)
    } else if s == "off"@ || s == "none"@ {
        Some(TuiLogLevel::Off)
    } else {
        None
    }
}

/// Parses a level name, ignoring case.
pub fn parse_level(s: &str) -> (r: Option<TuiLogLevel>)
    ensures
        r == level_name(lower_text(s@)),
{
    let lower = to_lowercase(s);
    let c = str_chars(lower.as_str());
    if eq_str(&c, "error") || eq_str(&c, "err") {
        Some(TuiLogLevel::Error)
    } else if eq_str(&c, "warn") || eq_str(&c, "warning") {
        Some(TuiLogLevel::Warn)
    } else if eq_str(&c, "info") {
        Some(TuiLogLevel::Info)
    } else if eq_str(&c, "debug") || eq_str(&c, "dbg") {
        Some(TuiLogLevel::Debug)
    } else if eq_str(&c, "trace") {
        Some(TuiLogLevel::Trace)
    } else if eq_str(&c, "off") || eq_str(&c, "none") {
        Some(TuiLogLevel::Off)
    } else {
        None
    }
}

// ---------------------------------------------------------------------------
// Filter expressions
// ---------------------------------------------------------------------------

/// Number of bytes of the UTF-8 encoding of `c`.
pub open spec fn utf8_char_len(c: char) -> nat {
    if (c as u32) < 0x80 {
        1
    } else if (c as u32) < 0x800 {
        2
    } else if (c as u32) < 0x10000 {
        3
    } else {
        4
    }
}

/// Number of bytes of the UTF-8 encoding of `s` (`str::len`).
pub open spec fn utf8_len(s: Seq<char>) -> nat
    decreases s.len(),
{
    if s.len() == 0 {
        0
    } else {
        utf8_len(s.drop_last()) + utf8_char_len(s.last())
    }
}

/// The byte length of a target, as the sort key of the filter; the byte
/// length of a string in memory always fits in `usize`.
pub open spec fn len_key(s: Seq<char>) -> nat {
    if utf8_len(s) <= usize::MAX {
        utf8_len(s)
    } else {
        usize::MAX as nat
    }
}

/// Byte length of the text `s`.
fn byte_len(s: &[char]) -> (r: usize)
    ensures
        r == len_key(s@),
{
    let mut n: usize = 0;
    let mut i: usize = 0;
    while i < s.len()
        invariant
            i <= s.len(),
            n == len_key(s@.take(i as int)),
        decreases s.len() - i,
    {
        proof {
            assert(s@.take(i + 1).drop_last() =~= s@.take(i as int));
        }
        let c = s[i];
        let w: usize = if (c as u32) < 0x80 {
            1
        } else if (c as u32) < 0x800 {
            2
        } else if (c as u32) < 0x10000 {
            3
        } else {
            4
        };
        n = n.saturating_add(w);
        i += 1;
    }
    proof {
        assert(s@.take(s@.len() as int) =~= s@);
    }
    n
}

/// `x` placed after every leading entry whose key is at least its own.
pub open spec fn insert_by_len(s: Seq<(Seq<char>, TuiLogLevel)>, x: (Seq<char>, TuiLogLevel)) -> Seq<
    (Seq<char>, TuiLogLevel),
>
    decreases s.len(),
{
    if s.len() == 0 {
        seq![x]
    } else if len_key(s[0].0) >= len_key(x.0) {
        seq![s[0]] + insert_by_len(s.drop_first(), x)
    } else {
        seq![x] + s
    }
}

/// The entries ordered by decreasing target length; entries of equal
/// length keep their order (a stable sort).
pub open spec fn sort_by_len_desc(s: Seq<(Seq<char>, TuiLogLevel)>) -> Seq<
    (Seq<char>, TuiLogLevel),
>
    decreases s.len(),
{
    if s.len() == 0 {
        Seq::empty()
    } else {
        insert_by_len(sort_by_len_desc(s.drop_last()), s.last())
    }
}

/// Where [`insert_by_len`] puts `x`: after the leading entries whose key is
/// at least its own.
pub open spec fn ins_pos(s: Seq<(Seq<char>, TuiLogLevel)>, x: (Seq<char>, TuiLogLevel)) -> int
    decreases s.len(),
{
    if s.len() == 0 {
        0
    } else if len_key(s[0].0) >= len_key(x.0) {
        1 + ins_pos(s.drop_first(), x)
    } else {
        0
    }
}

proof fn lemma_ins_pos(s: Seq<(Seq<char>, TuiLogLevel)>, x: (Seq<char>, TuiLogLevel))
    ensures
        0 <= ins_pos(s, x) <= s.len(),
        forall|j: int| 0 <= j < ins_pos(s, x) ==> len_key(#[trigger] s[j].0) >= len_key(x.0),
        ins_pos(s, x) < s.len() ==> len_key(s[ins_pos(s, x)].0) < len_key(x.0),
        insert_by_len(s, x) == s.insert(ins_pos(s, x), x),
    decreases s.len(),
{
    if s.len() == 0 {
        assert(s.insert(0, x) =~= seq![x]);
    } else if len_key(s[0].0) >= len_key(x.0) {
        let t = s.drop_first();
        lemma_ins_pos(t, x);
        let q = ins_pos(t, x);
        assert forall|j: int| 0 <= j < q + 1 implies len_key(#[trigger] s[j].0) >= len_key(x.0) by {
            if j > 0 {
                assert(s[j] == t[j - 1]);
            }
        }
        if q < t.len() {
            assert(s[q + 1] == t[q]);
        }
        assert(s.insert(q + 1, x) =~= seq![s[0]] + t.insert(q, x));
    } else {
        assert(s.insert(0, x) =~= seq![x] + s);
    }
}

proof fn lemma_insert_at(s: Seq<(Seq<char>, TuiLogLevel)>, x: (Seq<char>, TuiLogLevel), p: int)
    requires
        0 <= p <= s.len(),
        forall|j: int| 0 <= j < p ==> len_key(#[trigger] s[j].0) >= len_key(x.0),
        p == s.len() || len_key(s[p].0) < len_key(x.0),
    ensures
        insert_by_len(s, x) == s.insert(p, x),
{
    lemma_ins_pos(s, x);
    let q = ins_pos(s, x);
    if p < q {
        assert(len_key(s[p].0) >= len_key(x.0));
    } else if q < p {
        assert(len_key(s[q].0) >= len_key(x.0));
    }
}

/// Every entry is at least as long as the next.
pub open spec fn sorted_by_len_desc(s: Seq<(Seq<char>, TuiLogLevel)>) -> bool {
    forall|i: int, j: int| 0 <= i < j < s.len() ==> len_key(s[i].0) >= len_key(s[j].0)
}

proof fn lemma_insert_sorted(s: Seq<(Seq<char>, TuiLogLevel)>, x: (Seq<char>, TuiLogLevel))
    requires
        sorted_by_len_desc(s),
    ensures
        sorted_by_len_desc(insert_by_len(s, x)),
        insert_by_len(s, x).to_multiset() == s.to_multiset().insert(x),
{
    lemma_ins_pos(s, x);
    let p = ins_pos(s, x);
    let r = s.insert(p, x);
    assert forall|i: int, j: int| 0 <= i < j < r.len() implies len_key(r[i].0) >= len_key(
        r[j].0,
    ) by {
        if j < p {
            assert(r[i] == s[i] && r[j] == s[j]);
        } else if j == p {
            assert(r[i] == s[i]);
        } else if i < p {
            assert(r[i] == s[i] && r[j] == s[j - 1]);
        } else if i == p {
            assert(r[j] == s[j - 1]);
            assert(len_key(s[p].0) >= len_key(s[j - 1].0) || j - 1 == p);
        } else {
            assert(r[i] == s[i - 1] && r[j] == s[j - 1]);
        }
    }
    vstd::seq_lib::to_multiset_insert(s, p, x);
}

/// The filter's targets come out ordered by decreasing length and hold
/// exactly the entries of the expression.
pub proof fn lemma_sort_by_len(s: Seq<(Seq<char>, TuiLogLevel)>)
    ensures
        sorted_by_len_desc(sort_by_len_desc(s)),
        sort_by_len_desc(s).to_multiset() == s.to_multiset(),
    decreases s.len(),
{
    broadcast use vstd::seq_lib::group_to_multiset_ensures;
    if s.len() == 0 {
        assert(sort_by_len_desc(s).to_multiset() =~= s.to_multiset()) by {
            broadcast use vstd::multiset::group_multiset_axioms;
        }
    } else {
        lemma_sort_by_len(s.drop_last());
        lemma_insert_sorted(sort_by_len_desc(s.drop_last()), s.last());
        assert(s =~= s.drop_last().push(s.last()));
    }
}

pub open spec fn target_views(s: Seq<(String, TuiLogLevel)>) -> Seq<(Seq<char>, TuiLogLevel)> {
    s.map_values(|e: (String, TuiLogLevel)| (e.0@, e.1))
}

/// The entries sorted by decreasing target length, stably.
fn sort_targets(ts: &Vec<(String, TuiLogLevel)>) -> (r: Vec<(String, TuiLogLevel)>)
    ensures
        target_views(r@) == sort_by_len_desc(target_views(ts@)),
{
    let mut out: Vec<(String, TuiLogLevel)> = Vec::new();
    let mut keys: Vec<usize> = Vec::new();
    let ghost tv = target_views(ts@);
    let mut i: usize = 0;
    while i < ts.len()
        invariant
            i <= ts.len(),
            tv == target_views(ts@),
            keys@.len() == out@.len(),
            forall|j: int| 0 <= j < keys@.len() ==> keys@[j] == len_key(#[trigger] out@[j].0@),
            target_views(out@) == sort_by_len_desc(tv.take(i as int)),
        decreases ts.len() - i,
    {
        let name = str_chars(ts[i].0.as_str());
        let k = byte_len(&name);
        let mut p: usize = 0;
        while p < keys.len() && keys[p] >= k
            invariant
                p <= keys.len(),
                keys@.len() == out@.len(),
                forall|j: int| 0 <= j < keys@.len() ==> keys@[j] == len_key(#[trigger] out@[j].0@),
                forall|j: int| 0 <= j < p ==> keys@[j] >= k,
            decreases keys.len() - p,
        {
            p += 1;
        }
        let ghost before = target_views(out@);
        let x = (ts[i].0.clone(), ts[i].1);
        proof {
            assert(tv.take(i + 1).drop_last() =~= tv.take(i as int));
            assert(tv.take(i + 1).last() == (ts@[i as int].0@, ts@[i as int].1));
            assert forall|j: int| 0 <= j < p implies len_key(#[trigger] before[j].0) >= len_key(
                x.0@,
            ) by {
                assert(keys@[j] == len_key(out@[j].0@));
            }
            if p < keys.len() {
                assert(keys@[p as int] == len_key(out@[p as int].0@));
            }
            lemma_insert_at(before, (x.0@, x.1), p as int);
        }
        out.insert(p, x);
        keys.insert(p, k);
        proof {
            assert(target_views(out@) =~= before.insert(p as int, (ts@[i as int].0@, ts@[i as int].1)));
            assert forall|j: int| 0 <= j < keys@.len() implies keys@[j] == len_key(
                #[trigger] out@[j].0@,
            ) by {
                if j < p {
                } else if j == p {
                } else {
                }
            }
        }
        i += 1;
    }
    proof {
        assert(tv.take(ts@.len() as int) =~= tv);
    }
    out
}

/// Abstract value of a [`LogFilter`].
pub struct FilterView {
    pub default_level: TuiLogLevel,
    pub targets: Seq<(Seq<char>, TuiLogLevel)>,
    pub expression: Seq<char>,
}

/// A parsed log filter with per-target level overrides.
#[derive(Clone, Debug)]
pub struct LogFilter {
    /// Default level for targets not explicitly configured
    default_level: TuiLogLevel,
    /// Per-target level overrides (target prefix, level), longest first
    targets: Vec<(String, TuiLogLevel)>,
    /// The filter expression, for display
    expression: String,
}

impl View for LogFilter {
    type V = FilterView;

    closed spec fn view(&self) -> FilterView {
        FilterView {
            default_level: self.default_level,
            targets: target_views(self.targets@),
            expression: self.expression@,
        }
    }
}

/// Reads the parts of a filter expression, left to right: the default level
/// and the per-target levels, or `None` at the first level name that is not
/// one.
pub open spec fn parse_parts(parts: Seq<Seq<char>>) -> Option<
    (TuiLogLevel, Seq<(Seq<char>, TuiLogLevel)>),
>
    decreases parts.len(),
{
    if parts.len() == 0 {
        Some((TuiLogLevel::Info, Seq::empty()))
    } else {
        match parse_parts(parts.drop_last()) {
            None => None,
            Some((d, ts)) => {
                let p = trim(parts.last());
                if p.len() == 0 {
                    Some((d, ts))
                } else {
                    match find_char_opt(p, '=') {
                        Some(k) => match level_name(
                            lower_text(p.subrange(k + 1, p.len() as int)),
                        ) {
                            Some(l) => Some((d, ts.push((p.subrange(0, k), l)))),
                            None => None,
                        },
                        None => match level_name(lower_text(p)) {
                            Some(l) => Some((l, ts)),
                            None => None,
                        },
                    }
                }
            },
        }
    }
}

proof fn lemma_parse_parts_none(parts: Seq<Seq<char>>, i: int, n: int)
    requires
        0 <= i <= n <= parts.len(),
        parse_parts(parts.take(i)) is None,
    ensures
        parse_parts(parts.take(n)) is None,
    decreases n - i,
{
    if n > i {
        lemma_parse_parts_none(parts, i, n - 1);
        assert(parts.take(n).drop_last() =~= parts.take(n - 1));
    }
}

/// The filter that an expression describes, if it is one.
pub open spec fn parse_filter(expr: Seq<char>) -> Option<FilterView> {
    let e = trim(expr);
    if e.len() == 0 {
        None
    } else {
        match parse_parts(split_char(e, ',')) {
            None => None,
            Some((d, ts)) => Some(
                FilterView { default_level: d, targets: sort_by_len_desc(ts), expression: e },
            ),
        }
    }
}

/// The level of the first entry whose target is a prefix of `target`.
pub open spec fn first_match(ts: Seq<(Seq<char>, TuiLogLevel)>, target: Seq<char>) -> Option<
    TuiLogLevel,
>
    decreases ts.len(),
{
    if ts.len() == 0 {
        None
    } else if starts_with(target, ts[0].0) {
        Some(ts[0].1)
    } else {
        first_match(ts.drop_first(), target)
    }
}

/// Events with `target` at `level` pass filter `f`.
pub open spec fn filter_shows(f: FilterView, target: Seq<char>, level: Level) -> bool {
    match first_match(f.targets, target) {
        Some(l) => shows(l, level),
        None => shows(f.default_level, level),
    }
}

impl LogFilter {
    /// Parses a `RUST_LOG`-style filter expression, such as `info`,
    /// `warn,dodeca=debug` or `dodeca::cells=trace,hyper=off`.
    pub fn parse(expr: &str) -> (r: Option<LogFilter>)
        ensures
            match r {
                Some(f) => parse_filter(expr@) == Some(f@),
                None => parse_filter(expr@) is None,
            },
    {
        let chars = str_chars(expr);
        let e = trim_chars(&chars);
        if e.len() == 0 {
            return None;
        }
        let parts = split_chars(&e, ',');
        let ghost sp = split_char(e@, ',');
        let mut default_level = TuiLogLevel::Info;
        let mut targets: Vec<(String, TuiLogLevel)> = Vec::new();
        let mut i: usize = 0;
        while i < parts.len()
            invariant
                i <= parts.len(),
                sp == split_char(e@, ','),
                e@ == trim(expr@),
                e@.len() > 0,
                parts@.len() == sp.len(),
                forall|j: int| 0 <= j < parts@.len() ==> #[trigger] parts@[j]@ == sp[j],
                parse_parts(sp.take(i as int)) == Some((default_level, target_views(targets@))),
            decreases parts.len() - i,
        {
            proof {
                assert(sp.take(i + 1).drop_last() =~= sp.take(i as int));
                assert(sp.take(i + 1).last() == parts@[i as int]@);
            }
            let p = trim_chars(&parts[i]);
            if p.len() > 0 {
                match find_char_index(&p, '=') {
                    Some(k) => {
                        let level_text = slice_chars(&p, k + 1, p.len());
                        let level_str = chars_to_string(&level_text);
                        match parse_level(level_str.as_str()) {
                            Some(l) => {
                                let name = slice_chars(&p, 0, k);
                                let ghost before = target_views(targets@);
                                targets.push((chars_to_string(&name), l));
                                proof {
                                    assert(target_views(targets@) =~= before.push((name@, l)));
                                }
                            },
                            None => {
                                proof {
                                    assert(parse_parts(sp.take(i + 1)) is None);
                                    lemma_parse_parts_none(sp, i + 1, sp.len() as int);
                                    assert(sp.take(sp.len() as int) =~= sp);
                                }
                                return None;
                            },
                        }
                    },
                    None => {
                        let s = chars_to_string(&p);
                        match parse_level(s.as_str()) {
                            Some(l) => {
                                default_level = l;
                            },
                            None => {
                                proof {
                                    assert(parse_parts(sp.take(i + 1)) is None);
                                    lemma_parse_parts_none(sp, i + 1, sp.len() as int);
                                    assert(sp.take(sp.len() as int) =~= sp);
                                }
                                return None;
                            },
                        }
                    },
                }
            }
            i += 1;
        }
        proof {
            assert(sp.take(sp.len() as int) =~= sp);
        }
        let sorted = sort_targets(&targets);
        Some(LogFilter { default_level, targets: sorted, expression: chars_to_string(&e) })
    }

    /// Whether an event with `target` at `level` passes: the first (longest)
    /// target prefix that matches decides, else the default level.
    pub fn should_show(&self, target: &str, level: Level) -> (r: bool)
        ensures
            r == filter_shows(self@, target@, level),
    {
        let t = str_chars(target);
        let ghost ts = target_views(self.targets@);
        let mut i: usize = 0;
        assert(ts.skip(0) =~= ts);
        while i < self.targets.len()
            invariant
                i <= self.targets.len(),
                ts == target_views(self.targets@),
                t@ == target@,
                first_match(ts, target@) == first_match(ts.skip(i as int), target@),
            decreases self.targets.len() - i,
        {
            let prefix = str_chars(self.targets[i].0.as_str());
            proof {
                assert(ts.skip(i as int)[0] == (self.targets@[i as int].0@, self.targets@[i as int].1));
                assert(ts.skip(i as int).drop_first() =~= ts.skip(i + 1));
            }
            if vec_starts_with(&t, &prefix) {
                return self.targets[i].1.should_show(level);
            }
            i += 1;
        }
        self.default_level.should_show(level)
    }

    /// The filter expression, for display.
    pub fn expression(&self) -> (r: &str)
        ensures
            r@ == self@.expression,
    {
        self.expression.as_str()
    }

    /// A copy of the filter.
    pub fn duplicate(&self) -> (r: LogFilter)
        ensures
            r@ == self@,
    {
        let mut targets: Vec<(String, TuiLogLevel)> = Vec::new();
        let mut i: usize = 0;
        while i < self.targets.len()
            invariant
                i <= self.targets.len(),
                target_views(targets@) == target_views(self.targets@.take(i as int)),
            decreases self.targets.len() - i,
        {
            let ghost before = target_views(targets@);
            let ghost item = (self.targets@[i as int].0@, self.targets@[i as int].1);
            targets.push((self.targets[i].0.clone(), self.targets[i].1));
            proof {
                assert(target_views(targets@) =~= before.push(item));
                assert(self.targets@.take(i + 1) =~= self.targets@.take(i as int).push(
                    self.targets@[i as int],
                ));
                assert(target_views(self.targets@.take(i + 1)) =~= target_views(
                    self.targets@.take(i as int),
                ).push(item));
            }
            i += 1;
        }
        proof {
            assert(self.targets@.take(self.targets@.len() as int) =~= self.targets@);
        }
        LogFilter {
            default_level: self.default_level,
            targets,
            expression: self.expression.clone(),
        }
    }
}

/// The first matching target of a parsed filter is the longest matching
/// one: no other matching target is longer.
pub proof fn lemma_first_match_longest(f: FilterView, target: Seq<char>, i: int)
    requires
        sorted_by_len_desc(f.targets),
        0 <= i < f.targets.len(),
        starts_with(target, f.targets[i].0),
    ensures
        exists|k: int|
            0 <= k <= i && first_match(f.targets, target) == Some(f.targets[k].1) && len_key(
                f.targets[k].0,
            ) >= len_key(f.targets[i].0),
    decreases i,
{
    let ts = f.targets;
    if starts_with(target, ts[0].0) {
        assert(len_key(ts[0].0) >= len_key(ts[i].0) || i == 0);
    } else {
        let g = FilterView { targets: ts.drop_first(), ..f };
        assert(sorted_by_len_desc(g.targets)) by {
            assert forall|a: int, b: int| 0 <= a < b < g.targets.len() implies len_key(
                g.targets[a].0,
            ) >= len_key(g.targets[b].0) by {
                assert(g.targets[a] == ts[a + 1] && g.targets[b] == ts[b + 1]);
            }
        }
        assert(g.targets[i - 1] == ts[i]);
        lemma_first_match_longest(g, target, i - 1);
        let k = choose|k: int|
            0 <= k <= i - 1 && first_match(g.targets, target) == Some(g.targets[k].1) && len_key(
                g.targets[k].0,
            ) >= len_key(g.targets[i - 1].0);
        assert(g.targets[k] == ts[k + 1]);
    }
}

// ---------------------------------------------------------------------------
// Filter state
// ---------------------------------------------------------------------------

/// Abstract value of a [`FilterHandle`].
pub struct HandleView {
    pub picante_debug: bool,
    pub log_level: TuiLogLevel,
    pub filter: Option<FilterView>,
}

/// The current filter settings: query engine debug output on or off, the
/// level threshold, and an optional filter expression that takes the
/// threshold's place while it is set.
pub struct FilterHandle {
    picante_debug: bool,
    log_level: TuiLogLevel,
    custom_filter: Option<LogFilter>,
}

pub open spec fn opt_filter_view(f: Option<LogFilter>) -> Option<FilterView> {
    match f {
        Some(x) => Some(x@),
        None => None,
    }
}

impl View for FilterHandle {
    type V = HandleView;

    closed spec fn view(&self) -> HandleView {
        HandleView {
            picante_debug: self.picante_debug,
            log_level: self.log_level,
            filter: opt_filter_view(self.custom_filter),
        }
    }
}

/// What setting filter expression `expr` does: a valid expression becomes
/// the filter and is given back for display; a blank one clears the filter
/// and gives back the empty text; anything else changes nothing and gives
/// back nothing.
pub open spec fn after_set_filter(h: HandleView, expr: Seq<char>) -> (HandleView, Option<Seq<char>>) {
    match parse_filter(expr) {
        Some(f) => (
            HandleView { picante_debug: h.picante_debug, log_level: h.log_level, filter: Some(f) },
            Some(f.expression),
        ),
        None => if trim(expr).len() == 0 {
            (
                HandleView { picante_debug: h.picante_debug, log_level: h.log_level, filter: None },
                Some(Seq::empty()),
            )
        } else {
            (h, None)
        },
    }
}

pub open spec fn opt_text(s: Option<String>) -> Option<Seq<char>> {
    match s {
        Some(x) => Some(x@),
        None => None,
    }
}

/// Events with `target` at `level` pass the settings `h` (query engine
/// events by the debug switch alone).
pub open spec fn admits(h: HandleView, target: Seq<char>, level: Level) -> bool {
    if starts_with(target, "picante"@) {
        h.picante_debug
    } else {
        shows_with(h, target, level)
    }
}

/// Events with `target` at `level` pass the filter expression if one is
/// set, else the level threshold.
pub open spec fn shows_with(h: HandleView, target: Seq<char>, level: Level) -> bool {
    match h.filter {
        Some(f) => filter_shows(f, target, level),
        None => shows(h.log_level, level),
    }
}

impl FilterHandle {
    /// Debug output of the query engine off, level `Info`, no expression.
    pub fn new() -> (r: FilterHandle)
        ensures
            r@ == (HandleView {
                picante_debug: false,
                log_level: TuiLogLevel::Info,
                filter: None,
            }),
    {
        FilterHandle { picante_debug: false, log_level: TuiLogLevel::Info, custom_filter: None }
    }

    /// Switches the query engine's debug output; returns the new state.
    pub fn toggle_picante_debug(&mut self) -> (r: bool)
        ensures
            r == !old(self)@.picante_debug,
            final(self)@ == (HandleView { picante_debug: r, ..old(self)@ }),
    {
        self.picante_debug = !self.picante_debug;
        self.picante_debug
    }

    /// Whether the query engine's debug output is on.
    pub fn is_picante_debug_enabled(&self) -> (r: bool)
        ensures
            r == self@.picante_debug,
    {
        self.picante_debug
    }

    /// Moves to the next, more verbose level (wrapping around) and clears
    /// any filter expression; returns the new level.
    pub fn cycle_log_level(&mut self) -> (r: TuiLogLevel)
        ensures
            r == next_level(old(self)@.log_level),
            final(self)@ == after_cycle(old(self)@),
    {
        self.custom_filter = None;
        let next = self.log_level.next();
        self.log_level = next;
        next
    }

    /// The current level threshold.
    pub fn get_log_level(&self) -> (r: TuiLogLevel)
        ensures
            r == self@.log_level,
    {
        self.log_level
    }

    /// Sets a filter expression (`RUST_LOG` style); see [`after_set_filter`].
    pub fn set_filter(&mut self, expr: &str) -> (r: Option<String>)
        ensures
            (final(self)@, opt_text(r)) == after_set_filter(old(self)@, expr@),
    {
        match LogFilter::parse(expr) {
            Some(f) => {
                let display = f.expression().to_owned();
                self.custom_filter = Some(f);
                Some(display)
            },
            None => {
                let chars = str_chars(expr);
                let t = trim_chars(&chars);
                if t.len() == 0 {
                    self.custom_filter = None;
                    Some(String::new())
                } else {
                    None
                }
            },
        }
    }

    /// The current filter expression, if one is set.
    pub fn get_filter_expression(&self) -> (r: Option<String>)
        ensures
            opt_text(r) == match self@.filter {
                Some(f) => Some(f.expression),
                None => None,
            },
    {
        match &self.custom_filter {
            Some(f) => Some(f.expression().to_owned()),
            None => None,
        }
    }

    /// A copy of the settings.
    pub fn duplicate(&self) -> (r: FilterHandle)
        ensures
            r@ == self@,
    {
        FilterHandle {
            picante_debug: self.picante_debug,
            log_level: self.log_level,
            custom_filter: match &self.custom_filter {
                Some(f) => Some(f.duplicate()),
                None => None,
            },
        }
    }

    /// Whether events with `target` at `level` pass the expression or the
    /// threshold (the query engine's switch aside).
    pub fn should_show_with_filter(&self, target: &str, level: Level) -> (r: bool)
        ensures
            r == shows_with(self@, target@, level),
    {
        match &self.custom_filter {
            Some(f) => f.should_show(target, level),
            None => self.log_level.should_show(level),
        }
    }
}

/// Switching the query engine's debug output twice restores the settings.
pub proof fn lemma_toggle_twice(h: HandleView)
    ensures
        (HandleView {
            picante_debug: !(HandleView { picante_debug: !h.picante_debug, ..h }).picante_debug,
            ..(HandleView { picante_debug: !h.picante_debug, ..h })
        }) == h,
{
}

/// The settings after cycling the level: the next level, no filter
/// expression, the debug switch as it was.
pub open spec fn after_cycle(h: HandleView) -> HandleView {
    HandleView { picante_debug: h.picante_debug, log_level: next_level(h.log_level), filter: None }
}

/// Cycling a handle's level six times restores its threshold and debug
/// switch and leaves no filter expression.
pub proof fn lemma_cycle_six(h: HandleView)
    ensures
        after_cycle(after_cycle(after_cycle(after_cycle(after_cycle(after_cycle(h))))))
            == (HandleView { filter: None, ..h }),
{
}

/// After a filter expression that is not blank is accepted, the filter
/// reads back the text that was given back.
pub proof fn lemma_set_then_get(h: HandleView, expr: Seq<char>)
    requires
        trim(expr).len() > 0,
    ensures
        match after_set_filter(h, expr).1 {
            Some(d) => match after_set_filter(h, expr).0.filter {
                Some(f) => f.expression == d,
                None => false,
            },
            None => after_set_filter(h, expr).0 == h,
        },
{
}

// ---------------------------------------------------------------------------
// Routing events
// ---------------------------------------------------------------------------

/// Spans that take at least this long are reported, in milliseconds.
pub const SLOW_SPAN_THRESHOLD_MS: u64 = 50;

/// The HTTP status in a request log line: the token after ` -> ` in
/// `GET /path -> 200 in 1.2ms`, else the first token (`200 /path 1.2ms`),
/// when it is a number from 100 to 599.
pub open spec fn http_status(msg: Seq<char>) -> Option<nat> {
    let m = trim(msg);
    let arrow: Option<nat> = match find_seq_opt(m, " -> "@) {
        Some(a) => {
            let after = m.subrange(a + 4, m.len() as int);
            let end = match find_char_opt(after, ' ') {
                Some(e) => e,
                None => after.len() as int,
            };
            match parse_unsigned(after.subrange(0, end), 65535) {
                Some(v) => if 100 <= v < 600 {
                    Some(v)
                } else {
                    None
                },
                None => None,
            }
        },
        None => None,
    };
    if arrow is Some {
        arrow
    } else {
        match find_char_opt(m, ' ') {
            Some(fs) => match parse_unsigned(m.subrange(0, fs), 65535) {
                Some(v) => if 100 <= v < 600 {
                    Some(v)
                } else {
                    None
                },
                None => None,
            },
            None => None,
        }
    }
}

/// Parses a status token as a `u16` in 100..600.
fn status_in_range(tok: &[char]) -> (r: Option<u16>)
    ensures
        match r {
            Some(v) => parse_unsigned(tok@, 65535) == Some(v as nat) && 100 <= v < 600,
            None => match parse_unsigned(tok@, 65535) {
                Some(v) => !(100 <= v < 600),
                None => true,
            },
        },
{
    match parse_unsigned_chars(tok, 65535) {
        Some(v) => if 100 <= v && v < 600 {
            Some(v as u16)
        } else {
            None
        },
        None => None,
    }
}

/// The HTTP status of a request log line, if it is one.
pub fn parse_http_status(msg: &str) -> (r: Option<u16>)
    ensures
        match r {
            Some(v) => http_status(msg@) == Some(v as nat),
            None => http_status(msg@) is None,
        },
        r matches Some(v) ==> 100 <= v < 600,
{
    let all = str_chars(msg);
    let m = trim_chars(&all);
    let arrow = str_chars(" -> ");
    proof {
        reveal_strlit(" -> ");
    }
    match find_seq_index(&m, &arrow) {
        Some(a) => {
            proof {
                let k = choose|i: int| first_occurrence(m@, arrow@, i);
                assert(first_occurrence(m@, arrow@, k));
                assert(arrow@.len() == 4);
                assert(a == k);
            }
            let n = m.len();
            assert(a + 4 <= n);
            let after = slice_chars(&m, a + 4, n);
            let end = match find_char_index(&after, ' ') {
                Some(e) => e,
                None => after.len(),
            };
            let tok = slice_chars(&after, 0, end);
            match status_in_range(&tok) {
                Some(v) => {
                    return Some(v);
                },
                None => {},
            }
        },
        None => {},
    }
    match find_char_index(&m, ' ') {
        Some(fs) => {
            let tok = slice_chars(&m, 0, fs);
            status_in_range(&tok)
        },
        None => None,
    }
}

/// The kind of an event, from its message and target.
pub open spec fn detect_kind(msg: Seq<char>, target: Seq<char>) -> EventKind {
    match http_status(msg) {
        Some(v) => EventKind::Http { status: v as u16 },
        None => if starts_with(target, "picante"@) {
            EventKind::Build
        } else {
            let m = lower_text(msg);
            if contains_seq(m, "reload"@) && !contains_seq(m, "live reload"@) {
                EventKind::Reload
            } else if contains_seq(m, "patch"@) {
                EventKind::Patch
            } else if contains_seq(m, "search"@) || contains_seq(m, "pagefind"@) {
                EventKind::Search
            } else if contains_seq(m, "changed:"@) || contains_seq(m, "modified"@) || contains_seq(
                m,
                "watching"@,
            ) {
                EventKind::FileChange
            } else if contains_seq(m, "server"@) || contains_seq(m, "listening"@) || contains_seq(
                m,
                "binding"@,
            ) || contains_seq(m, "browser"@) || contains_seq(m, "connected"@) || contains_seq(
                m,
                "disconnected"@,
            ) {
                EventKind::Server
            } else if contains_seq(m, "compil"@) || contains_seq(m, "build"@) || contains_seq(
                m,
                "render"@,
            ) || contains_seq(m, "slow query"@) || contains_seq(m, "loaded"@) || contains_seq(
                m,
                "cache"@,
            ) {
                EventKind::Build
            } else {
                EventKind::Generic
            }
        },
    }
}

/// Whether `p` occurs in `m`.
fn mentions(m: &[char], p: &str) -> (r: bool)
    ensures
        r == contains_seq(m@, p@),
{
    let pc = str_chars(p);
    contains_exec(m, &pc)
}

/// Classifies an event by its message and target.
pub fn detect_event_kind(msg: &str, target: &str) -> (r: EventKind)
    ensures
        r == detect_kind(msg@, target@),
{
    match parse_http_status(msg) {
        Some(status) => {
            return EventKind::Http { status };
        },
        None => {},
    }
    let t = str_chars(target);
    if starts_with_str(&t, "picante") {
        return EventKind::Build;
    }
    let lower = to_lowercase(msg);
    let m = str_chars(lower.as_str());
    if mentions(&m, "reload") && !mentions(&m, "live reload") {
        EventKind::Reload
    } else if mentions(&m, "patch") {
        EventKind::Patch
    } else if mentions(&m, "search") || mentions(&m, "pagefind") {
        EventKind::Search
    } else if mentions(&m, "changed:") || mentions(&m, "modified") || mentions(&m, "watching") {
        EventKind::FileChange
    } else if mentions(&m, "server") || mentions(&m, "listening") || mentions(&m, "binding") || mentions(
        &m,
        "browser",
    ) || mentions(&m, "connected") || mentions(&m, "disconnected") {
        EventKind::Server
    } else if mentions(&m, "compil") || mentions(&m, "build") || mentions(&m, "render") || mentions(
        &m,
        "slow query",
    ) || mentions(&m, "loaded") || mentions(&m, "cache") {
        EventKind::Build
    } else {
        EventKind::Generic
    }
}

/// The activity level of a trace level.
pub open spec fn event_level(l: Level) -> LogLevel {
    match l {
        Level::Error => LogLevel::Error,
        Level::Warn => LogLevel::Warn,
        Level::Info => LogLevel::Info,
        Level::Debug => LogLevel::Debug,
        Level::Trace => LogLevel::Trace,
    }
}

/// The text of an event: its message, else `target: name`.
pub open spec fn event_text(message: Option<Seq<char>>, target: Seq<char>, name: Seq<char>) -> Seq<
    char,
> {
    match message {
        Some(m) => m,
        None => target + ": "@ + name,
    }
}

/// The tracing layer's filter: it decides which events reach the activity
/// panel and how they read there.
pub struct TuiLayer {
    pub filter: FilterHandle,
}

impl TuiLayer {
    /// A layer with the default settings.
    pub fn new() -> (r: TuiLayer)
        ensures
            r.filter@ == (HandleView {
                picante_debug: false,
                log_level: TuiLogLevel::Info,
                filter: None,
            }),
    {
        TuiLayer { filter: FilterHandle::new() }
    }

    /// The layer's own settings, to change while it runs: every change made
    /// through the handle is the layer's change, seen by every later handle
    /// and by the layer's decisions.
    pub fn filter_handle(&mut self) -> (r: &mut FilterHandle)
        ensures
            *r == old(self).filter,
            final(self).filter == *final(r),
    {
        &mut self.filter
    }

    /// The current level threshold.
    pub fn get_log_level(&self) -> (r: TuiLogLevel)
        ensures
            r == self.filter@.log_level,
    {
        self.filter.get_log_level()
    }

    /// Whether events with `target` at `level` pass the expression or the
    /// threshold.
    pub fn should_show_with_filter(&self, target: &str, level: Level) -> (r: bool)
        ensures
            r == shows_with(self.filter@, target@, level),
    {
        self.filter.should_show_with_filter(target, level)
    }

    /// The activity event for a trace event with `level`, `target`, optional
    /// `message` and callsite `name`, or `None` when the settings filter it
    /// out.
    pub fn event_for(&self, level: Level, target: &str, message: Option<String>, name: &str) -> (r:
        Option<LogEvent>)
        ensures
            r is Some <==> admits(self.filter@, target@, level),
            r matches Some(e) ==> {
                let text = event_text(opt_text(message), target@, name@);
                &&& e.level == event_level(level)
                &&& e.message@ == text
                &&& e.kind == detect_kind(text, target@)
            },
    {
        let t = str_chars(target);
        if starts_with_str(&t, "picante") {
            if !self.filter.is_picante_debug_enabled() {
                return None;
            }
        } else if !self.filter.should_show_with_filter(target, level) {
            return None;
        }
        let msg = match message {
            Some(m) => m,
            None => {
                let mut text = t;
                append_str(&mut text, ": ");
                append_str(&mut text, name);
                chars_to_string(&text)
            },
        };
        let log_level = match level {
            Level::Error => LogLevel::Error,
            Level::Warn => LogLevel::Warn,
            Level::Info => LogLevel::Info,
            Level::Debug => LogLevel::Debug,
            Level::Trace => LogLevel::Trace,
        };
        let kind = detect_event_kind(msg.as_str(), target);
        Some(LogEvent { level: log_level, kind, message: msg })
    }

    /// The warning for a span `name` that took `elapsed_ms`, if it was slow.
    pub fn slow_span_event(&self, name: &str, elapsed_ms: u64) -> (r: Option<LogEvent>)
        ensures
            r is Some <==> elapsed_ms >= SLOW_SPAN_THRESHOLD_MS,
            r matches Some(e) ==> e.level == LogLevel::Warn && e.kind == EventKind::Build
                && e.message@ == "slow query: "@ + name@ + " took "@ + decimal_digits(
                elapsed_ms as nat,
            ) + "ms"@,
    {
        if elapsed_ms >= SLOW_SPAN_THRESHOLD_MS {
            let mut text = str_chars("slow query: ");
            append_str(&mut text, name);
            append_str(&mut text, " took ");
            let digits = decimal_chars(elapsed_ms);
            append_chars(&mut text, &digits);
            append_str(&mut text, "ms");
            Some(LogEvent { level: LogLevel::Warn, kind: EventKind::Build, message: chars_to_string(&text) })
        } else {
            None
        }
    }
}

} // verus!
