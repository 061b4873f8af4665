//! Build bookkeeping: the build mode, the counts of written and skipped
//! outputs, and the summary lines of a build.

use vstd::prelude::*;
use crate::cas::{must_write, ContentStore};
use crate::db::{CodeExecutionResult, CodeExecutionStatus};
use crate::text::{
    append_chars, append_str, chars_to_string, decimal_chars, decimal_digits, find_seq_index,
    find_seq_opt, first_occurrence, slice_chars, str_chars, contains_exec, contains_seq, eq_chars,
};

verus! {

/// How much a build does.
#[derive(Clone, Copy, Debug, PartialEq, Eq, Structural)]
pub enum BuildMode {
    /// Full build: block on link checking and the search index
    Full,
    /// Quick build: just HTML, link checking in the background
    Quick,
}

/// Which outputs a build wrote and which were already up to date.
#[derive(Clone, Copy, Debug)]
pub struct BuildStats {
    pub html_written: usize,
    pub html_skipped: usize,
    pub css_written: bool,
    pub css_skipped: bool,
    pub static_written: usize,
    pub static_skipped: usize,
}

/// Kind of a build output.
#[derive(Clone, Copy, Debug, PartialEq, Eq, Structural)]
pub enum OutputKind {
    Html,
    Css,
    Static,
}

impl Default for BuildStats {
    fn default() -> (r: BuildStats)
        ensures
            r.html_written == 0 && r.html_skipped == 0 && !r.css_written && !r.css_skipped
                && r.static_written == 0 && r.static_skipped == 0,
    {
        BuildStats {
            html_written: 0,
            html_skipped: 0,
            css_written: false,
            css_skipped: false,
            static_written: 0,
            static_skipped: 0,
        }
    }
}

impl BuildStats {
    /// Counts one output of `kind`, written or skipped as unchanged.
    pub fn record(&mut self, kind: OutputKind, written: bool)
        requires
            kind == OutputKind::Html ==> (if written {
                old(self).html_written
            } else {
                old(self).html_skipped
            }) < usize::MAX,
            kind == OutputKind::Static ==> (if written {
                old(self).static_written
            } else {
                old(self).static_skipped
            }) < usize::MAX,
        ensures
            final(self).html_written == old(self).html_written + if kind == OutputKind::Html
                && written {
                1int
            } else {
                0
            },
            final(self).html_skipped == old(self).html_skipped + if kind == OutputKind::Html
                && !written {
                1int
            } else {
                0
            },
            final(self).static_written == old(self).static_written + if kind == OutputKind::Static
                && written {
                1int
            } else {
                0
            },
            final(self).static_skipped == old(self).static_skipped + if kind
                == OutputKind::Static && !written {
                1int
            } else {
                0
            },
            final(self).css_written == (old(self).css_written || (kind == OutputKind::Css
                && written)),
            final(self).css_skipped == old(self).css_skipped,
    {
        match kind {
            OutputKind::Html => if written {
                self.html_written = self.html_written + 1;
            } else {
                self.html_skipped = self.html_skipped + 1;
            },
            OutputKind::Css => if written {
                self.css_written = true;
            },
            OutputKind::Static => if written {
                self.static_written = self.static_written + 1;
            } else {
                self.static_skipped = self.static_skipped + 1;
            },
        }
    }

    /// Outputs found up to date: skipped pages and static files, and the
    /// stylesheet when it was not written.
    pub fn up_to_date(&self) -> (r: usize)
        requires
            self.html_skipped + self.static_skipped + 1 <= usize::MAX,
        ensures
            r == self.html_skipped + self.static_skipped + if self.css_written {
                0int
            } else {
                1
            },
    {
        self.html_skipped + self.static_skipped + if self.css_written {
            0
        } else {
            1
        }
    }

    /// What was written, for the summary: `N HTML`, `N static`, `CSS`, each
    /// only when there is something to say.
    pub fn written_parts(&self) -> (r: Vec<String>)
        ensures
            r@.map_values(|s: String| s@) == written_parts_of(*self),
    {
        let mut parts: Vec<String> = Vec::new();
        let ghost empty = parts@.map_values(|s: String| s@);
        assert(empty =~= Seq::<Seq<char>>::empty());
        if self.html_written > 0 {
            let mut t = decimal_chars(self.html_written as u64);
            append_str(&mut t, " HTML");
            parts.push(chars_to_string(&t));
        }
        let ghost a = parts@.map_values(|s: String| s@);
        if self.static_written > 0 {
            let mut t = decimal_chars(self.static_written as u64);
            append_str(&mut t, " static");
            parts.push(chars_to_string(&t));
            assert(parts@.map_values(|s: String| s@) =~= a.push(t@));
        }
        let ghost b = parts@.map_values(|s: String| s@);
        if self.css_written {
            parts.push("CSS".to_owned());
            assert(parts@.map_values(|s: String| s@) =~= b.push("CSS"@));
        }
        assert(parts@.map_values(|s: String| s@) =~= written_parts_of(*self));
        parts
    }
}

/// The written parts of the summary for `s`.
pub open spec fn written_parts_of(s: BuildStats) -> Seq<Seq<char>> {
    let a: Seq<Seq<char>> = if s.html_written > 0 {
        seq![decimal_digits(s.html_written as nat) + " HTML"@]
    } else {
        Seq::empty()
    };
    let b = if s.static_written > 0 {
        a.push(decimal_digits(s.static_written as nat) + " static"@)
    } else {
        a
    };
    if s.css_written {
        b.push("CSS"@)
    } else {
        b
    }
}

/// The error line for a build with broken links.
pub open spec fn broken_links_message(total: nat, internal: nat, external: nat) -> Seq<char> {
    "Found "@ + decimal_digits(total) + " broken link(s) ("@ + decimal_digits(internal)
        + " internal, "@ + decimal_digits(external) + " external)"@
}

/// `Found N broken link(s) (I internal, E external)`.
pub fn broken_links_summary(total: usize, internal: usize, external: usize) -> (r: String)
    ensures
        r@ == broken_links_message(total as nat, internal as nat, external as nat),
{
    let mut t = str_chars("Found ");
    let d = decimal_chars(total as u64);
    append_chars(&mut t, &d);
    append_str(&mut t, " broken link(s) (");
    let d = decimal_chars(internal as u64);
    append_chars(&mut t, &d);
    append_str(&mut t, " internal, ");
    let d = decimal_chars(external as u64);
    append_chars(&mut t, &d);
    append_str(&mut t, " external)");
    chars_to_string(&t)
}


/// How many of `rs` have status `st`.
pub open spec fn status_count(rs: Seq<CodeExecutionResult>, st: CodeExecutionStatus) -> nat
    decreases rs.len(),
{
    if rs.len() == 0 {
        0
    } else {
        status_count(rs.drop_last(), st) + if rs.last().status == st {
            1nat
        } else {
            0nat
        }
    }
}

/// How many code samples failed, ran, and were skipped.
#[derive(Clone, Copy, Debug)]
pub struct CodeExecutionCounts {
    pub failed: usize,
    pub executed: usize,
    pub skipped: usize,
    pub total: usize,
}

/// Counts the outcomes of code sample execution.
pub fn count_code_executions(results: &Vec<CodeExecutionResult>) -> (r: CodeExecutionCounts)
    ensures
        r.failed == status_count(results@, CodeExecutionStatus::Failed),
        r.executed == status_count(results@, CodeExecutionStatus::Success),
        r.skipped == status_count(results@, CodeExecutionStatus::Skipped),
        r.total == results@.len(),
{
    let mut failed: usize = 0;
    let mut executed: usize = 0;
    let mut skipped: usize = 0;
    let mut i: usize = 0;
    while i < results.len()
        invariant
            i <= results.len(),
            failed == status_count(results@.take(i as int), CodeExecutionStatus::Failed),
            executed == status_count(results@.take(i as int), CodeExecutionStatus::Success),
            skipped == status_count(results@.take(i as int), CodeExecutionStatus::Skipped),
            failed <= i && executed <= i && skipped <= i,
        decreases results.len() - i,
    {
        proof {
            assert(results@.take(i + 1).drop_last() =~= results@.take(i as int));
        }
        match results[i].status {
            CodeExecutionStatus::Failed => failed += 1,
            CodeExecutionStatus::Success => executed += 1,
            CodeExecutionStatus::Skipped => skipped += 1,
        }
        i += 1;
    }
    proof {
        assert(results@.take(results@.len() as int) =~= results@);
    }
    CodeExecutionCounts { failed, executed, skipped, total: results.len() }
}

/// What a build says about code sample execution.
#[derive(Clone, Debug)]
pub enum CodeExecutionVerdict {
    /// The build fails with this message
    Fail(String),
    /// The build goes on (development mode) after this warning
    Warn(String),
    /// All samples ran or were skipped: this summary
    Summary(String),
    /// There were no code samples
    Nothing,
}

/// `N code sample(s) failed execution`.
pub open spec fn failed_samples_text(n: nat) -> Seq<char> {
    decimal_digits(n) + " code sample(s) failed execution"@
}

/// The summary of a build whose code samples all ran or were skipped.
pub open spec fn samples_summary_text(executed: nat, skipped: nat) -> Seq<char> {
    decimal_digits(executed) + " code samples executed successfully"@ + if skipped > 0 {
        ", "@ + decimal_digits(skipped) + " skipped"@
    } else {
        Seq::empty()
    }
}

/// The verdict on code sample execution: failures fail a production build
/// and are a warning in development mode; else a summary when there were
/// samples at all.
pub fn code_execution_verdict(counts: CodeExecutionCounts, dev_mode: bool) -> (r: CodeExecutionVerdict)
    ensures
        counts.failed > 0 && !dev_mode ==> (r matches CodeExecutionVerdict::Fail(m)
            && m@ == "Build failed: "@ + failed_samples_text(counts.failed as nat)),
        counts.failed > 0 && dev_mode ==> (r matches CodeExecutionVerdict::Warn(m)
            && m@ == "Warning: "@ + failed_samples_text(counts.failed as nat)
            + " (continuing in dev mode)"@),
        counts.failed == 0 && counts.total > 0 ==> (r matches CodeExecutionVerdict::Summary(m)
            && m@ == samples_summary_text(counts.executed as nat, counts.skipped as nat)),
        counts.failed == 0 && counts.total == 0 ==> r is Nothing,
{
    if counts.failed > 0 {
        let d = decimal_chars(counts.failed as u64);
        if !dev_mode {
            let mut t = str_chars("Build failed: ");
            append_chars(&mut t, &d);
            append_str(&mut t, " code sample(s) failed execution");
            CodeExecutionVerdict::Fail(chars_to_string(&t))
        } else {
            let mut t = str_chars("Warning: ");
            append_chars(&mut t, &d);
            append_str(&mut t, " code sample(s) failed execution");
            append_str(&mut t, " (continuing in dev mode)");
            CodeExecutionVerdict::Warn(chars_to_string(&t))
        }
    } else if counts.total > 0 {
        let mut t = decimal_chars(counts.executed as u64);
        append_str(&mut t, " code samples executed successfully");
        if counts.skipped > 0 {
            append_str(&mut t, ", ");
            let d = decimal_chars(counts.skipped as u64);
            append_chars(&mut t, &d);
            append_str(&mut t, " skipped");
        }
        CodeExecutionVerdict::Summary(chars_to_string(&t))
    } else {
        CodeExecutionVerdict::Nothing
    }
}

/// The report of one failed code sample: where it is, its language, the
/// error, and its standard error output when there is any.
pub open spec fn failure_report_text(r: CodeExecutionResult) -> Seq<char> {
    "Code execution failed in "@ + r.source_path@ + seq![':'] + decimal_digits(r.line as nat)
        + " ("@ + r.language@ + "): "@ + match r.error {
        Some(e) => e@,
        None => "Unknown error"@,
    } + if r.stderr@.len() > 0 {
        "\n  stderr: "@ + r.stderr@
    } else {
        Seq::empty()
    }
}

/// The lines reporting a failed code sample.
pub fn failure_report(r: &CodeExecutionResult) -> (t: String)
    ensures
        t@ == failure_report_text(*r),
{
    let mut t = str_chars("Code execution failed in ");
    append_str(&mut t, r.source_path.as_str());
    t.push(':');
    let d = decimal_chars(r.line as u64);
    append_chars(&mut t, &d);
    append_str(&mut t, " (");
    append_str(&mut t, r.language.as_str());
    append_str(&mut t, "): ");
    match &r.error {
        Some(e) => append_str(&mut t, e.as_str()),
        None => append_str(&mut t, "Unknown error"),
    }
    let err = str_chars(r.stderr.as_str());
    if err.len() > 0 {
        append_str(&mut t, "\n  stderr: ");
        append_chars(&mut t, &err);
    }
    chars_to_string(&t)
}


/// Where the error text of a rendered error page begins: after its first
/// `<pre>`, or at the start where there is none.
pub open spec fn error_text_start(c: Seq<char>) -> int {
    match find_seq_opt(c, "<pre>"@) {
        Some(i) => i + 5,
        None => 0,
    }
}

/// Where the error text of a rendered error page ends: at its first
/// `</pre>`, or at the end where there is none.
pub open spec fn error_text_end(c: Seq<char>) -> int {
    match find_seq_opt(c, "</pre>"@) {
        Some(j) => j,
        None => c.len() as int,
    }
}

/// The message that fails a production build when the page at `route`
/// rendered as an error page: the text inside the page's `<pre>` element.
/// A page whose first `</pre>` comes before the end of its first `<pre>`
/// is left out.
pub fn template_error_message(route: &str, content: &str) -> (r: String)
    requires
        error_text_start(content@) <= error_text_end(content@),
    ensures
        r@ == "Template error rendering "@ + route@ + ": "@ + content@.subrange(
            error_text_start(content@),
            error_text_end(content@),
        ),
{
    let c = str_chars(content);
    let open_tag = str_chars("<pre>");
    let close_tag = str_chars("</pre>");
    proof {
        reveal_strlit("<pre>");
        reveal_strlit("</pre>");
    }
    let n: usize = c.len();
    let start: usize = match find_seq_index(&c, &open_tag) {
        Some(i) => {
            proof {
                assert(first_occurrence(c@, open_tag@, i as int));
                assert(open_tag@.len() == 5);
                assert(i + 5 <= n);
            }
            i + 5
        },
        None => 0,
    };
    let end: usize = match find_seq_index(&c, &close_tag) {
        Some(j) => j,
        None => c.len(),
    };
    let msg = slice_chars(&c, start, end);
    let mut t = str_chars("Template error rendering ");
    append_str(&mut t, route);
    append_str(&mut t, ": ");
    append_chars(&mut t, &msg);
    chars_to_string(&t)
}


/// The message that fails a build for a page rendered as an error page.
pub open spec fn template_error_text(route: Seq<char>, content: Seq<char>) -> Seq<char> {
    "Template error rendering "@ + route + ": "@ + content.subrange(
        error_text_start(content),
        error_text_end(content),
    )
}

/// Whether a rendered page is an error page: it holds the render error
/// marker `marker`.
pub fn has_render_error(html: &str, marker: &str) -> (r: bool)
    ensures
        r == contains_seq(html@, marker@),
{
    let h = str_chars(html);
    let m = str_chars(marker);
    contains_exec(&h, &m)
}

/// What a build does with a rendered page: outside development mode, a
/// page holding the render error marker fails the build with this message;
/// else `None` and the page is written. A failing page whose first
/// `</pre>` comes before the end of its first `<pre>` is left out.
pub fn production_render_failure(route: &str, content: &str, dev_mode: bool, marker: &str) -> (r:
    Option<String>)
    requires
        !dev_mode && contains_seq(content@, marker@) ==> error_text_start(content@)
            <= error_text_end(content@),
    ensures
        r is Some <==> !dev_mode && contains_seq(content@, marker@),
        r matches Some(m) ==> m@ == template_error_text(route@, content@),
{
    if !dev_mode && has_render_error(content, marker) {
        Some(template_error_message(route, content))
    } else {
        None
    }
}


/// One output of a build, ready to be written: its kind, the file it goes
/// to, the hash of its content, and whether that file was on disk before
/// the build started writing.
#[derive(Clone, Debug)]
pub struct PlannedWrite {
    pub kind: OutputKind,
    pub path: String,
    pub hash: u64,
    pub exists: bool,
}

/// The store, the write decisions and the paths written after deciding
/// `outs` in order from store `m`: an output is written unless its hash is
/// recorded for its path and its file is there (on disk before, or written
/// earlier in the run); a written output's hash is recorded.
pub open spec fn write_run(m: Map<Seq<char>, u64>, outs: Seq<PlannedWrite>) -> (
    Map<Seq<char>, u64>,
    Seq<bool>,
    Seq<Seq<char>>,
)
    decreases outs.len(),
{
    if outs.len() == 0 {
        (m, Seq::empty(), Seq::empty())
    } else {
        let prev = write_run(m, outs.drop_last());
        let o = outs.last();
        let there = o.exists || prev.2.contains(o.path@);
        if must_write(prev.0, o.path@, o.hash, there) {
            (prev.0.insert(o.path@, o.hash), prev.1.push(true), prev.2.push(o.path@))
        } else {
            (prev.0, prev.1.push(false), prev.2)
        }
    }
}

/// The counts for outputs `outs` with write decisions `flags`, from the
/// empty counts.
pub open spec fn tally(outs: Seq<PlannedWrite>, flags: Seq<bool>) -> BuildStats
    decreases outs.len(),
{
    if outs.len() == 0 || flags.len() != outs.len() {
        BuildStats {
            html_written: 0,
            html_skipped: 0,
            css_written: false,
            css_skipped: false,
            static_written: 0,
            static_skipped: 0,
        }
    } else {
        let s = tally(outs.drop_last(), flags.drop_last());
        let k = outs.last().kind;
        let w = flags.last();
        BuildStats {
            html_written: (s.html_written + if k == OutputKind::Html && w { 1int } else { 0 }) as usize,
            html_skipped: (s.html_skipped + if k == OutputKind::Html && !w { 1int } else { 0 }) as usize,
            css_written: s.css_written || (k == OutputKind::Css && w),
            css_skipped: s.css_skipped,
            static_written: (s.static_written + if k == OutputKind::Static && w { 1int } else { 0 }) as usize,
            static_skipped: (s.static_skipped + if k == OutputKind::Static && !w { 1int } else { 0 }) as usize,
        }
    }
}

fn written_contains(written: &Vec<String>, path: &str) -> (r: bool)
    ensures
        r == written@.map_values(|w: String| w@).contains(path@),
{
    let p = str_chars(path);
    let mut i: usize = 0;
    while i < written.len()
        invariant
            i <= written.len(),
            p@ == path@,
            forall|j: int| 0 <= j < i ==> written@[j]@ != path@,
        decreases written.len() - i,
    {
        let w = str_chars(written[i].as_str());
        if eq_chars(&w, &p) {
            proof {
                assert(written@.map_values(|w: String| w@)[i as int] == path@);
            }
            return true;
        }
        i += 1;
    }
    proof {
        let views = written@.map_values(|w: String| w@);
        if views.contains(path@) {
            let j = choose|j: int| 0 <= j < views.len() && #[trigger] views[j] == path@;
            assert(written@[j]@ == path@);
        }
    }
    false
}

/// Decides the writes of a build's outputs in order (see [`write_run`]),
/// recording each written hash in the store, and counts them as the build
/// summary does. Returns the counts and, for each output, whether to write
/// it.
pub fn plan_writes(store: &mut ContentStore, outputs: &Vec<PlannedWrite>) -> (r: (BuildStats, Vec<bool>))
    ensures
        final(store)@ == write_run(old(store)@, outputs@).0,
        r.1@ == write_run(old(store)@, outputs@).1,
        r.0 == tally(outputs@, r.1@),
{
    let ghost m0 = store@;
    let mut stats = BuildStats::default();
    let mut flags: Vec<bool> = Vec::new();
    let mut written: Vec<String> = Vec::new();
    let mut i: usize = 0;
    while i < outputs.len()
        invariant
            i <= outputs.len(),
            store@ == write_run(m0, outputs@.take(i as int)).0,
            flags@ == write_run(m0, outputs@.take(i as int)).1,
            written@.map_values(|w: String| w@) == write_run(m0, outputs@.take(i as int)).2,
            flags@.len() == i,
            stats == tally(outputs@.take(i as int), flags@),
            stats.html_written <= i && stats.html_skipped <= i,
            stats.static_written <= i && stats.static_skipped <= i,
        decreases outputs.len() - i,
    {
        let ghost before = outputs@.take(i as int);
        let ghost after = outputs@.take(i + 1);
        proof {
            assert(after.drop_last() =~= before);
            assert(after.last() == outputs@[i as int]);
        }
        let o = &outputs[i];
        let there = o.exists || written_contains(&written, o.path.as_str());
        let w = store.needs_write_hash(o.path.as_str(), o.hash, there);
        if w {
            store.record(o.path.clone(), o.hash);
            let ghost wv = written@;
            written.push(o.path.clone());
            proof {
                assert(written@.map_values(|x: String| x@) =~= wv.map_values(|x: String| x@).push(o.path@));
            }
        }
        stats.record(o.kind, w);
        flags.push(w);
        proof {
            assert(flags@.drop_last() =~= write_run(m0, before).1);
        }
        i += 1;
    }
    proof {
        assert(outputs@.take(outputs@.len() as int) =~= outputs@);
    }
    (stats, flags)
}

} // verus!
