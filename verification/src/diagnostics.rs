//! Recent errors, dependency health, and the diagnostics report that gathers
//! them with the settings.
use vstd::prelude::*;

use std::collections::VecDeque;

use crate::config::AppConfig;
use crate::text::string_views;
use crate::text::{
    append_str, concat_chars, decimal, from_chars, join, join_chars, push_decimal, to_chars,
    trim_chars, trimmed, vec_views,
};

verus! {

/// One error shown to the user.
#[derive(Debug, Clone)]
pub struct ReportEntry {
    pub unix_seconds: u64,
    pub source: String,
    pub message: String,
}

impl View for ReportEntry {
    type V = (u64, Seq<char>, Seq<char>);

    open spec fn view(&self) -> (u64, Seq<char>, Seq<char>) {
        (self.unix_seconds, self.source@, self.message@)
    }
}

/// The views of a sequence of entries.
pub open spec fn entry_views(s: Seq<ReportEntry>) -> Seq<(u64, Seq<char>, Seq<char>)> {
    Seq::new(s.len(), |i: int| s[i]@)
}

/// The last `max` elements of `s` (all of them if there are fewer).
pub open spec fn keep_latest<A>(s: Seq<A>, max: nat) -> Seq<A> {
    if s.len() > max {
        s.subrange(s.len() - max, s.len() as int)
    } else {
        s
    }
}

/// A log of the most recent errors, holding at most a fixed number of them.
pub struct Reporter {
    entries: VecDeque<ReportEntry>,
    max_entries: usize,
}

/// `SystemTime::now().duration_since(UNIX_EPOCH)` in whole seconds
/// (`Duration::as_secs`), or `None` when the clock is set before the epoch.
/// It depends on the clock, so nothing is claimed of it.
#[verifier::external_body]
fn clock_unix_seconds() -> Option<u64> {
    match std::time::SystemTime::now().duration_since(std::time::UNIX_EPOCH) {
        Ok(d) => Some(d.as_secs()),
        Err(_) => None,
    }
}

/// The current time in whole seconds since the Unix epoch, 0 when the clock
/// is set before it.
fn now_unix_seconds() -> u64 {
    match clock_unix_seconds() {
        Some(t) => t,
        None => 0,
    }
}

/// A copy of an entry.
fn copy_entry(e: &ReportEntry) -> (r: ReportEntry)
    ensures
        r@ == e@,
{
    ReportEntry { unix_seconds: e.unix_seconds, source: e.source.clone(), message: e.message.clone() }
}

impl Reporter {
    /// The entries held, oldest first.
    pub closed spec fn entries_view(&self) -> Seq<(u64, Seq<char>, Seq<char>)> {
        entry_views(self.entries@)
    }

    /// How many entries the log keeps.
    pub closed spec fn capacity(&self) -> nat {
        self.max_entries as nat
    }

    pub fn new(max_entries: usize) -> (r: Self)
        ensures
            r.entries_view() == Seq::<(u64, Seq<char>, Seq<char>)>::empty(),
            r.capacity() == max_entries,
    {
        let r = Reporter { entries: VecDeque::new(), max_entries };
        assert(r.entries_view() =~= Seq::<(u64, Seq<char>, Seq<char>)>::empty());
        r
    }

    /// Records an error from `source`, stamped with the current time; the
    /// oldest entries are dropped so that at most `capacity` remain.
    pub fn record_error(&mut self, source: &str, message: &str)
        ensures
            final(self).capacity() == old(self).capacity(),
            exists|t: u64|
                final(self).entries_view() == keep_latest(
                    old(self).entries_view().push((t, source@, message@)),
                    old(self).capacity(),
                ),
    {
        let t = now_unix_seconds();
        let entry = ReportEntry {
            unix_seconds: t,
            source: String::from_str(source),
            message: String::from_str(message),
        };
        let ghost all = self.entries_view().push((t, source@, message@));
        self.entries.push_back(entry);
        assert forall|k: int| 0 <= k < self.entries@.len() implies #[trigger] self.entries@[k]@
            == all[k] by {
            if k < self.entries@.len() - 1 {
                assert(self.entries@[k] == old(self).entries@[k]);
                assert(entry_views(old(self).entries@)[k] == old(self).entries@[k]@);
            }
        }
        while self.entries.len() > self.max_entries
            invariant
                self.max_entries == old(self).max_entries,
                all.len() >= self.entries@.len(),
                forall|k: int|
                    0 <= k < self.entries@.len() ==> #[trigger] self.entries@[k]@ == all[all.len()
                        - self.entries@.len() + k],
                self.entries@.len() == all.len() || self.entries@.len() >= self.max_entries,
            decreases self.entries.len(),
        {
            let ghost before = self.entries@;
            self.entries.pop_front();
            assert forall|k: int| 0 <= k < self.entries@.len() implies #[trigger] self.entries@[k]@
                == all[all.len() - self.entries@.len() + k] by {
                assert(self.entries@[k] == before[k + 1]);
            }
        }
        let ghost kept = keep_latest(all, self.max_entries as nat);
        assert forall|k: int| 0 <= k < self.entries@.len() implies #[trigger] entry_views(
            self.entries@,
        )[k] == kept[k] by {
            assert(self.entries@[k]@ == all[all.len() - self.entries@.len() + k]);
        }
        assert(entry_views(self.entries@) =~= kept);
    }

    /// A copy of the entries held, oldest first.
    pub fn snapshot(&self) -> (r: Vec<ReportEntry>)
        ensures
            entry_views(r@) == self.entries_view(),
    {
        let mut out: Vec<ReportEntry> = Vec::new();
        let n = self.entries.len();
        for i in 0..n
            invariant
                n == self.entries.len(),
                out@.len() == i,
                forall|k: int| 0 <= k < i ==> #[trigger] out@[k]@ == self.entries@[k]@,
        {
            out.push(copy_entry(&self.entries[i]));
        }
        assert(entry_views(out@) =~= entry_views(self.entries@));
        out
    }
}

/// Recording into a log that keeps the last `max` entries, then keeping the
/// last `max` again, is the same as keeping the last `max` of everything ever
/// recorded: the log always holds the latest entries, in order.
pub proof fn lemma_keep_latest_push<A>(s: Seq<A>, e: A, max: nat)
    ensures
        keep_latest(keep_latest(s, max).push(e), max) == keep_latest(s.push(e), max),
        keep_latest(s.push(e), max).len() <= max,
        max > 0 ==> keep_latest(s.push(e), max).last() == e,
{
    assert(keep_latest(keep_latest(s, max).push(e), max) =~= keep_latest(s.push(e), max));
}

/// The log that results from recording the entries of `pushes`, one after
/// the other, into a log that held `start` and keeps at most `max` entries,
/// each step being what `Reporter::record_error` does.
pub open spec fn log_after<A>(start: Seq<A>, pushes: Seq<A>, max: nat) -> Seq<A>
    decreases pushes.len(),
{
    if pushes.len() == 0 {
        start
    } else {
        keep_latest(log_after(start, pushes.drop_last(), max).push(pushes.last()), max)
    }
}

/// After any number k of recordings into a new log that keeps at most `max`
/// entries, the log holds exactly the last min(k, max) recorded entries, in
/// the order they were recorded; with `max` 0 it holds none.
pub proof fn lemma_log_after_recordings<A>(pushes: Seq<A>, max: nat)
    ensures
        log_after(Seq::empty(), pushes, max) == keep_latest(pushes, max),
        log_after(Seq::empty(), pushes, max).len() == if pushes.len() < max {
            pushes.len()
        } else {
            max
        },
        forall|i: int|
            0 <= i < log_after(Seq::empty(), pushes, max).len() ==> #[trigger] log_after(
                Seq::empty(),
                pushes,
                max,
            )[i] == pushes[pushes.len() - log_after(Seq::<A>::empty(), pushes, max).len() + i],
    decreases pushes.len(),
{
    if pushes.len() > 0 {
        let init = pushes.drop_last();
        lemma_log_after_recordings(init, max);
        lemma_keep_latest_push(init, pushes.last(), max);
        assert(init.push(pushes.last()) =~= pushes);
    }
}

/// Step `i` of a history of the log: `logs[i + 1]` is what recording
/// `entries[i]` into `logs[i]` leaves, as `Reporter::record_error` states it.
pub open spec fn records_step(
    logs: Seq<Seq<(u64, Seq<char>, Seq<char>)>>,
    entries: Seq<(u64, Seq<char>, Seq<char>)>,
    max: nat,
    i: int,
) -> bool {
    logs[i + 1] == keep_latest(logs[i].push(entries[i]), max)
}

/// The successive contents `logs` of a log made by `Reporter::new(max)`
/// into which `entries` were recorded one after the other by
/// `Reporter::record_error`, and nothing else was done.
pub open spec fn is_recording_history(
    logs: Seq<Seq<(u64, Seq<char>, Seq<char>)>>,
    entries: Seq<(u64, Seq<char>, Seq<char>)>,
    max: nat,
) -> bool {
    &&& logs.len() == entries.len() + 1
    &&& logs[0] == Seq::<(u64, Seq<char>, Seq<char>)>::empty()
    &&& forall|i: int| 0 <= i < entries.len() ==> #[trigger] records_step(logs, entries, max, i)
}

proof fn lemma_history_prefix(
    logs: Seq<Seq<(u64, Seq<char>, Seq<char>)>>,
    entries: Seq<(u64, Seq<char>, Seq<char>)>,
    max: nat,
    i: int,
)
    requires
        is_recording_history(logs, entries, max),
        0 <= i <= entries.len(),
    ensures
        logs[i] == log_after(Seq::empty(), entries.take(i), max),
    decreases i,
{
    if i > 0 {
        lemma_history_prefix(logs, entries, max, i - 1);
        assert(records_step(logs, entries, max, i - 1));
        let p = entries.take(i);
        assert(p.drop_last() =~= entries.take(i - 1));
        assert(p.last() == entries[i - 1]);
    }
}

/// After a new log of capacity `max` has had the k entries of `entries`
/// recorded into it by `Reporter::record_error`, and nothing else, it holds
/// exactly the last min(k, max) of them, in the order they were recorded;
/// a log of capacity 0 never holds one.
pub proof fn lemma_recording_history(
    logs: Seq<Seq<(u64, Seq<char>, Seq<char>)>>,
    entries: Seq<(u64, Seq<char>, Seq<char>)>,
    max: nat,
)
    requires
        is_recording_history(logs, entries, max),
    ensures
        logs.last() == keep_latest(entries, max),
        logs.last().len() == if entries.len() < max {
            entries.len()
        } else {
            max
        },
        forall|j: int|
            0 <= j < logs.last().len() ==> #[trigger] logs.last()[j] == entries[entries.len()
                - logs.last().len() + j],
{
    lemma_history_prefix(logs, entries, max, entries.len() as int);
    assert(entries.take(entries.len() as int) =~= entries);
    lemma_log_after_recordings(entries, max);
}

/// How many names the diagnostics report is tried under.
pub const EXPORT_ATTEMPTS: u32 = 32;

/// What came of writing the report under one name.
#[derive(Debug, Clone, Copy, PartialEq, Eq, Structural)]
pub enum WriteOutcome {
    /// The file was written.
    Written,
    /// A file of that name exists already.
    AlreadyExists,
    /// Writing failed for another reason.
    Failed,
}

/// What to do after one attempt to write the report.
#[derive(Debug, Clone, Copy, PartialEq, Eq, Structural)]
pub enum ExportStep {
    /// The report is written.
    Done,
    /// Try again under the name with this nonce.
    TryNonce(u32),
    /// Give up with the write error.
    Fail,
    /// Every name was taken: give up.
    Exhausted,
}

/// The step after attempt `nonce` ended with `outcome`: a taken name moves
/// on to the next nonce while nonces below `EXPORT_ATTEMPTS` remain.
pub open spec fn export_step_spec(nonce: u32, outcome: WriteOutcome) -> ExportStep {
    match outcome {
        WriteOutcome::Written => ExportStep::Done,
        WriteOutcome::Failed => ExportStep::Fail,
        WriteOutcome::AlreadyExists => if nonce + 1 < EXPORT_ATTEMPTS {
            ExportStep::TryNonce((nonce + 1) as u32)
        } else {
            ExportStep::Exhausted
        },
    }
}

/// Decides what follows an attempt to write the report; the first attempt
/// uses nonce 0.
pub fn next_export_step(nonce: u32, outcome: WriteOutcome) -> (r: ExportStep)
    ensures
        r == export_step_spec(nonce, outcome),
{
    match outcome {
        WriteOutcome::Written => ExportStep::Done,
        WriteOutcome::Failed => ExportStep::Fail,
        WriteOutcome::AlreadyExists => {
            if nonce < EXPORT_ATTEMPTS - 1 {
                ExportStep::TryNonce(nonce + 1)
            } else {
                ExportStep::Exhausted
            }
        },
    }
}

/// A written report ends the attempts and a failed write gives up, whatever
/// the attempt; a taken name is retried under the next nonce for the first
/// 32 attempts (nonces 0 to 31), and after attempt 31 the export gives up.
pub proof fn lemma_export_steps(nonce: u32)
    ensures
        export_step_spec(nonce, WriteOutcome::Written) == ExportStep::Done,
        export_step_spec(nonce, WriteOutcome::Failed) == ExportStep::Fail,
        nonce < 31 ==> export_step_spec(nonce, WriteOutcome::AlreadyExists) == ExportStep::TryNonce(
            (nonce + 1) as u32,
        ),
        nonce >= 31 ==> export_step_spec(nonce, WriteOutcome::AlreadyExists)
            == ExportStep::Exhausted,
{
}

/// Attempts move to strictly larger nonces, all below `EXPORT_ATTEMPTS`, so
/// at most that many attempts are made, each under its own file name.
pub proof fn lemma_export_attempts_bounded(nonce: u32, outcome: WriteOutcome, millis: u128)
    ensures
        export_step_spec(nonce, outcome) matches ExportStep::TryNonce(n) ==> nonce < n
            < EXPORT_ATTEMPTS && diagnostics_file_name_spec(millis, n)
            != diagnostics_file_name_spec(millis, nonce),
{
    match export_step_spec(nonce, outcome) {
        ExportStep::TryNonce(n) => {
            lemma_file_names_unique(millis, n, nonce);
        },
        _ => {},
    }
}

/// What the health checks found.
#[derive(Debug, Clone)]
pub struct HealthSnapshot {
    pub session_type: String,
    pub pw_record_available: bool,
    pub wl_copy_available: Option<bool>,
    pub ydotool_available: bool,
    pub model_ready: bool,
}

impl HealthSnapshot {
    /// How many required components are missing: the recorder and the model.
    pub open spec fn failures(&self) -> nat {
        (if !self.pw_record_available {
            1nat
        } else {
            0nat
        }) + (if !self.model_ready {
            1nat
        } else {
            0nat
        })
    }

    pub fn failure_count(&self) -> (r: usize)
        ensures
            r == self.failures(),
    {
        let mut failures: usize = 0;
        if !self.pw_record_available {
            failures += 1;
        }
        if !self.model_ready {
            failures += 1;
        }
        failures
    }
}

/// The failing checks are counted independently: a missing recorder and a
/// missing model each count once, so the checks pass exactly when both are
/// present; the other probes never count.
pub proof fn lemma_failures_counted(h: HealthSnapshot, g: HealthSnapshot)
    ensures
        h.failures() <= 2,
        h.failures() == 0 <==> (h.pw_record_available && h.model_ready),
        !h.model_ready ==> h.failures() >= 1,
        !h.pw_record_available ==> h.failures() >= 1,
        !h.pw_record_available && !h.model_ready ==> h.failures() == 2,
        h.pw_record_available != h.model_ready ==> h.failures() == 1,
        h.pw_record_available == g.pw_record_available && h.model_ready == g.model_ready
            ==> h.failures() == g.failures(),
{
}

/// Builds the health snapshot from what was probed: the session type variable
/// (`unknown` when unset), whether `WAYLAND_DISPLAY` is set, whether the
/// `pw-record`, `wl-copy` and `ydotool` programs were found, and whether the
/// model file is ready. `wl-copy` is only reported in a Wayland session.
pub fn collect_health(
    session_var: Option<&str>,
    wayland_display_set: bool,
    pw_record_found: bool,
    wl_copy_found: bool,
    ydotool_found: bool,
    model_ready: bool,
) -> (r: HealthSnapshot)
    ensures
        r.session_type@ == (match session_var {
            Some(s) => s@,
            None => "unknown"@,
        }),
        r.pw_record_available == pw_record_found,
        r.wl_copy_available == (if crate::text::eq_ignore_ascii_case(r.session_type@, "wayland"@)
            || wayland_display_set {
            Some(wl_copy_found)
        } else {
            None
        }),
        r.ydotool_available == ydotool_found,
        r.model_ready == model_ready,
{
    let session_type = match session_var {
        Some(s) => String::from_str(s),
        None => String::from_str("unknown"),
    };
    let is_wayland = crate::text::str_eq_ignore_ascii_case(session_type.as_str(), "wayland")
        || wayland_display_set;
    HealthSnapshot {
        session_type,
        pw_record_available: pw_record_found,
        wl_copy_available: if is_wayland {
            Some(wl_copy_found)
        } else {
            None
        },
        ydotool_available: ydotool_found,
        model_ready,
    }
}

/// `available` or `missing`.
pub open spec fn status_word(available: bool) -> Seq<char> {
    if available {
        "available"@
    } else {
        "missing"@
    }
}

fn bool_status(available: bool) -> (r: &'static str)
    ensures
        r@ == status_word(available),
{
    if available {
        "available"
    } else {
        "missing"
    }
}

/// The lines of the health panel.
pub open spec fn health_lines_spec(h: HealthSnapshot) -> Seq<Seq<char>> {
    seq![
        "Session type: "@ + (if trimmed(h.session_type@).len() == 0 {
            "unknown"@
        } else {
            h.session_type@
        }),
        "pw-record: "@ + status_word(h.pw_record_available),
        match h.wl_copy_available {
            Some(b) => "wl-copy: "@ + status_word(b),
            None => "wl-copy: n/a (non-Wayland session)"@,
        },
        "ydotool: "@ + status_word(h.ydotool_available),
        "model file: "@ + status_word(h.model_ready),
    ]
}

pub fn health_lines(health: &HealthSnapshot) -> (r: Vec<String>)
    ensures
        string_views(r@) == health_lines_spec(*health),
{
    let mut lines: Vec<String> = Vec::new();
    let sv = to_chars(health.session_type.as_str());
    let st = trim_chars(&sv);
    let session = if st.len() == 0 {
        "unknown"
    } else {
        health.session_type.as_str()
    };
    lines.push(crate::text::concat_str("Session type: ", session));
    lines.push(crate::text::concat_str("pw-record: ", bool_status(health.pw_record_available)));
    match health.wl_copy_available {
        Some(b) => lines.push(crate::text::concat_str("wl-copy: ", bool_status(b))),
        None => lines.push(String::from_str("wl-copy: n/a (non-Wayland session)")),
    }
    lines.push(crate::text::concat_str("ydotool: ", bool_status(health.ydotool_available)));
    lines.push(crate::text::concat_str("model file: ", bool_status(health.model_ready)));
    assert(string_views(lines@) =~= health_lines_spec(*health));
    lines
}

/// The version of the application named in the report.
pub open spec fn app_version() -> Seq<char> {
    "0.1.0"@
}

/// `true` or `false`.
pub open spec fn bool_text(b: bool) -> Seq<char> {
    if b {
        "true"@
    } else {
        "false"@
    }
}

fn bool_str(b: bool) -> (r: &'static str)
    ensures
        r@ == bool_text(b),
{
    if b {
        "true"
    } else {
        "false"
    }
}

/// The line of the report for one recorded error.
pub open spec fn entry_line(e: (u64, Seq<char>, Seq<char>)) -> Seq<char> {
    "  - ["@ + decimal(e.0 as nat) + "] ["@ + e.1 + "] "@ + e.2
}

/// The lines listing the recorded errors.
pub open spec fn error_lines(errors: Seq<(u64, Seq<char>, Seq<char>)>) -> Seq<Seq<char>> {
    if errors.len() == 0 {
        seq!["  - none"@]
    } else {
        Seq::new(errors.len(), |i: int| entry_line(errors[i]))
    }
}

/// The lines of the diagnostics report generated at `generated_at`.
pub open spec fn bundle_lines(
    config: AppConfig,
    health: HealthSnapshot,
    errors: Seq<(u64, Seq<char>, Seq<char>)>,
    generated_at: u64,
) -> Seq<Seq<char>> {
    seq![
        "Vdora diagnostics bundle"@,
        "generated_at_unix: "@ + decimal(generated_at as nat),
        "app_version: "@ + app_version(),
        "session_type: "@ + health.session_type@,
        "model_path: "@ + config.model_path@,
        "language: "@ + match config.language {
            Some(l) => l@,
            None => "auto"@,
        },
        "autopaste_enabled: "@ + bool_text(config.autopaste),
        "hotkey: "@ + config.hotkey@,
        "log_level: "@ + config.log_level.name(),
        "pw_record_available: "@ + bool_text(health.pw_record_available),
        "wl_copy_available: "@ + match health.wl_copy_available {
            Some(b) => bool_text(b),
            None => "n/a"@,
        },
        "ydotool_available: "@ + bool_text(health.ydotool_available),
        "model_ready: "@ + bool_text(health.model_ready),
        "errors:"@,
    ] + error_lines(errors)
}

/// The diagnostics report: its lines joined by line breaks.
pub open spec fn bundle_text(
    config: AppConfig,
    health: HealthSnapshot,
    errors: Seq<(u64, Seq<char>, Seq<char>)>,
    generated_at: u64,
) -> Seq<char> {
    join(bundle_lines(config, health, errors, generated_at), "\n"@)
}

/// The line of the report for one recorded error.
fn entry_line_chars(e: &ReportEntry) -> (r: Vec<char>)
    ensures
        r@ == entry_line(e@),
{
    let mut v = to_chars("  - [");
    push_decimal(&mut v, e.unix_seconds as u128);
    append_str(&mut v, "] [");
    append_str(&mut v, e.source.as_str());
    append_str(&mut v, "] ");
    append_str(&mut v, e.message.as_str());
    v
}

/// The diagnostics report for the given settings, health and errors, stamped
/// with `generated_at`.
pub fn diagnostics_bundle_at(
    config: &AppConfig,
    health: &HealthSnapshot,
    errors: &[ReportEntry],
    generated_at: u64,
) -> (r: String)
    ensures
        r@ == bundle_text(*config, *health, entry_views(errors@), generated_at),
{
    let mut lines: Vec<Vec<char>> = Vec::new();
    lines.push(to_chars("Vdora diagnostics bundle"));
    let mut g = to_chars("generated_at_unix: ");
    push_decimal(&mut g, generated_at as u128);
    lines.push(g);
    lines.push(to_chars("app_version: 0.1.0"));
    lines.push(concat_chars("session_type: ", health.session_type.as_str()));
    lines.push(concat_chars("model_path: ", config.model_path.as_str()));
    let lang = match &config.language {
        Some(l) => l.as_str(),
        None => "auto",
    };
    lines.push(concat_chars("language: ", lang));
    lines.push(concat_chars("autopaste_enabled: ", bool_str(config.autopaste)));
    lines.push(concat_chars("hotkey: ", config.hotkey.as_str()));
    lines.push(concat_chars("log_level: ", config.log_level.as_ui_label()));
    lines.push(concat_chars("pw_record_available: ", bool_str(health.pw_record_available)));
    let wl = match health.wl_copy_available {
        Some(b) => bool_str(b),
        None => "n/a",
    };
    lines.push(concat_chars("wl_copy_available: ", wl));
    lines.push(concat_chars("ydotool_available: ", bool_str(health.ydotool_available)));
    lines.push(concat_chars("model_ready: ", bool_str(health.model_ready)));
    lines.push(to_chars("errors:"));
    let ghost head = vec_views(lines@);
    proof {
        reveal_strlit("app_version: 0.1.0");
        reveal_strlit("app_version: ");
        reveal_strlit("0.1.0");
        assert("app_version: 0.1.0"@ =~= "app_version: "@ + app_version());
    }
    let ghost errs = entry_views(errors@);
    if errors.len() == 0 {
        lines.push(to_chars("  - none"));
        assert(vec_views(lines@) =~= head + error_lines(errs));
    } else {
        let n = errors.len();
        let ghost h = lines@;
        for i in 0..n
            invariant
                n == errors.len(),
                n > 0,
                errs == entry_views(errors@),
                lines@.len() == h.len() + i,
                forall|k: int| 0 <= k < h.len() ==> #[trigger] lines@[k] == h[k],
                forall|k: int| 0 <= k < i ==> #[trigger] lines@[h.len() + k]@ == entry_line(errs[k]),
        {
            lines.push(entry_line_chars(&errors[i]));
        }
        assert(vec_views(h) == head);
        assert forall|k: int| 0 <= k < lines@.len() implies #[trigger] vec_views(lines@)[k] == (
        head + error_lines(errs))[k] by {
            if k < h.len() {
                assert(lines@[k] == h[k]);
                assert(vec_views(h)[k] == h[k]@);
            } else {
                assert(lines@[h.len() + (k - h.len())]@ == entry_line(errs[k - h.len()]));
            }
        }
        assert(vec_views(lines@) =~= head + error_lines(errs));
    }
    assert(head =~= seq![
        "Vdora diagnostics bundle"@,
        "generated_at_unix: "@ + decimal(generated_at as nat),
        "app_version: "@ + app_version(),
        "session_type: "@ + health.session_type@,
        "model_path: "@ + config.model_path@,
        "language: "@ + match config.language {
            Some(l) => l@,
            None => "auto"@,
        },
        "autopaste_enabled: "@ + bool_text(config.autopaste),
        "hotkey: "@ + config.hotkey@,
        "log_level: "@ + config.log_level.name(),
        "pw_record_available: "@ + bool_text(health.pw_record_available),
        "wl_copy_available: "@ + match health.wl_copy_available {
            Some(b) => bool_text(b),
            None => "n/a"@,
        },
        "ydotool_available: "@ + bool_text(health.ydotool_available),
        "model_ready: "@ + bool_text(health.model_ready),
        "errors:"@,
    ]);
    let out = join_chars(&lines, "\n");
    from_chars(&out)
}

/// The diagnostics report for the given settings, health and errors, stamped
/// with the current time.
pub fn diagnostics_bundle(config: &AppConfig, health: &HealthSnapshot, errors: &[ReportEntry]) -> (r:
    String)
    ensures
        exists|t: u64| r@ == bundle_text(*config, *health, entry_views(errors@), t),
{
    let t = now_unix_seconds();
    diagnostics_bundle_at(config, health, errors, t)
}

/// The line of the error list for one recorded error.
pub open spec fn recent_error_line(e: (u64, Seq<char>, Seq<char>)) -> Seq<char> {
    "["@ + decimal(e.0 as nat) + "] "@ + e.1 + ": "@ + e.2
}

/// The error list of the diagnostics page: newest first, one per line, or a
/// note that there are none.
pub open spec fn recent_errors_spec(errors: Seq<(u64, Seq<char>, Seq<char>)>) -> Seq<char> {
    if errors.len() == 0 {
        "No recent errors"@
    } else {
        join(
            Seq::new(errors.len(), |i: int| recent_error_line(errors[errors.len() - 1 - i])),
            "\n"@,
        )
    }
}

pub fn recent_errors_text(errors: &[ReportEntry]) -> (r: String)
    ensures
        r@ == recent_errors_spec(entry_views(errors@)),
{
    let n = errors.len();
    if n == 0 {
        return String::from_str("No recent errors");
    }
    let ghost errs = entry_views(errors@);
    let mut lines: Vec<Vec<char>> = Vec::new();
    let mut k = n;
    while k > 0
        invariant
            n == errors.len(),
            k <= n,
            errs == entry_views(errors@),
            lines@.len() == n - k,
            forall|i: int| 0 <= i < n - k ==> #[trigger] lines@[i]@ == recent_error_line(
                errs[n - 1 - i],
            ),
        decreases k,
    {
        k -= 1;
        let e = &errors[k];
        let mut v = to_chars("[");
        push_decimal(&mut v, e.unix_seconds as u128);
        append_str(&mut v, "] ");
        append_str(&mut v, e.source.as_str());
        append_str(&mut v, ": ");
        append_str(&mut v, e.message.as_str());
        assert(errs[k as int] == e@);
        lines.push(v);
    }
    assert(vec_views(lines@) =~= Seq::new(n as nat, |i: int| recent_error_line(errs[n - 1 - i])));
    let out = join_chars(&lines, "\n");
    from_chars(&out)
}

/// The name of the diagnostics file written at `now_millis`; attempts after
/// the first add `-nonce` so that each attempt has its own name.
pub open spec fn diagnostics_file_name_spec(now_millis: u128, nonce: u32) -> Seq<char> {
    if nonce == 0 {
        "diagnostics-"@ + decimal(now_millis as nat) + ".log"@
    } else {
        "diagnostics-"@ + decimal(now_millis as nat) + "-"@ + decimal(nonce as nat) + ".log"@
    }
}

pub fn diagnostics_file_name(now_millis: u128, nonce: u32) -> (r: String)
    ensures
        r@ == diagnostics_file_name_spec(now_millis, nonce),
{
    let mut v = to_chars("diagnostics-");
    push_decimal(&mut v, now_millis);
    if nonce != 0 {
        append_str(&mut v, "-");
        push_decimal(&mut v, nonce as u128);
    }
    append_str(&mut v, ".log");
    from_chars(&v)
}

/// Different attempts made at the same moment use different file names, and
/// every name ends with `.log`.
pub proof fn lemma_file_names_unique(now_millis: u128, a: u32, b: u32)
    requires
        a != b,
    ensures
        diagnostics_file_name_spec(now_millis, a) != diagnostics_file_name_spec(now_millis, b),
        crate::text::has_suffix(diagnostics_file_name_spec(now_millis, a), ".log"@),
{
    reveal_strlit("diagnostics-");
    reveal_strlit(".log");
    reveal_strlit("-");
    let p = "diagnostics-"@ + decimal(now_millis as nat);
    let na = diagnostics_file_name_spec(now_millis, a);
    let nb = diagnostics_file_name_spec(now_millis, b);
    crate::text::lemma_decimal(a as nat);
    crate::text::lemma_decimal(b as nat);
    crate::text::lemma_decimal(now_millis as nat);
    let pl = p.len() as int;
    assert(na.subrange(na.len() - 4, na.len() as int) =~= ".log"@);
    if a == 0 {
        // the name of the first attempt has `.` where the other has `-`
        assert(na[pl] == '.');
        assert(nb[pl] == '-');
    } else if b == 0 {
        assert(nb[pl] == '.');
        assert(na[pl] == '-');
    } else {
        if na == nb {
            let da = decimal(a as nat);
            let db = decimal(b as nat);
            assert(na.len() == nb.len());
            assert(da.len() == db.len());
            assert(na.subrange(pl + 1, pl + 1 + da.len()) =~= da);
            assert(nb.subrange(pl + 1, pl + 1 + db.len()) =~= db);
            crate::text::lemma_decimal_injective(a as nat, b as nat);
        }
    }
}

} // verus!
