//! The one-shot command line mode: its arguments, the small state file that
//! lets a second invocation stop a running recording, and the decisions made
//! around them.
use vstd::prelude::*;

use crate::text::string_views;
use crate::text::{
    all_digits, append_str, chars_equal_str, decimal, file_name, file_name_of,
    from_chars, lemma_split_on_nonempty, parse_u32_chars, parse_u64_chars, parse_unsigned,
    push_decimal, slice_chars, split_on, to_chars, trim_chars, trimmed,
};

verus! {

/// Recording length, in seconds, when none is given.
pub const DEFAULT_DURATION_SECS: u64 = 30;

/// The file name of the model that is downloaded when missing.
pub const DEFAULT_MODEL_FILE: &'static str = "ggml-base.en.bin";

/// How a one-shot run behaves.
#[derive(Debug)]
pub struct Options {
    /// Longest recording, in seconds.
    pub duration_secs: u64,
    /// Whether desktop notifications are off.
    pub no_notify: bool,
}

/// What the command line asks for.
#[derive(Debug)]
pub enum Mode {
    Gui,
    Help,
    Run(Options),
}

/// Why the command line was refused.
#[derive(Debug)]
pub enum ArgError {
    /// An option that takes a value came last; it holds the option.
    MissingValue(String),
    /// A duration that is not a number of seconds; it holds the value.
    InvalidDuration(String),
    /// An argument that is not known; it holds the argument.
    UnknownArgument(String),
    /// A one-shot run of zero seconds.
    ZeroDuration,
}

/// An argument error, with its texts as character sequences.
pub enum ArgErrorView {
    MissingValue(Seq<char>),
    InvalidDuration(Seq<char>),
    UnknownArgument(Seq<char>),
    ZeroDuration,
}

impl View for ArgError {
    type V = ArgErrorView;

    open spec fn view(&self) -> ArgErrorView {
        match self {
            ArgError::MissingValue(a) => ArgErrorView::MissingValue(a@),
            ArgError::InvalidDuration(v) => ArgErrorView::InvalidDuration(v@),
            ArgError::UnknownArgument(a) => ArgErrorView::UnknownArgument(a@),
            ArgError::ZeroDuration => ArgErrorView::ZeroDuration,
        }
    }
}

impl ArgError {
    /// The message shown for this error.
    pub open spec fn message_spec(&self) -> Seq<char> {
        match self@ {
            ArgErrorView::MissingValue(a) => a + " requires a value in seconds"@,
            ArgErrorView::InvalidDuration(v) => "invalid duration: "@ + v,
            ArgErrorView::UnknownArgument(a) => "unknown argument: "@ + a,
            ArgErrorView::ZeroDuration => "duration must be greater than zero"@,
        }
    }

    pub fn message(&self) -> (r: String)
        ensures
            r@ == self.message_spec(),
    {
        match self {
            ArgError::MissingValue(a) => crate::text::concat_str(
                a.as_str(),
                " requires a value in seconds",
            ),
            ArgError::InvalidDuration(v) => crate::text::concat_str("invalid duration: ", v.as_str()),
            ArgError::UnknownArgument(a) => crate::text::concat_str(
                "unknown argument: ",
                a.as_str(),
            ),
            ArgError::ZeroDuration => String::from_str("duration must be greater than zero"),
        }
    }
}

/// What a mode is, with plain values.
pub enum ModeView {
    Gui,
    Help,
    Run { duration_secs: u64, no_notify: bool },
}

impl View for Mode {
    type V = ModeView;

    open spec fn view(&self) -> ModeView {
        match self {
            Mode::Gui => ModeView::Gui,
            Mode::Help => ModeView::Help,
            Mode::Run(o) => ModeView::Run { duration_secs: o.duration_secs, no_notify: o.no_notify },
        }
    }
}

/// Where reading the arguments ends.
pub enum ArgOutcome {
    Help,
    Fail(ArgErrorView),
    Finish { oneshot: bool, duration: u64, no_notify: bool },
}

/// Reads `args` from index `i` on, with the flags gathered so far.
pub open spec fn scan_args(
    args: Seq<Seq<char>>,
    i: int,
    oneshot: bool,
    duration: u64,
    no_notify: bool,
) -> ArgOutcome
    decreases args.len() - i,
{
    if i < 0 || i >= args.len() {
        ArgOutcome::Finish { oneshot, duration, no_notify }
    } else {
        let a = args[i];
        if a == "--oneshot"@ || a == "voice"@ {
            scan_args(args, i + 1, true, duration, no_notify)
        } else if a == "--duration"@ || a == "-d"@ {
            if i + 1 >= args.len() {
                ArgOutcome::Fail(ArgErrorView::MissingValue(a))
            } else {
                match parse_unsigned(args[i + 1], u64::MAX as nat) {
                    Some(v) => scan_args(args, i + 2, oneshot, v as u64, no_notify),
                    None => ArgOutcome::Fail(ArgErrorView::InvalidDuration(args[i + 1])),
                }
            }
        } else if a == "--no-notify"@ {
            scan_args(args, i + 1, oneshot, duration, true)
        } else if a == "--help"@ || a == "-h"@ {
            ArgOutcome::Help
        } else {
            ArgOutcome::Fail(ArgErrorView::UnknownArgument(a))
        }
    }
}

/// What the arguments (program name excluded) ask for.
pub open spec fn mode_of(args: Seq<Seq<char>>) -> Result<ModeView, ArgErrorView> {
    match scan_args(args, 0, false, DEFAULT_DURATION_SECS, false) {
        ArgOutcome::Help => Ok(ModeView::Help),
        ArgOutcome::Fail(e) => Err(e),
        ArgOutcome::Finish { oneshot, duration, no_notify } => if !oneshot {
            Ok(ModeView::Gui)
        } else if duration == 0 {
            Err(ArgErrorView::ZeroDuration)
        } else {
            Ok(ModeView::Run { duration_secs: duration, no_notify })
        },
    }
}

/// Reads the command line (program name excluded): `--oneshot`/`voice`
/// selects a one-shot run, `--duration`/`-d SECONDS` its length,
/// `--no-notify` silences notifications, `--help`/`-h` asks for help; with no
/// one-shot flag the window opens.
pub fn parse_args(args: &Vec<String>) -> (r: Result<Mode, ArgError>)
    ensures
        match r {
            Ok(m) => mode_of(string_views(args@)) == Ok::<ModeView, ArgErrorView>(m@),
            Err(e) => mode_of(string_views(args@)) == Err::<ModeView, ArgErrorView>(e@),
        },
{
    let ghost sv = string_views(args@);
    let n = args.len();
    let mut i: usize = 0;
    let mut oneshot = false;
    let mut duration: u64 = DEFAULT_DURATION_SECS;
    let mut no_notify = false;
    while i < n
        invariant
            n == args.len(),
            sv == string_views(args@),
            i <= n,
            scan_args(sv, i as int, oneshot, duration, no_notify) == scan_args(
                sv,
                0,
                false,
                DEFAULT_DURATION_SECS,
                false,
            ),
        decreases n - i,
    {
        let a = args[i].as_str();
        let av = to_chars(a);
        assert(av@ == sv[i as int]);
        if chars_equal_str(&av, "--oneshot") || chars_equal_str(&av, "voice") {
            oneshot = true;
            i += 1;
        } else if chars_equal_str(&av, "--duration") || chars_equal_str(&av, "-d") {
            if i + 1 >= n {
                return Err(ArgError::MissingValue(String::from_str(a)));
            }
            let vv = to_chars(args[i + 1].as_str());
            assert(vv@ == sv[i + 1]);
            match parse_u64_chars(&vv) {
                Some(v) => {
                    duration = v;
                    i += 2;
                },
                None => {
                    return Err(ArgError::InvalidDuration(args[i + 1].clone()));
                },
            }
        } else if chars_equal_str(&av, "--no-notify") {
            no_notify = true;
            i += 1;
        } else if chars_equal_str(&av, "--help") || chars_equal_str(&av, "-h") {
            return Ok(Mode::Help);
        } else {
            return Err(ArgError::UnknownArgument(String::from_str(a)));
        }
    }
    if !oneshot {
        return Ok(Mode::Gui);
    }
    if duration == 0 {
        return Err(ArgError::ZeroDuration);
    }
    Ok(Mode::Run(Options { duration_secs: duration, no_notify }))
}

proof fn lemma_scan_help_after_flags(
    args: Seq<Seq<char>>,
    k: int,
    i: int,
    oneshot: bool,
    duration: u64,
    no_notify: bool,
)
    requires
        0 <= i <= k < args.len(),
        forall|j: int|
            i <= j < k ==> (#[trigger] args[j] == "--oneshot"@ || args[j] == "voice"@ || args[j]
                == "--no-notify"@),
        args[k] == "--help"@ || args[k] == "-h"@,
    ensures
        scan_args(args, i, oneshot, duration, no_notify) is Help,
    decreases k - i,
{
    reveal_strlit("--oneshot");
    reveal_strlit("voice");
    reveal_strlit("--duration");
    reveal_strlit("-d");
    reveal_strlit("--no-notify");
    reveal_strlit("--help");
    reveal_strlit("-h");
    assert("--help"@.len() == 6 && "--oneshot"@.len() == 9 && "voice"@.len() == 5
        && "--duration"@.len() == 10 && "-d"@.len() == 2 && "--no-notify"@.len() == 11);
    assert("--help"@ != "--oneshot"@ && "--help"@ != "voice"@ && "--help"@ != "--duration"@
        && "--help"@ != "-d"@ && "--help"@ != "--no-notify"@);
    assert("-h"@ != "--oneshot"@ && "-h"@ != "voice"@ && "-h"@ != "--duration"@ && "-h"@ != "-d"@
        && "-h"@ != "--no-notify"@) by {
        assert("-h"@[1] != "-d"@[1]);
    }
    assert("--no-notify"@ != "--oneshot"@ && "--no-notify"@ != "voice"@ && "--no-notify"@
        != "--duration"@ && "--no-notify"@ != "-d"@);
    assert("voice"@ != "--duration"@ && "voice"@ != "-d"@ && "--oneshot"@ != "--duration"@
        && "--oneshot"@ != "-d"@);
    if i < k {
        let a = args[i];
        assert(a == "--oneshot"@ || a == "voice"@ || a == "--no-notify"@);
        if a == "--no-notify"@ {
            lemma_scan_help_after_flags(args, k, i + 1, oneshot, duration, true);
        } else {
            lemma_scan_help_after_flags(args, k, i + 1, true, duration, no_notify);
        }
    }
}

/// What the command line gives, whatever follows: `--help` or `-h`, met
/// after nothing but `--oneshot`, `voice` and `--no-notify`, asks for help;
/// a first argument that is none of the known options is refused as unknown;
/// with no arguments the window opens, and `--oneshot` alone runs for the
/// default length with notifications.
pub proof fn lemma_command_line(args: Seq<Seq<char>>, k: int)
    ensures
        (0 <= k < args.len() && (forall|j: int|
            0 <= j < k ==> (#[trigger] args[j] == "--oneshot"@ || args[j] == "voice"@ || args[j]
                == "--no-notify"@)) && (args[k] == "--help"@ || args[k] == "-h"@)) ==> mode_of(
            args,
        ) == Ok::<ModeView, ArgErrorView>(ModeView::Help),
        (args.len() > 0 && args[0] != "--oneshot"@ && args[0] != "voice"@ && args[0]
            != "--duration"@ && args[0] != "-d"@ && args[0] != "--no-notify"@ && args[0]
            != "--help"@ && args[0] != "-h"@) ==> mode_of(args) == Err::<ModeView, ArgErrorView>(
            ArgErrorView::UnknownArgument(args[0]),
        ),
        mode_of(Seq::empty()) == Ok::<ModeView, ArgErrorView>(ModeView::Gui),
        mode_of(seq!["--oneshot"@]) == Ok::<ModeView, ArgErrorView>(
            ModeView::Run { duration_secs: 30, no_notify: false },
        ),
        mode_of(seq!["--help"@]) == Ok::<ModeView, ArgErrorView>(ModeView::Help),
        mode_of(seq!["-h"@]) == Ok::<ModeView, ArgErrorView>(ModeView::Help),
{
    reveal_strlit("--oneshot");
    reveal_strlit("voice");
    reveal_strlit("--duration");
    reveal_strlit("-d");
    reveal_strlit("--no-notify");
    reveal_strlit("--help");
    reveal_strlit("-h");
    if 0 <= k < args.len() && (forall|j: int|
        0 <= j < k ==> (#[trigger] args[j] == "--oneshot"@ || args[j] == "voice"@ || args[j]
            == "--no-notify"@)) && (args[k] == "--help"@ || args[k] == "-h"@) {
        lemma_scan_help_after_flags(args, k, 0, false, DEFAULT_DURATION_SECS, false);
    }
    let one = seq!["--oneshot"@];
    assert(scan_args(one, 1, true, DEFAULT_DURATION_SECS, false) is Finish);
    lemma_scan_help_after_flags(seq!["--help"@], 0, 0, false, DEFAULT_DURATION_SECS, false);
    lemma_scan_help_after_flags(seq!["-h"@], 0, 0, false, DEFAULT_DURATION_SECS, false);
}

// ---------------------------------------------------------------------------
// The state file
// ---------------------------------------------------------------------------

/// What a running one-shot invocation records about itself.
#[derive(Debug)]
pub struct State {
    pub parent_pid: Option<u32>,
    pub recorder_pid: Option<u32>,
    pub phase: Option<String>,
}

/// A state, with its texts as character sequences.
pub struct StateView {
    pub parent_pid: Option<u32>,
    pub recorder_pid: Option<u32>,
    pub phase: Option<Seq<char>>,
}

impl View for State {
    type V = StateView;

    open spec fn view(&self) -> StateView {
        StateView {
            parent_pid: self.parent_pid,
            recorder_pid: self.recorder_pid,
            phase: match self.phase {
                Some(p) => Some(p@),
                None => None,
            },
        }
    }
}

impl Default for State {
    fn default() -> (r: Self)
        ensures
            r.parent_pid is None,
            r.recorder_pid is None,
            r.phase is None,
    {
        State { parent_pid: None, recorder_pid: None, phase: None }
    }
}

/// The empty state.
pub open spec fn empty_state() -> StateView {
    StateView { parent_pid: None, recorder_pid: None, phase: None }
}

/// A process id read from the state file: a decimal `u32`, with 0 meaning
/// none.
pub open spec fn pid_value(v: Seq<char>) -> Option<u32> {
    match parse_unsigned(v, u32::MAX as nat) {
        Some(n) => if n == 0 {
            None
        } else {
            Some(n as u32)
        },
        None => None,
    }
}

/// Reads a process id: a decimal `u32` other than 0.
pub fn parse_pid(value: &str) -> (r: Option<u32>)
    ensures
        r == pid_value(value@),
{
    let v = to_chars(value);
    parse_pid_chars(&v)
}

fn parse_pid_chars(v: &Vec<char>) -> (r: Option<u32>)
    ensures
        r == pid_value(v@),
{
    match parse_u32_chars(v) {
        Some(0) => None,
        Some(p) => Some(p),
        None => None,
    }
}

/// The index of the first `c` in `s`, or -1.
pub open spec fn index_of(s: Seq<char>, c: char) -> int
    decreases s.len(),
{
    if s.len() == 0 {
        -1
    } else {
        let p = index_of(s.drop_last(), c);
        if p >= 0 {
            p
        } else if s.last() == c {
            s.len() - 1
        } else {
            -1
        }
    }
}

/// `index_of` finds the first occurrence.
proof fn lemma_index_of(s: Seq<char>, c: char)
    ensures
        -1 <= index_of(s, c) < s.len(),
        index_of(s, c) >= 0 ==> s[index_of(s, c)] == c,
        forall|j: int| 0 <= j < s.len() && (index_of(s, c) < 0 || j < index_of(s, c)) ==> s[j] != c,
    decreases s.len(),
{
    if s.len() > 0 {
        lemma_index_of(s.drop_last(), c);
        assert forall|j: int|
            0 <= j < s.len() && (index_of(s, c) < 0 || j < index_of(s, c)) implies s[j] != c by {
            if j < s.len() - 1 {
                assert(s[j] == s.drop_last()[j]);
            }
        }
    }
}

/// A text without `c` up to position `k`, with `c` at `k`, finds it there.
proof fn lemma_index_of_at(s: Seq<char>, c: char, k: int)
    requires
        0 <= k < s.len(),
        s[k] == c,
        forall|j: int| 0 <= j < k ==> s[j] != c,
    ensures
        index_of(s, c) == k,
{
    lemma_index_of(s, c);
}

/// The state after reading one line `key=value` of the state file; other
/// lines change nothing.
#[verifier::opaque]
pub open spec fn apply_line(st: StateView, line: Seq<char>) -> StateView {
    let k = index_of(line, '=');
    if k < 0 {
        st
    } else {
        let key = line.take(k);
        let value = line.skip(k + 1);
        if key == "parent_pid"@ {
            StateView { parent_pid: pid_value(value), recorder_pid: st.recorder_pid, phase: st.phase }
        } else if key == "recorder_pid"@ {
            StateView { parent_pid: st.parent_pid, recorder_pid: pid_value(value), phase: st.phase }
        } else if key == "phase"@ {
            StateView { parent_pid: st.parent_pid, recorder_pid: st.recorder_pid, phase: Some(value) }
        } else {
            st
        }
    }
}

/// The state after reading the lines `ls` in order.
pub open spec fn apply_lines(ls: Seq<Seq<char>>) -> StateView
    decreases ls.len(),
{
    if ls.len() == 0 {
        empty_state()
    } else {
        apply_line(apply_lines(ls.drop_last()), ls.last())
    }
}

/// A line without its carriage return, if it has one at its end.
pub open spec fn strip_cr(l: Seq<char>) -> Seq<char> {
    if l.len() > 0 && l.last() == '\r' {
        l.drop_last()
    } else {
        l
    }
}

/// The lines ended by a line feed, without their line ending.
pub open spec fn ended_lines(s: Seq<char>) -> Seq<Seq<char>> {
    let p = split_on(s, '\n');
    Seq::new((p.len() - 1) as nat, |i: int| strip_cr(p[i]))
}

/// The lines of `s`, as `str::lines` yields them: each line ended by `\n` or
/// `\r\n`, then what follows the last line feed if it is not empty.
pub open spec fn lines_of(s: Seq<char>) -> Seq<Seq<char>> {
    let p = split_on(s, '\n');
    if p.last().len() > 0 {
        ended_lines(s).push(p.last())
    } else {
        ended_lines(s)
    }
}

/// The state that the contents of a state file describe.
pub open spec fn parsed_state(s: Seq<char>) -> StateView {
    apply_lines(lines_of(s))
}

/// Reads one line into the state.
fn apply_line_exec(st: &mut State, line: &Vec<char>)
    ensures
        final(st)@ == apply_line(old(st)@, line@),
{
    reveal(apply_line);
    let n = line.len();
    let mut k: usize = 0;
    while k < n && line[k] != '='
        invariant
            n == line.len(),
            k <= n,
            forall|j: int| 0 <= j < k ==> line@[j] != '=',
        decreases n - k,
    {
        k += 1;
    }
    proof {
        lemma_index_of(line@, '=');
        if k < n {
            lemma_index_of_at(line@, '=', k as int);
        }
    }
    if k == n {
        return;
    }
    let key = slice_chars(line, 0, k);
    let value = slice_chars(line, k + 1, n);
    assert(key@ =~= line@.take(k as int));
    assert(value@ =~= line@.skip(k + 1));
    if chars_equal_str(&key, "parent_pid") {
        st.parent_pid = parse_pid_chars(&value);
    } else if chars_equal_str(&key, "recorder_pid") {
        st.recorder_pid = parse_pid_chars(&value);
    } else if chars_equal_str(&key, "phase") {
        st.phase = Some(from_chars(&value));
    }
}

/// The state that the contents of a state file describe.
pub fn parse_state(contents: &str) -> (r: State)
    ensures
        r@ == parsed_state(contents@),
{
    let v = to_chars(contents);
    let n = v.len();
    let mut st = State::default();
    let mut cur: Vec<char> = Vec::new();
    proof {
        assert(v@.take(0) =~= Seq::<char>::empty());
        assert(ended_lines(Seq::<char>::empty()) =~= Seq::<Seq<char>>::empty());
    }
    for i in 0..n
        invariant
            n == v.len(),
            v@ == contents@,
            st@ == apply_lines(ended_lines(v@.take(i as int))),
            cur@ == split_on(v@.take(i as int), '\n').last(),
    {
        let ghost pre = v@.take(i as int);
        let ghost next = v@.take(i + 1);
        assert(next =~= pre.push(v@[i as int]));
        assert(next.drop_last() =~= pre);
        proof {
            lemma_split_on_nonempty(pre, '\n');
        }
        if v[i] == '\n' {
            let m = cur.len();
            let line = if m > 0 && cur[m - 1] == '\r' {
                slice_chars(&cur, 0, m - 1)
            } else {
                slice_chars(&cur, 0, m)
            };
            assert(line@ =~= strip_cr(cur@));
            apply_line_exec(&mut st, &line);
            cur = Vec::new();
            proof {
                let p = split_on(pre, '\n');
                assert(split_on(next, '\n') == p.push(Seq::empty()));
                assert(ended_lines(next) =~= ended_lines(pre).push(strip_cr(p.last())));
                assert(ended_lines(next).drop_last() =~= ended_lines(pre));
                assert(cur@ =~= split_on(next, '\n').last());
            }
        } else {
            cur.push(v[i]);
            proof {
                let p = split_on(pre, '\n');
                let q = split_on(next, '\n');
                assert(q == p.update(p.len() - 1, p.last().push(v@[i as int])));
                assert(ended_lines(next) =~= ended_lines(pre));
            }
        }
    }
    assert(v@.take(n as int) =~= v@);
    if cur.len() > 0 {
        apply_line_exec(&mut st, &cur);
        proof {
            assert(lines_of(v@).drop_last() =~= ended_lines(v@));
        }
    }
    st
}

/// The text of the phase as the state file holds it (empty when none).
pub open spec fn phase_text(p: Option<Seq<char>>) -> Seq<char> {
    match p {
        Some(t) => t,
        None => Seq::empty(),
    }
}

/// A process id as the state file holds it (0 when none).
pub open spec fn pid_number(p: Option<u32>) -> nat {
    match p {
        Some(n) => n as nat,
        None => 0,
    }
}

/// The contents of the state file for a state.
pub open spec fn rendered_state(st: StateView) -> Seq<char> {
    "parent_pid="@ + decimal(pid_number(st.parent_pid)) + "\n"@ + "recorder_pid="@ + decimal(
        pid_number(st.recorder_pid),
    ) + "\n"@ + "phase="@ + phase_text(st.phase) + "\n"@
}

/// The contents of the state file for `state`.
pub fn render_state(state: &State) -> (r: String)
    ensures
        r@ == rendered_state(state@),
{
    let mut v = to_chars("parent_pid=");
    let pp: u32 = match state.parent_pid {
        Some(p) => p,
        None => 0,
    };
    push_decimal(&mut v, pp as u128);
    append_str(&mut v, "\n");
    append_str(&mut v, "recorder_pid=");
    let rp: u32 = match state.recorder_pid {
        Some(p) => p,
        None => 0,
    };
    push_decimal(&mut v, rp as u128);
    append_str(&mut v, "\n");
    append_str(&mut v, "phase=");
    match &state.phase {
        Some(p) => append_str(&mut v, p.as_str()),
        None => {},
    }
    append_str(&mut v, "\n");
    proof {
        assert(phase_text(state@.phase) == match state.phase {
            Some(p) => p@,
            None => Seq::<char>::empty(),
        });
    }
    assert(v@ =~= rendered_state(state@));
    from_chars(&v)
}

/// Appending text without a line feed extends the last piece.
proof fn lemma_split_plain(x: Seq<char>, y: Seq<char>)
    requires
        forall|i: int| 0 <= i < y.len() ==> y[i] != '\n',
    ensures
        split_on(x + y, '\n') == split_on(x, '\n').update(
            split_on(x, '\n').len() - 1,
            split_on(x, '\n').last() + y,
        ),
    decreases y.len(),
{
    lemma_split_on_nonempty(x, '\n');
    if y.len() == 0 {
        assert(x + y =~= x);
        assert(split_on(x, '\n').last() + y =~= split_on(x, '\n').last());
        assert(split_on(x, '\n').update(split_on(x, '\n').len() - 1, split_on(x, '\n').last())
            =~= split_on(x, '\n'));
    } else {
        let y0 = y.drop_last();
        lemma_split_plain(x, y0);
        assert((x + y).drop_last() =~= x + y0);
        assert((x + y).last() == y.last());
        assert(y0.push(y.last()) =~= y);
        assert(split_on(x + y, '\n') =~= split_on(x, '\n').update(
            split_on(x, '\n').len() - 1,
            split_on(x, '\n').last() + y,
        ));
    }
}

/// Appending a line feed starts a new, empty piece.
proof fn lemma_split_newline(x: Seq<char>)
    ensures
        split_on(x + "\n"@, '\n') == split_on(x, '\n').push(Seq::empty()),
{
    reveal_strlit("\n");
    assert((x + "\n"@).drop_last() =~= x);
}

/// Reading one `key=value` line whose key holds no `=`.
proof fn lemma_apply_key_line(st: StateView, key: Seq<char>, value: Seq<char>)
    requires
        forall|i: int| 0 <= i < key.len() ==> key[i] != '=',
    ensures
        apply_line(st, key + "="@ + value) == ({
            if key == "parent_pid"@ {
                StateView {
                    parent_pid: pid_value(value),
                    recorder_pid: st.recorder_pid,
                    phase: st.phase,
                }
            } else if key == "recorder_pid"@ {
                StateView {
                    parent_pid: st.parent_pid,
                    recorder_pid: pid_value(value),
                    phase: st.phase,
                }
            } else if key == "phase"@ {
                StateView { parent_pid: st.parent_pid, recorder_pid: st.recorder_pid, phase: Some(value) }
            } else {
                st
            }
        }),
{
    reveal_strlit("=");
    reveal(apply_line);
    let l = key + "="@ + value;
    lemma_index_of_at(l, '=', key.len() as int);
    assert(l.take(key.len() as int) =~= key);
    assert(l.skip(key.len() as int + 1) =~= value);
}

/// A process id written to the state file reads back as itself.
proof fn lemma_pid_round_trip(p: Option<u32>)
    requires
        p != Some(0u32),
    ensures
        pid_value(decimal(pid_number(p))) == p,
{
    crate::text::lemma_parse_decimal(pid_number(p), u32::MAX as nat);
}

/// The three lines of the state file, without their line feeds.
spec fn state_lines(st: StateView) -> Seq<Seq<char>> {
    seq![
        "parent_pid"@ + "="@ + decimal(pid_number(st.parent_pid)),
        "recorder_pid"@ + "="@ + decimal(pid_number(st.recorder_pid)),
        "phase"@ + "="@ + phase_text(st.phase),
    ]
}

/// A numeral holds no line feed and ends in a digit.
proof fn lemma_numeral_plain(n: nat)
    ensures
        forall|i: int| 0 <= i < decimal(n).len() ==> decimal(n)[i] != '\n',
        decimal(n).len() > 0,
        decimal(n).last() != '\r',
{
    crate::text::lemma_decimal(n);
    let d = decimal(n);
    assert forall|i: int| 0 <= i < d.len() implies d[i] != '\n' by {
        assert(crate::text::is_digit(d[i]));
    }
    assert(crate::text::is_digit(d[d.len() - 1]));
}

/// `key=value` holds no line feed when neither part does.
proof fn lemma_line_plain(key: Seq<char>, value: Seq<char>)
    requires
        forall|i: int| 0 <= i < key.len() ==> key[i] != '\n',
        forall|i: int| 0 <= i < value.len() ==> value[i] != '\n',
    ensures
        forall|i: int| 0 <= i < (key + "="@ + value).len() ==> (key + "="@ + value)[i] != '\n',
{
    reveal_strlit("=");
    let l = key + "="@ + value;
    assert forall|i: int| 0 <= i < l.len() implies l[i] != '\n' by {
        if i < key.len() {
            assert(l[i] == key[i]);
        } else if i > key.len() {
            assert(l[i] == value[i - key.len() - 1]);
        }
    }
}

/// The state file splits into its three lines.
proof fn lemma_rendered_lines(st: StateView)
    requires
        forall|i: int| 0 <= i < phase_text(st.phase).len() ==> phase_text(st.phase)[i] != '\n',
        phase_text(st.phase).len() > 0 ==> phase_text(st.phase).last() != '\r',
    ensures
        lines_of(rendered_state(st)) == state_lines(st),
{
    reveal_strlit("parent_pid=");
    reveal_strlit("recorder_pid=");
    reveal_strlit("phase=");
    reveal_strlit("parent_pid");
    reveal_strlit("recorder_pid");
    reveal_strlit("phase");
    reveal_strlit("=");
    let ls = state_lines(st);
    let l1 = ls[0];
    let l2 = ls[1];
    let l3 = ls[2];
    let d1 = decimal(pid_number(st.parent_pid));
    let d2 = decimal(pid_number(st.recorder_pid));
    let ph = phase_text(st.phase);
    lemma_numeral_plain(pid_number(st.parent_pid));
    lemma_numeral_plain(pid_number(st.recorder_pid));
    lemma_line_plain("parent_pid"@, d1);
    lemma_line_plain("recorder_pid"@, d2);
    lemma_line_plain("phase"@, ph);
    assert("parent_pid="@ =~= "parent_pid"@ + "="@);
    assert("recorder_pid="@ =~= "recorder_pid"@ + "="@);
    assert("phase="@ =~= "phase"@ + "="@);
    let e = Seq::<char>::empty();
    let nl = "\n"@;
    let r = rendered_state(st);
    assert(r =~= e + l1 + nl + l2 + nl + l3 + nl);
    lemma_split_plain(e, l1);
    assert(split_on(e, '\n') =~= seq![e]);
    assert(split_on(e + l1, '\n') =~= seq![l1]);
    lemma_split_newline(e + l1);
    lemma_split_plain(e + l1 + nl, l2);
    assert(split_on(e + l1 + nl + l2, '\n') =~= seq![l1, l2]);
    lemma_split_newline(e + l1 + nl + l2);
    lemma_split_plain(e + l1 + nl + l2 + nl, l3);
    assert(split_on(e + l1 + nl + l2 + nl + l3, '\n') =~= seq![l1, l2, l3]);
    lemma_split_newline(e + l1 + nl + l2 + nl + l3);
    assert(split_on(r, '\n') =~= seq![l1, l2, l3, e]);
    assert(l1.last() == d1.last());
    assert(l2.last() == d2.last());
    if ph.len() > 0 {
        assert(l3.last() == ph.last());
    } else {
        assert(l3.last() == '=');
    }
    assert(lines_of(r) =~= seq![l1, l2, l3]);
}

/// Reading the three lines of the state file.
proof fn lemma_apply_state_lines(st: StateView)
    requires
        st.parent_pid != Some(0u32),
        st.recorder_pid != Some(0u32),
    ensures
        apply_lines(state_lines(st)) == (StateView {
            parent_pid: st.parent_pid,
            recorder_pid: st.recorder_pid,
            phase: Some(phase_text(st.phase)),
        }),
{
    reveal_strlit("parent_pid");
    reveal_strlit("recorder_pid");
    reveal_strlit("phase");
    let k1 = "parent_pid"@;
    let k2 = "recorder_pid"@;
    let k3 = "phase"@;
    let ls = state_lines(st);
    assert forall|i: int| 0 <= i < k1.len() implies k1[i] != '=' by {}
    assert forall|i: int| 0 <= i < k2.len() implies k2[i] != '=' by {}
    assert forall|i: int| 0 <= i < k3.len() implies k3[i] != '=' by {}
    let s0 = empty_state();
    lemma_apply_key_line(s0, k1, decimal(pid_number(st.parent_pid)));
    let s1 = apply_line(s0, ls[0]);
    lemma_apply_key_line(s1, k2, decimal(pid_number(st.recorder_pid)));
    let s2 = apply_line(s1, ls[1]);
    lemma_apply_key_line(s2, k3, phase_text(st.phase));
    assert(k2 != k1);
    assert(k3 != k1);
    assert(k3 != k2);
    lemma_pid_round_trip(st.parent_pid);
    lemma_pid_round_trip(st.recorder_pid);
    let a0 = Seq::<Seq<char>>::empty();
    let a1 = seq![ls[0]];
    let a2 = seq![ls[0], ls[1]];
    assert(a1.drop_last() =~= a0);
    assert(apply_lines(a0) == s0);
    assert(apply_lines(a1) == apply_line(apply_lines(a0), ls[0]));
    assert(apply_lines(a1) == s1);
    assert(a2.drop_last() =~= a1);
    assert(apply_lines(a2) == apply_line(apply_lines(a1), ls[1]));
    assert(ls.drop_last() =~= a2);
    assert(apply_lines(ls) == apply_line(apply_lines(a2), ls[2]));
    assert(ls[0] == k1 + "="@ + decimal(pid_number(st.parent_pid)));
    assert(ls[1] == k2 + "="@ + decimal(pid_number(st.recorder_pid)));
    assert(ls[2] == k3 + "="@ + phase_text(st.phase));
}

/// Writing a state to the state file and reading it back gives the same
/// process ids and phase, provided that no process id is 0 (0 stands for
/// none) and that the phase holds no line feed and does not end with a
/// carriage return; a state without a phase reads back with an empty one.
pub proof fn lemma_state_round_trip(st: StateView)
    requires
        st.parent_pid != Some(0u32),
        st.recorder_pid != Some(0u32),
        forall|i: int| 0 <= i < phase_text(st.phase).len() ==> phase_text(st.phase)[i] != '\n',
        phase_text(st.phase).len() > 0 ==> phase_text(st.phase).last() != '\r',
    ensures
        parsed_state(rendered_state(st)) == (StateView {
            parent_pid: st.parent_pid,
            recorder_pid: st.recorder_pid,
            phase: Some(phase_text(st.phase)),
        }),
{
    lemma_rendered_lines(st);
    lemma_apply_state_lines(st);
}

// ---------------------------------------------------------------------------
// Decisions of a one-shot run
// ---------------------------------------------------------------------------

/// What a new invocation does about one that may still be running.
#[derive(Debug)]
pub enum ExistingRun {
    /// The earlier run is recording: stop its recorder (this process id) and
    /// exit, leaving the earlier run to transcribe.
    StopRecorder(u32),
    /// The earlier run is busy in this phase: tell the user and exit.
    AlreadyRunning(String),
    /// No earlier run is alive: clear the state and go on.
    Proceed,
}

/// What a new invocation does, with the phase as a character sequence.
pub enum ExistingRunView {
    StopRecorder(u32),
    AlreadyRunning(Seq<char>),
    Proceed,
}

impl View for ExistingRun {
    type V = ExistingRunView;

    open spec fn view(&self) -> ExistingRunView {
        match self {
            ExistingRun::StopRecorder(pid) => ExistingRunView::StopRecorder(*pid),
            ExistingRun::AlreadyRunning(p) => ExistingRunView::AlreadyRunning(p@),
            ExistingRun::Proceed => ExistingRunView::Proceed,
        }
    }
}

/// What a new invocation does, given the recorded state and whether the
/// recorded processes are alive: an earlier run that is alive is either
/// stopped (when it is recording and its recorder is alive) or waited for;
/// otherwise the new run goes on.
pub open spec fn existing_run_spec(
    st: StateView,
    parent_alive: bool,
    recorder_alive: bool,
) -> ExistingRunView {
    if st.parent_pid is Some && parent_alive {
        if st.phase == Some("recording"@) && st.recorder_pid is Some && recorder_alive {
            ExistingRunView::StopRecorder(st.recorder_pid->0)
        } else {
            ExistingRunView::AlreadyRunning(
                match st.phase {
                    Some(p) => p,
                    None => "running"@,
                },
            )
        }
    } else {
        ExistingRunView::Proceed
    }
}

/// What a new invocation does about an earlier one: it goes on exactly when
/// no parent process is recorded or the recorded one is gone; it stops the
/// earlier run's recorder exactly when that run is alive, recording, and its
/// recorder is alive; in every other case with a live parent (transcribing,
/// any other phase, or none) it is told the earlier run is busy, in that
/// run's phase, or `running` when none was recorded.
pub proof fn lemma_existing_run_cases(st: StateView, parent_alive: bool, recorder_alive: bool)
    ensures
        (existing_run_spec(st, parent_alive, recorder_alive) is Proceed) <==> (st.parent_pid is None
            || !parent_alive),
        (existing_run_spec(st, parent_alive, recorder_alive) is StopRecorder) <==> (
        st.parent_pid is Some && parent_alive && st.phase == Some("recording"@)
            && st.recorder_pid is Some && recorder_alive),
        existing_run_spec(st, parent_alive, recorder_alive) is StopRecorder ==> existing_run_spec(
            st,
            parent_alive,
            recorder_alive,
        ) == ExistingRunView::StopRecorder(st.recorder_pid->0),
        forall|p: Seq<char>|
            st.parent_pid is Some && parent_alive && st.phase == Some(p) && p != "recording"@
                ==> existing_run_spec(st, parent_alive, recorder_alive)
                == ExistingRunView::AlreadyRunning(p),
        st.parent_pid is Some && parent_alive && st.phase == Some("recording"@) && !(
        st.recorder_pid is Some && recorder_alive) ==> existing_run_spec(
            st,
            parent_alive,
            recorder_alive,
        ) == ExistingRunView::AlreadyRunning("recording"@),
        st.parent_pid is Some && parent_alive && st.phase is None ==> existing_run_spec(
            st,
            parent_alive,
            recorder_alive,
        ) == ExistingRunView::AlreadyRunning("running"@),
{
}

/// Decides what to do about an earlier run: `parent_alive` tells whether the
/// recorded parent process exists, `recorder_alive` whether the recorded
/// recorder process does.
pub fn existing_run_action(state: &State, parent_alive: bool, recorder_alive: bool) -> (r:
    ExistingRun)
    ensures
        r@ == existing_run_spec(state@, parent_alive, recorder_alive),
{
    if state.parent_pid.is_some() && parent_alive {
        let recording = match &state.phase {
            Some(p) => {
                let v = to_chars(p.as_str());
                chars_equal_str(&v, "recording")
            },
            None => false,
        };
        if recording && recorder_alive {
            match state.recorder_pid {
                Some(pid) => {
                    return ExistingRun::StopRecorder(pid);
                },
                None => {},
            }
        }
        match &state.phase {
            Some(p) => ExistingRun::AlreadyRunning(p.clone()),
            None => ExistingRun::AlreadyRunning(String::from_str("running")),
        }
    } else {
        ExistingRun::Proceed
    }
}

/// The id of the previous notification, kept in a file: its trimmed text,
/// unless that is empty.
pub fn stored_notification_id(raw: &str) -> (r: Option<String>)
    ensures
        match r {
            Some(id) => id@ == trimmed(raw@) && trimmed(raw@).len() > 0,
            None => trimmed(raw@).len() == 0,
        },
{
    let v = to_chars(raw);
    let t = trim_chars(&v);
    if t.len() == 0 {
        None
    } else {
        Some(from_chars(&t))
    }
}

/// The id that the notifier printed: its trimmed output, if that is a
/// non-empty run of ASCII digits.
pub fn printed_notification_id(output: &str) -> (r: Option<String>)
    ensures
        match r {
            Some(id) => id@ == trimmed(output@) && trimmed(output@).len() > 0 && all_digits(
                trimmed(output@),
            ),
            None => !(trimmed(output@).len() > 0 && all_digits(trimmed(output@))),
        },
{
    let v = to_chars(output);
    let t = trim_chars(&v);
    if t.len() == 0 {
        return None;
    }
    let n = t.len();
    for i in 0..n
        invariant
            n == t.len(),
            t@ == trimmed(output@),
            forall|j: int| 0 <= j < i ==> crate::text::is_digit(#[trigger] t@[j]),
    {
        let c = t[i] as u32;
        if !(48 <= c && c <= 57) {
            assert(!crate::text::is_digit(t@[i as int]));
            return None;
        }
    }
    Some(from_chars(&t))
}

/// Why the model cannot be fetched.
#[derive(Debug)]
pub enum ModelPathError {
    /// The path has no file name; it holds the path.
    Invalid(String),
    /// The file is missing and is not the default model; it holds the path.
    NotDefault(String),
}

impl ModelPathError {
    /// The message shown for this error.
    pub open spec fn message_spec(&self) -> Seq<char> {
        match self {
            ModelPathError::Invalid(p) => "invalid model path: "@ + p@,
            ModelPathError::NotDefault(p) => "missing model file at "@ + p@
                + ". Only the default model is auto-downloaded."@,
        }
    }

    pub fn message(&self) -> (r: String)
        ensures
            r@ == self.message_spec(),
    {
        match self {
            ModelPathError::Invalid(p) => crate::text::concat_str("invalid model path: ", p.as_str()),
            ModelPathError::NotDefault(p) => {
                let mut v = to_chars("missing model file at ");
                append_str(&mut v, p.as_str());
                append_str(&mut v, ". Only the default model is auto-downloaded.");
                from_chars(&v)
            },
        }
    }
}

/// Whether the model file must be downloaded: not when it exists; a missing
/// file is downloaded only when it is the default model; a path without a
/// file name is refused.
pub fn model_fetch_needed(model_path: &str, exists: bool) -> (r: Result<bool, ModelPathError>)
    ensures
        exists ==> r matches Ok(false),
        !exists ==> match file_name(model_path@) {
            None => r matches Err(ModelPathError::Invalid(p)) && p@ == model_path@,
            Some(n) => if n == DEFAULT_MODEL_FILE@ {
                r matches Ok(true)
            } else {
                r matches Err(ModelPathError::NotDefault(p)) && p@ == model_path@
            },
        },
{
    if exists {
        return Ok(false);
    }
    match file_name_of(model_path) {
        None => Err(ModelPathError::Invalid(String::from_str(model_path))),
        Some(name) => {
            if chars_equal_str(&name, DEFAULT_MODEL_FILE) {
                Ok(true)
            } else {
                Err(ModelPathError::NotDefault(String::from_str(model_path)))
            }
        },
    }
}


/// The notification that ends a one-shot run once the transcript is on the
/// clipboard: whether auto-paste is on, and if so whether pasting worked. A
/// failed paste still reports the copy.
pub open spec fn oneshot_outcome_spec(autopaste: bool, paste_ok: bool) -> Seq<char> {
    if !autopaste {
        "Transcript copied to clipboard."@
    } else if paste_ok {
        "Transcript copied and pasted."@
    } else {
        "Transcript copied. Auto-paste failed."@
    }
}

/// The notification that ends a one-shot run; `paste_ok` is looked at only
/// when auto-paste is on.
pub fn oneshot_outcome(autopaste: bool, paste_ok: bool) -> (r: &'static str)
    ensures
        r@ == oneshot_outcome_spec(autopaste, paste_ok),
{
    if !autopaste {
        "Transcript copied to clipboard."
    } else if paste_ok {
        "Transcript copied and pasted."
    } else {
        "Transcript copied. Auto-paste failed."
    }
}

} // verus!
