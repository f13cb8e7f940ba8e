//! `ani-cli` self-update: when to run `-U`, how to classify its output,
//! and how to put back the `__ANI_CLI_LIB__` source guard that an update
//! overwrites.

use vstd::prelude::*;

use crate::config::{join_path, path_join};
use crate::text::{
    chars_of, concat2, contains, contains_str, last_occurrence, lemma_last_occurrence_bounds,
    occurs_at, push_char,
    rfind_seq, string_of_range,
};

verus! {

broadcast use vstd::string::group_string_axioms;

/// Settings key of the auto-update toggle.
pub const SETTING_KEY_AUTO_UPDATE: &'static str = "auto_update_anicli";

/// File name (under the state directory) of the latest persisted outcome.
pub const OUTCOME_FILENAME: &'static str = "anicli-update.json";

/// A wall-clock instant, as `SystemTime` holds it: whole seconds since the
/// UNIX epoch (negative before it) plus a sub-second nanosecond part.
#[derive(Debug, Clone, Copy, PartialEq, Eq, Structural)]
pub struct Timestamp {
    /// Whole seconds since 1970-01-01T00:00:00Z.
    pub secs: i64,
    /// Nanoseconds past `secs`.
    pub subsec_nanos: u32,
}

/// Nanoseconds since the epoch.
pub open spec fn nanos_of(t: Timestamp) -> int {
    t.secs * 1_000_000_000 + t.subsec_nanos
}

impl Timestamp {
    /// The instant `secs` seconds and `subsec_nanos` nanoseconds after the epoch.
    pub fn new(secs: i64, subsec_nanos: u32) -> (r: Self)
        ensures
            r.secs == secs,
            r.subsec_nanos == subsec_nanos,
    {
        Timestamp { secs, subsec_nanos }
    }
}

pub(crate) fn total_nanos(t: Timestamp) -> (r: i128)
    ensures
        r == nanos_of(t),
{
    assert(-9_223_372_036_854_775_808 * 1_000_000_000 <= t.secs * 1_000_000_000
        <= 9_223_372_036_854_775_807 * 1_000_000_000) by (nonlinear_arith)
        requires
            -9_223_372_036_854_775_808 <= t.secs <= 9_223_372_036_854_775_807,
    ;
    t.secs as i128 * 1_000_000_000 + t.subsec_nanos as i128
}

/// What measuring a clock reading from `UNIX_EPOCH` gives: the distance
/// in whole seconds and nanoseconds past them, and whether the reading
/// lies before the epoch.
#[derive(Debug, Clone, Copy, PartialEq, Eq, Structural)]
pub struct ClockReading {
    /// The reading lies before the epoch.
    pub before_epoch: bool,
    /// Whole seconds between the epoch and the reading.
    pub secs: u64,
    /// Nanoseconds past `secs`.
    pub nanos: u32,
}

/// Nanoseconds from the epoch to the reading, negative before it.
pub open spec fn reading_nanos(r: ClockReading) -> int {
    if r.before_epoch {
        -(r.secs * 1_000_000_000 + r.nanos)
    } else {
        r.secs * 1_000_000_000 + r.nanos
    }
}

/// The instant of a reading, as whole seconds (rounded towards minus
/// infinity) and the nanoseconds past them; none when the seconds do
/// not fit in an `i64`.
pub open spec fn reading_instant(r: ClockReading) -> Option<Timestamp> {
    if !r.before_epoch {
        if r.secs <= 9_223_372_036_854_775_807 {
            Some(Timestamp { secs: r.secs as i64, subsec_nanos: r.nanos })
        } else {
            None
        }
    } else if r.nanos == 0 {
        if r.secs <= 9_223_372_036_854_775_808 {
            Some(Timestamp { secs: (-r.secs) as i64, subsec_nanos: 0 })
        } else {
            None
        }
    } else if r.secs < 9_223_372_036_854_775_808 {
        Some(Timestamp { secs: (-r.secs - 1) as i64, subsec_nanos: (1_000_000_000 - r.nanos) as u32 })
    } else {
        None
    }
}

/// The instant of a clock reading (see [`reading_instant`]): the same
/// point in time, with a sub-second part below one second.
pub fn timestamp_from_reading(r: ClockReading) -> (t: Option<Timestamp>)
    requires
        r.nanos < 1_000_000_000,
    ensures
        t == reading_instant(r),
        t matches Some(ts) ==> nanos_of(ts) == reading_nanos(r) && ts.subsec_nanos < 1_000_000_000,
{
    if !r.before_epoch {
        if r.secs <= 9_223_372_036_854_775_807 {
            let ts = Timestamp { secs: r.secs as i64, subsec_nanos: r.nanos };
            Some(ts)
        } else {
            None
        }
    } else if r.nanos == 0 {
        if r.secs < 9_223_372_036_854_775_808 {
            let s: i64 = r.secs as i64;
            Some(Timestamp { secs: -s, subsec_nanos: 0 })
        } else if r.secs == 9_223_372_036_854_775_808 {
            Some(Timestamp { secs: i64::MIN, subsec_nanos: 0 })
        } else {
            None
        }
    } else if r.secs < 9_223_372_036_854_775_808 {
        let s: i64 = r.secs as i64;
        let ts = Timestamp { secs: -s - 1, subsec_nanos: 1_000_000_000 - r.nanos };
        assert(nanos_of(ts) == reading_nanos(r)) by (nonlinear_arith)
            requires
                ts.secs == -r.secs - 1,
                ts.subsec_nanos == 1_000_000_000 - r.nanos,
                r.before_epoch,
        ;
        Some(ts)
    } else {
        None
    }
}

/// A reading of the system clock (`std::time::SystemTime`), carried as it
/// is.
#[verifier::external_type_specification]
#[verifier::external_body]
pub struct ExSystemTime(std::time::SystemTime);

/// A reading of the system clock, as `std::time::SystemTime::now` gives
/// it. Nothing is claimed of the value: it depends on the machine's clock.
#[verifier::external_body]
fn system_now() -> (r: std::time::SystemTime) {
    std::time::SystemTime::now()
}

/// Measures `t` from `UNIX_EPOCH` with `SystemTime::duration_since`: the
/// `Ok` duration for a reading at or after the epoch, the error's
/// duration (how far the epoch lies after it) for one before. As
/// `Duration::subsec_nanos` documents, the nanoseconds stay below one
/// second.
#[verifier::external_body]
fn since_epoch(t: &std::time::SystemTime) -> (r: ClockReading)
    ensures
        r.nanos < 1_000_000_000,
{
    match t.duration_since(std::time::UNIX_EPOCH) {
        Ok(d) => ClockReading { before_epoch: false, secs: d.as_secs(), nanos: d.subsec_nanos() },
        Err(e) => ClockReading {
            before_epoch: true,
            secs: e.duration().as_secs(),
            nanos: e.duration().subsec_nanos(),
        },
    }
}

/// Whole seconds since the epoch of a reading, `0` before the epoch or
/// past `i64::MAX` seconds.
pub open spec fn reading_epoch_secs(r: ClockReading) -> i64 {
    if r.before_epoch || r.secs > 9_223_372_036_854_775_807 {
        0
    } else {
        r.secs as i64
    }
}

/// Whole seconds since the epoch of a reading (see [`reading_epoch_secs`]).
pub fn epoch_secs_of(r: ClockReading) -> (s: i64)
    ensures
        s == reading_epoch_secs(r),
        s >= 0,
{
    if r.before_epoch || r.secs > 9_223_372_036_854_775_807 {
        0
    } else {
        r.secs as i64
    }
}

/// Whole seconds since the epoch now, read from the system clock (`0`
/// if the clock reads before the epoch).
pub fn now_secs() -> (r: i64)
    ensures
        r >= 0,
        exists|rd: ClockReading| rd.nanos < 1_000_000_000 && r == reading_epoch_secs(rd),
{
    let rd = clock_now();
    epoch_secs_of(rd)
}

/// One reading of the system clock (`SystemTime::now`), measured from
/// the epoch.
pub fn clock_now() -> (r: ClockReading)
    ensures
        r.nanos < 1_000_000_000,
{
    let t = system_now();
    since_epoch(&t)
}

/// Whether a metadata cache row written at `fetched_at` (seconds since
/// the epoch) with a lifetime of `ttl` seconds is still fresh at `now`:
/// the difference `now - fetched_at`, saturated to the `i64` range, is
/// below `ttl` (a zero lifetime is never fresh).
pub open spec fn meta_row_fresh(now: int, fetched_at: int, ttl: int) -> bool {
    let d = now - fetched_at;
    let sat = if d > i64::MAX {
        i64::MAX as int
    } else if d < i64::MIN {
        i64::MIN as int
    } else {
        d
    };
    sat < ttl
}

/// [`meta_row_fresh`] at `now`.
pub fn meta_row_fresh_at(now: i64, fetched_at: i64, ttl: i64) -> (r: bool)
    ensures
        r == meta_row_fresh(now as int, fetched_at as int, ttl as int),
{
    let d: i128 = now as i128 - fetched_at as i128;
    let sat: i64 = if d > i64::MAX as i128 {
        i64::MAX
    } else if d < i64::MIN as i128 {
        i64::MIN
    } else {
        d as i64
    };
    sat < ttl
}

/// [`meta_row_fresh`] at the current time ([`now_secs`]).
pub fn meta_row_fresh_now(fetched_at: i64, ttl: i64) -> (r: bool)
    ensures
        exists|rd: ClockReading|
            rd.nanos < 1_000_000_000 && r == meta_row_fresh(
                reading_epoch_secs(rd) as int,
                fetched_at as int,
                ttl as int,
            ),
{
    let (r, _rd) = meta_row_fresh_at_clock(fetched_at, ttl);
    r
}

/// [`meta_row_fresh`] at one reading of the system clock, handed back
/// with the answer: the row is judged at the whole seconds of that
/// reading.
pub fn meta_row_fresh_at_clock(fetched_at: i64, ttl: i64) -> (r: (bool, ClockReading))
    ensures
        r.1.nanos < 1_000_000_000,
        r.0 == meta_row_fresh(reading_epoch_secs(r.1) as int, fetched_at as int, ttl as int),
{
    let rd = clock_now();
    let now = epoch_secs_of(rd);
    (meta_row_fresh_at(now, fetched_at, ttl), rd)
}

/// Three-way status of one `-U` run.
#[derive(Debug, Clone, Copy, PartialEq, Eq, Structural)]
pub enum UpdateStatus {
    /// `-U` exited 0 and reported the script up to date.
    NoChange,
    /// Upstream had drift; the cache was patched in place.
    Updated,
    /// Spawn failure or non-zero exit.
    Failed,
}

/// Outcome of one `-U` run.
#[derive(Debug, Clone)]
pub struct UpdateOutcome {
    /// Classified outcome of the run.
    pub status: UpdateStatus,
    /// Captured stdout.
    pub stdout: String,
    /// Captured stderr.
    pub stderr: String,
    /// Wall-clock at the moment the run finished.
    pub finished_at: Timestamp,
    /// How long the run took, in milliseconds.
    pub duration_ms: u64,
}

/// The later of the two instants when both are known, else whichever is.
pub open spec fn anchor_of(a: Option<Timestamp>, b: Option<Timestamp>) -> Option<Timestamp> {
    match (a, b) {
        (Some(x), Some(y)) => Some(
            if nanos_of(x) >= nanos_of(y) {
                x
            } else {
                y
            },
        ),
        (Some(x), None) => Some(x),
        (None, y) => y,
    }
}

/// The staleness anchor: the later of the persisted outcome's finish time
/// and the script's modification time, or whichever of them is known.
pub fn last_run_anchor(outcome_finished_at: Option<Timestamp>, script_mtime: Option<Timestamp>) -> (r:
    Option<Timestamp>)
    ensures
        r == anchor_of(outcome_finished_at, script_mtime),
{
    match (outcome_finished_at, script_mtime) {
        (Some(a), Some(b)) => Some(
            if total_nanos(a) >= total_nanos(b) {
                a
            } else {
                b
            },
        ),
        (Some(a), None) => Some(a),
        (None, b) => b,
    }
}

/// Whether a run is due at the instant `now` nanoseconds after the
/// epoch: only when enabled; always when never run; otherwise when at
/// least `ttl_nanos` have passed since `last` (a `last` in the future
/// never is).
pub open spec fn due_at(now: int, last: Option<Timestamp>, ttl_nanos: u128, enabled: bool) -> bool {
    if !enabled {
        false
    } else {
        match last {
            None => true,
            Some(l) => now >= nanos_of(l) && now - nanos_of(l) >= ttl_nanos,
        }
    }
}

/// [`due_at`] the instant `now`.
pub open spec fn update_due(now: Timestamp, last: Option<Timestamp>, ttl_nanos: u128, enabled: bool) -> bool {
    due_at(nanos_of(now), last, ttl_nanos, enabled)
}

/// [`update_due`] at a given instant.
pub fn should_update_at(now: Timestamp, last: Option<Timestamp>, ttl_nanos: u128, enabled: bool) -> (r:
    bool)
    ensures
        r == update_due(now, last, ttl_nanos, enabled),
{
    if !enabled {
        return false;
    }
    match last {
        None => true,
        Some(l) => {
            let a = total_nanos(now);
            let b = total_nanos(l);
            if a < b {
                false
            } else {
                let elapsed: i128 = a - b;
                if ttl_nanos > 0x7fff_ffff_ffff_ffff_ffff_ffff_ffff_ffff {
                    false
                } else {
                    elapsed >= ttl_nanos as i128
                }
            }
        },
    }
}

/// [`due_at`] the instant of a clock reading.
pub fn should_update_at_reading(rd: ClockReading, last: Option<Timestamp>, ttl_nanos: u128, enabled: bool) -> (r: bool)
    ensures
        r == due_at(reading_nanos(rd), last, ttl_nanos, enabled),
{
    if !enabled {
        return false;
    }
    match last {
        None => true,
        Some(l) => {
            assert(rd.secs * 1_000_000_000 <= 18_446_744_073_709_551_615 * 1_000_000_000) by (nonlinear_arith)
                requires
                    rd.secs <= 18_446_744_073_709_551_615,
            ;
            let m: i128 = rd.secs as i128 * 1_000_000_000 + rd.nanos as i128;
            let a: i128 = if rd.before_epoch {
                -m
            } else {
                m
            };
            let b = total_nanos(l);
            if a < b {
                false
            } else {
                let elapsed: i128 = a - b;
                if ttl_nanos > 0x7fff_ffff_ffff_ffff_ffff_ffff_ffff_ffff {
                    false
                } else {
                    elapsed >= ttl_nanos as i128
                }
            }
        },
    }
}

/// Whether to spawn an `-U` run now, reading the system clock. Disabled:
/// never; never run: always; otherwise [`due_at`] the instant read.
pub fn should_update_now(last: Option<Timestamp>, ttl_nanos: u128, enabled: bool) -> (r: bool)
    ensures
        !enabled ==> !r,
        enabled && last is None ==> r,
        exists|rd: ClockReading|
            rd.nanos < 1_000_000_000 && r == due_at(reading_nanos(rd), last, ttl_nanos, enabled),
{
    let (r, _rd) = should_update_at_clock(last, ttl_nanos, enabled);
    r
}

/// [`due_at`] one reading of the system clock, handed back with the
/// answer.
pub fn should_update_at_clock(last: Option<Timestamp>, ttl_nanos: u128, enabled: bool) -> (r: (
    bool,
    ClockReading,
))
    ensures
        r.1.nanos < 1_000_000_000,
        r.0 == due_at(reading_nanos(r.1), last, ttl_nanos, enabled),
{
    let rd = clock_now();
    (should_update_at_reading(rd, last, ttl_nanos, enabled), rd)
}

/// When a self-update is due, in the terms of the clock reading itself: a
/// reading `secs` seconds and `nanos` nanoseconds after the epoch (or
/// before it) and a last run at `l` are `elapsed` nanoseconds apart; with
/// updates enabled a run is due exactly when `elapsed` reaches the
/// staleness window `ttl_nanos`, so a last run in the future is never
/// stale. Disabled, no run is due; never run, one always is.
pub proof fn law_update_due_when_window_elapsed(rd: ClockReading, l: Timestamp, ttl_nanos: u128)
    ensures
        ({
            let now: int = if rd.before_epoch {
                -(rd.secs * 1_000_000_000 + rd.nanos)
            } else {
                rd.secs * 1_000_000_000 + rd.nanos
            };
            let elapsed: int = now - (l.secs * 1_000_000_000 + l.subsec_nanos);
            &&& (elapsed >= ttl_nanos ==> due_at(reading_nanos(rd), Some(l), ttl_nanos, true))
            &&& (elapsed < ttl_nanos ==> !due_at(reading_nanos(rd), Some(l), ttl_nanos, true))
        }),
        !due_at(reading_nanos(rd), Some(l), ttl_nanos, false),
        due_at(reading_nanos(rd), None, ttl_nanos, true),
{
}

/// With the default window of 24 hours, a run read one hour (or anything
/// under 24 hours) after the last one is not due, and one read 24 hours
/// or more after it is.
pub proof fn law_default_window_is_a_day(rd: ClockReading, l: Timestamp)
    requires
        !rd.before_epoch,
    ensures
        rd.secs * 1_000_000_000 + rd.nanos < l.secs * 1_000_000_000 + l.subsec_nanos
            + 86_400_000_000_000 ==> !due_at(reading_nanos(rd), Some(l), 86_400_000_000_000, true),
        rd.secs * 1_000_000_000 + rd.nanos >= l.secs * 1_000_000_000 + l.subsec_nanos
            + 86_400_000_000_000 ==> due_at(reading_nanos(rd), Some(l), 86_400_000_000_000, true),
{
}

/// Two readings: once a run is due it stays due at every later reading;
/// and a run due for a window is due for every shorter window.
pub proof fn law_update_due_monotone(
    rd1: ClockReading,
    rd2: ClockReading,
    last: Option<Timestamp>,
    ttl_short: u128,
    ttl_long: u128,
    enabled: bool,
)
    ensures
        reading_nanos(rd1) <= reading_nanos(rd2) && due_at(reading_nanos(rd1), last, ttl_long, enabled)
            ==> due_at(reading_nanos(rd2), last, ttl_long, enabled),
        ttl_short <= ttl_long && due_at(reading_nanos(rd1), last, ttl_long, enabled) ==> due_at(
            reading_nanos(rd1),
            last,
            ttl_short,
            enabled,
        ),
{
}

/// When a metadata row is fresh, in the terms of the clock reading
/// itself: read at or after the epoch with seconds that fit an `i64`,
/// the row's age is `secs - fetched_at` seconds, and the row is fresh
/// exactly while that age (when it fits an `i64`) is below its lifetime;
/// read before the epoch, the age counts from second 0.
pub proof fn law_meta_row_fresh_by_age(rd: ClockReading, fetched_at: i64, ttl: i64)
    ensures
        (!rd.before_epoch && rd.secs <= i64::MAX && i64::MIN <= rd.secs - fetched_at <= i64::MAX)
            ==> (meta_row_fresh(reading_epoch_secs(rd) as int, fetched_at as int, ttl as int) <==> rd.secs
            - fetched_at < ttl),
        (rd.before_epoch && i64::MIN <= 0 - fetched_at) ==> (meta_row_fresh(
            reading_epoch_secs(rd) as int,
            fetched_at as int,
            ttl as int,
        ) <==> 0 - fetched_at < ttl),
{
}

/// Two readings: a row fresh at a later second is fresh at every earlier
/// one, and stays fresh under a longer lifetime; a row whose lifetime is
/// not positive is never fresh from the second it was written on.
pub proof fn law_meta_row_expiry_monotone(now1: i64, now2: i64, fetched_at: i64, ttl: i64, longer: i64)
    ensures
        now1 <= now2 && meta_row_fresh(now2 as int, fetched_at as int, ttl as int) ==> meta_row_fresh(
            now1 as int,
            fetched_at as int,
            ttl as int,
        ),
        ttl <= longer && meta_row_fresh(now1 as int, fetched_at as int, ttl as int) ==> meta_row_fresh(
            now1 as int,
            fetched_at as int,
            longer as int,
        ),
        ttl <= 0 && fetched_at <= now1 ==> !meta_row_fresh(now1 as int, fetched_at as int, ttl as int),
{
}

/// How the output of a finished `-U` run is classified: a failed exit is
/// `Failed`; otherwise `NoChange` when stdout says "up to date",
/// `Updated` when it says "updated", `NoChange` for anything else.
pub open spec fn status_of(exit_ok: bool, stdout: Seq<char>) -> UpdateStatus {
    if !exit_ok {
        UpdateStatus::Failed
    } else if contains(stdout, "up to date"@) {
        UpdateStatus::NoChange
    } else if contains(stdout, "updated"@) {
        UpdateStatus::Updated
    } else {
        UpdateStatus::NoChange
    }
}

/// Classifies a finished `-U` run (see [`status_of`]).
pub fn classify_update(exit_ok: bool, stdout: &str) -> (r: UpdateStatus)
    ensures
        r == status_of(exit_ok, stdout@),
{
    if !exit_ok {
        UpdateStatus::Failed
    } else if contains_str(stdout, "up to date") {
        UpdateStatus::NoChange
    } else if contains_str(stdout, "updated") {
        UpdateStatus::Updated
    } else {
        UpdateStatus::NoChange
    }
}

/// The outcome of a run that exited: status from [`classify_update`],
/// output kept verbatim.
pub fn finished_outcome(
    exit_ok: bool,
    stdout: String,
    stderr: String,
    finished_at: Timestamp,
    duration_ms: u64,
) -> (r: UpdateOutcome)
    ensures
        r.status == status_of(exit_ok, stdout@),
        r.stdout@ == stdout@,
        r.stderr@ == stderr@,
        r.finished_at == finished_at,
        r.duration_ms == duration_ms,
{
    let status = classify_update(exit_ok, stdout.as_str());
    UpdateOutcome { status, stdout, stderr, finished_at, duration_ms }
}

/// The outcome of a run that could not be spawned: `Failed`, empty
/// stdout, and `"spawn error: <detail>"` as stderr.
pub fn spawn_failed_outcome(detail: &str, finished_at: Timestamp, duration_ms: u64) -> (r:
    UpdateOutcome)
    ensures
        r.status == UpdateStatus::Failed,
        r.stdout@.len() == 0,
        r.stderr@ == "spawn error: "@ + detail@,
        r.finished_at == finished_at,
        r.duration_ms == duration_ms,
{
    UpdateOutcome {
        status: UpdateStatus::Failed,
        stdout: String::new(),
        stderr: concat2("spawn error: ", detail),
        finished_at,
        duration_ms,
    }
}

/// The marker of the one carried patch.
pub open spec fn guard_marker() -> Seq<char> {
    "__ANI_CLI_LIB__"@
}

/// The guard line: `[ -n "$__ANI_CLI_LIB__" ] && return 0` and a newline.
pub open spec fn guard_line() -> Seq<char> {
    "[ -n \"$__ANI_CLI_LIB__\" ] && return 0\n"@
}

/// The anchor the guard goes before: a newline then `main "$@"`.
pub open spec fn main_anchor() -> Seq<char> {
    "\nmain \"$@\""@
}

/// The script with the guard put back: `None` when the marker is already
/// there; otherwise the guard line inserted after the newline that starts
/// the last `main "$@"` line, or, without such a line, appended after a
/// newline.
pub open spec fn guarded_script(c: Seq<char>) -> Option<Seq<char>> {
    if contains(c, guard_marker()) {
        None
    } else {
        match last_occurrence(c, main_anchor(), c.len() as int) {
            Some(idx) => Some(
                c.subrange(0, idx) + seq!['\n'] + guard_line() + c.subrange(idx + 1, c.len() as int),
            ),
            None => Some(c + seq!['\n'] + guard_line()),
        }
    }
}

/// Puts back the `__ANI_CLI_LIB__` source guard (see [`guarded_script`]);
/// `None` means the script already has it and is left as is.
pub fn apply_lib_guard(contents: &str) -> (r: Option<String>)
    ensures
        match r {
            Some(s) => guarded_script(contents@) == Some(s@),
            None => guarded_script(contents@) is None,
        },
{
    if contains_str(contents, "__ANI_CLI_LIB__") {
        return None;
    }
    let guard = "[ -n \"$__ANI_CLI_LIB__\" ] && return 0\n";
    let cs = chars_of(contents);
    let anchor = chars_of("\nmain \"$@\"");
    proof {
        reveal_strlit("\nmain \"$@\"");
        lemma_last_occurrence_bounds(cs@, anchor@, cs@.len() as int);
    }
    assert(anchor@.len() == 10);
    match rfind_seq(cs.as_slice(), anchor.as_slice()) {
        Some(idx) => {
            assert(occurs_at(cs@, anchor@, idx as int));
            assert(idx + 10 <= cs@.len());
            assert(idx < cs.len());
            let mut out = string_of_range(cs.as_slice(), 0, idx);
            push_char(&mut out, '\n');
            out.append(guard);
            let tail = string_of_range(cs.as_slice(), idx + 1, cs.len());
            out.append(tail.as_str());
            Some(out)
        },
        None => {
            let mut out = contents.to_owned();
            push_char(&mut out, '\n');
            out.append(guard);
            Some(out)
        },
    }
}

proof fn lemma_contains_shift(a: Seq<char>, b: Seq<char>, n: Seq<char>)
    requires
        contains(b, n),
    ensures
        contains(a + b, n),
{
    let i = choose|i: int| occurs_at(b, n, i);
    assert((a + b).subrange(a.len() + i, a.len() + i + n.len()) =~= b.subrange(i, i + n.len()));
    assert(occurs_at(a + b, n, a.len() + i));
}

proof fn lemma_contains_prefix(a: Seq<char>, b: Seq<char>, n: Seq<char>)
    requires
        contains(a, n),
    ensures
        contains(a + b, n),
{
    let i = choose|i: int| occurs_at(a, n, i);
    assert((a + b).subrange(i, i + n.len()) =~= a.subrange(i, i + n.len()));
    assert(occurs_at(a + b, n, i));
}

/// Where the writable copy of the script lives: `<cache_dir>/ani-cli`.
pub fn anicli_cache_target(cache_dir: &str) -> (r: String)
    ensures
        r@ == path_join(cache_dir@, "ani-cli"@),
{
    join_path(cache_dir, "ani-cli")
}

/// What resolving the writable script copy does.
#[derive(Debug, Clone, Copy, PartialEq, Eq, Structural)]
pub enum ResolveStep {
    /// The cached copy exists: use it as it is.
    UseCached,
    /// Neither copy exists: fail with `NotFound`.
    SeedMissing,
    /// Copy the seed into the cache directory, mark it executable, use it.
    CopySeed,
}

/// The step for the current state: the cached copy wins when it is a
/// file; else the seed is copied when it is a file; else it fails.
pub fn resolve_step(target_is_file: bool, seed_is_file: bool) -> (r: ResolveStep)
    ensures
        target_is_file ==> r == ResolveStep::UseCached,
        !target_is_file && !seed_is_file ==> r == ResolveStep::SeedMissing,
        !target_is_file && seed_is_file ==> r == ResolveStep::CopySeed,
{
    if target_is_file {
        ResolveStep::UseCached
    } else if !seed_is_file {
        ResolveStep::SeedMissing
    } else {
        ResolveStep::CopySeed
    }
}

/// The `NotFound` message for a missing seed: `seed script missing at <seed>`.
pub fn seed_missing_message(seed: &str) -> (r: String)
    ensures
        r@ == "seed script missing at "@ + seed@,
{
    concat2("seed script missing at ", seed)
}

/// Putting the guard back twice changes nothing the second time: the
/// script it produces already carries the marker.
pub proof fn law_lib_guard_idempotent(c: Seq<char>)
    ensures
        guarded_script(c) matches Some(s) ==> guarded_script(s) is None,
{
    reveal_strlit("[ -n \"$__ANI_CLI_LIB__\" ] && return 0\n");
    reveal_strlit("__ANI_CLI_LIB__");
    let g = guard_line();
    let m = guard_marker();
    assert(g.subrange(7, 7 + m.len() as int) =~= m);
    assert(occurs_at(g, m, 7));
    if let Some(s) = guarded_script(c) {
        match last_occurrence(c, main_anchor(), c.len() as int) {
            Some(idx) => {
                let pre = c.subrange(0, idx) + seq!['\n'];
                let post = c.subrange(idx + 1, c.len() as int);
                lemma_contains_shift(pre, g, m);
                lemma_contains_prefix(pre + g, post, m);
                assert(s == pre + g + post);
            },
            None => {
                lemma_contains_shift(c + seq!['\n'], g, m);
            },
        }
    }
}

} // verus!
