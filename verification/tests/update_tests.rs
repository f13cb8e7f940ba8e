use std::time::{Duration, SystemTime, UNIX_EPOCH};

use ani_gui::update::{
    apply_lib_guard, classify_update, finished_outcome, last_run_anchor, should_update_at,
    should_update_at_reading, should_update_now, spawn_failed_outcome, timestamp_from_reading,
    epoch_secs_of, meta_row_fresh_at, ClockReading, Timestamp, UpdateStatus,
};

fn ts(t: SystemTime) -> Timestamp {
    let reading = match t.duration_since(UNIX_EPOCH) {
        Ok(d) => ClockReading { before_epoch: false, secs: d.as_secs(), nanos: d.subsec_nanos() },
        Err(e) => ClockReading {
            before_epoch: true,
            secs: e.duration().as_secs(),
            nanos: e.duration().subsec_nanos(),
        },
    };
    timestamp_from_reading(reading).expect("a clock reading within the i64 range of seconds")
}

fn nanos(d: Duration) -> u128 {
    d.as_nanos()
}

#[test]
fn should_update_now_returns_false_when_disabled() {
    assert!(!should_update_now(None, nanos(Duration::from_secs(60)), false));
}

#[test]
fn should_update_now_returns_true_when_never_updated_and_enabled() {
    assert!(should_update_now(None, nanos(Duration::from_secs(60)), true));
}

#[test]
fn should_update_now_returns_true_when_older_than_ttl() {
    let two_days_ago = SystemTime::now() - Duration::from_secs(2 * 86_400);
    assert!(should_update_now(
        Some(ts(two_days_ago)),
        nanos(Duration::from_secs(86_400)),
        true
    ));
}

#[test]
fn should_update_now_returns_false_when_within_ttl() {
    let just_now = SystemTime::now() - Duration::from_secs(60);
    assert!(!should_update_now(
        Some(ts(just_now)),
        nanos(Duration::from_secs(86_400)),
        true
    ));
}

#[test]
fn should_update_now_returns_false_when_mtime_in_future() {
    let future = SystemTime::now() + Duration::from_secs(86_400);
    assert!(!should_update_now(
        Some(ts(future)),
        nanos(Duration::from_secs(60)),
        true
    ));
}

#[test]
fn should_update_at_counts_the_exact_ttl_as_due() {
    let last = Timestamp::new(1_000, 500);
    let now = Timestamp::new(1_060, 500);
    assert!(should_update_at(now, Some(last), 60_000_000_000, true));
    assert!(!should_update_at(now, Some(last), 60_000_000_001, true));
    assert!(!should_update_at(last, Some(now), 0, true));
    assert!(should_update_at(last, Some(last), 0, true));
    assert!(!should_update_at(now, Some(last), u128::MAX, true));
}

#[test]
fn last_run_anchor_returns_none_when_both_missing() {
    assert_eq!(last_run_anchor(None, None), None);
}

#[test]
fn last_run_anchor_falls_back_to_mtime_when_no_outcome() {
    let mtime = ts(UNIX_EPOCH + Duration::from_secs(1_700_000_000));
    assert_eq!(last_run_anchor(None, Some(mtime)), Some(mtime));
}

#[test]
fn last_run_anchor_uses_outcome_when_newer_than_mtime() {
    let old_mtime = ts(UNIX_EPOCH + Duration::from_secs(1_700_000_000));
    let recent_outcome = ts(UNIX_EPOCH + Duration::from_secs(1_700_086_400));
    assert_eq!(
        last_run_anchor(Some(recent_outcome), Some(old_mtime)),
        Some(recent_outcome)
    );
}

#[test]
fn last_run_anchor_uses_mtime_when_newer_than_outcome() {
    let old_outcome = ts(UNIX_EPOCH + Duration::from_secs(1_700_000_000));
    let recent_mtime = ts(UNIX_EPOCH + Duration::from_secs(1_700_086_400));
    assert_eq!(
        last_run_anchor(Some(old_outcome), Some(recent_mtime)),
        Some(recent_mtime)
    );
}

#[test]
fn last_run_anchor_compares_sub_second_parts() {
    let a = Timestamp::new(10, 2);
    let b = Timestamp::new(10, 1);
    assert_eq!(last_run_anchor(Some(b), Some(a)), Some(a));
    assert_eq!(last_run_anchor(Some(a), None), Some(a));
}

#[test]
fn classify_update_reads_exit_status_then_stdout() {
    assert_eq!(classify_update(false, "Script is up to date"), UpdateStatus::Failed);
    assert_eq!(classify_update(true, "Script is up to date"), UpdateStatus::NoChange);
    assert_eq!(classify_update(true, "Script has been updated"), UpdateStatus::Updated);
    assert_eq!(classify_update(true, "something else"), UpdateStatus::NoChange);
    assert_eq!(classify_update(true, ""), UpdateStatus::NoChange);
}

#[test]
fn outcomes_keep_output_and_timing() {
    let t = Timestamp::new(1_700_000_000, 0);
    let o = finished_outcome(true, "updated\n".into(), "warn".into(), t, 42);
    assert_eq!(o.status, UpdateStatus::Updated);
    assert_eq!(o.stdout, "updated\n");
    assert_eq!(o.stderr, "warn");
    assert_eq!(o.finished_at, t);
    assert_eq!(o.duration_ms, 42);
    let f = spawn_failed_outcome("No such file", t, 1);
    assert_eq!(f.status, UpdateStatus::Failed);
    assert_eq!(f.stdout, "");
    assert_eq!(f.stderr, "spawn error: No such file");
}

#[test]
fn reapply_lib_guard_inserts_before_main_invocation() {
    let body = apply_lib_guard("#!/bin/sh\nfoo() { :; }\n\nmain \"$@\"\n").expect("patched");
    let guard_pos = body.find("__ANI_CLI_LIB__").expect("guard marker present");
    let main_pos = body.find("main \"$@\"").unwrap();
    assert!(guard_pos < main_pos, "guard must precede main invocation");
    assert_eq!(
        body,
        "#!/bin/sh\nfoo() { :; }\n\n[ -n \"$__ANI_CLI_LIB__\" ] && return 0\nmain \"$@\"\n"
    );
}

#[test]
fn reapply_lib_guard_is_idempotent() {
    let first = apply_lib_guard("#!/bin/sh\nmain \"$@\"\n").expect("patched");
    assert_eq!(apply_lib_guard(&first), None);
}

#[test]
fn reapply_lib_guard_appends_when_no_main_anchor() {
    let body = apply_lib_guard("#!/bin/sh\necho hello\n").expect("patched");
    assert_eq!(
        body,
        "#!/bin/sh\necho hello\n\n[ -n \"$__ANI_CLI_LIB__\" ] && return 0\n"
    );
}

#[test]
fn reapply_lib_guard_uses_the_last_main_line() {
    let body = apply_lib_guard("x\nmain \"$@\"\ny\nmain \"$@\"").expect("patched");
    assert_eq!(
        body,
        "x\nmain \"$@\"\ny\n[ -n \"$__ANI_CLI_LIB__\" ] && return 0\nmain \"$@\""
    );
}

fn reading(before_epoch: bool, secs: u64, nanos: u32) -> ClockReading {
    ClockReading { before_epoch, secs, nanos }
}

#[test]
fn clock_readings_become_instants_with_a_forward_fraction() {
    assert_eq!(timestamp_from_reading(reading(false, 1_700_000_000, 5)), Some(Timestamp::new(1_700_000_000, 5)));
    assert_eq!(timestamp_from_reading(reading(true, 3, 0)), Some(Timestamp::new(-3, 0)));
    assert_eq!(timestamp_from_reading(reading(true, 3, 250_000_000)), Some(Timestamp::new(-4, 750_000_000)));
    assert_eq!(timestamp_from_reading(reading(true, 1 << 63, 0)), Some(Timestamp::new(i64::MIN, 0)));
    assert_eq!(timestamp_from_reading(reading(true, 1 << 63, 1)), None);
    assert_eq!(timestamp_from_reading(reading(false, 1 << 63, 0)), None);
}

#[test]
fn epoch_seconds_of_a_reading_are_zero_before_the_epoch() {
    assert_eq!(epoch_secs_of(reading(false, 1_700_000_000, 999_999_999)), 1_700_000_000);
    assert_eq!(epoch_secs_of(reading(true, 10, 0)), 0);
    assert_eq!(epoch_secs_of(reading(false, u64::MAX, 0)), 0);
}

#[test]
fn meta_rows_expire_once_their_lifetime_has_passed() {
    assert!(meta_row_fresh_at(1_000, 900, 101));
    assert!(!meta_row_fresh_at(1_000, 900, 100));
    assert!(!meta_row_fresh_at(1_000, 1_000, 0));
    assert!(meta_row_fresh_at(900, 1_000, 0));
    assert!(!meta_row_fresh_at(i64::MAX, i64::MIN, i64::MAX));
    assert!(meta_row_fresh_at(i64::MIN, i64::MAX, i64::MIN + 1));
}

#[test]
fn should_update_at_reading_measures_from_the_last_run() {
    let last = Some(Timestamp::new(100, 0));
    assert!(should_update_at_reading(reading(false, 160, 0), last, 60_000_000_000, true));
    assert!(!should_update_at_reading(reading(false, 159, 999_999_999), last, 60_000_000_000, true));
    assert!(!should_update_at_reading(reading(true, 5, 0), last, 0, true));
    assert!(!should_update_at_reading(reading(false, 1_000, 0), last, 1, false));
    assert!(should_update_at_reading(reading(true, 5, 0), None, 1, true));
}
