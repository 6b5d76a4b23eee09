use chrono::{DateTime, TimeZone, Utc};
use crosshair::instant::Timestamp;
use crosshair::loader::StrategyTarget;
use crosshair::path::FilePath;
use crosshair::runner::{AttemptOutcome, TriggerError};
use crosshair::schema::{RetryPolicy, Status, Strategy, Target};
use crosshair::store::{
    parse_rfc3339, row_to_state, state_after_attempt, state_to_row, truncate, StateRow, Store,
    TargetState,
};
use crosshair::tick::{
    backoff_after, conclude_one, concluded_state, converge_one, has_cooldown_in_calendar,
    has_room_for_failure, next_cooldown, should_attempt, tick_interval, TickError,
};
use std::time::Duration;

fn ts(d: DateTime<Utc>) -> Timestamp {
    Timestamp::from_parts(d.timestamp(), d.timestamp_subsec_nanos()).unwrap()
}

fn at(secs: i64) -> Timestamp {
    Timestamp::from_parts(secs, 0).unwrap()
}

fn fake_target() -> StrategyTarget {
    let s = Strategy {
        command: "true".to_string(),
        trigger: "manual".to_string(),
        timeout: None,
        retry: None,
    };
    StrategyTarget {
        yaml_path: FilePath::from_text("/tmp/x.yaml"),
        target_id: "T1".to_string(),
        target: Target {
            name: "x".to_string(),
            status: Status::Identified,
            strategy: Some(s.clone()),
        },
        strategy: s,
    }
}

fn outcome(success: bool, exit: Option<i32>) -> AttemptOutcome {
    AttemptOutcome {
        started_at: ts(Utc::now()),
        finished_at: ts(Utc::now()),
        exit_code: if success { Some(0) } else { exit },
        stdout: "out".to_string(),
        stderr: "err".to_string(),
        timed_out: false,
    }
}

fn make_outcome(success: bool) -> AttemptOutcome {
    AttemptOutcome {
        started_at: ts(Utc::now()),
        finished_at: ts(Utc::now()),
        exit_code: if success { Some(0) } else { Some(1) },
        stdout: String::new(),
        stderr: String::new(),
        timed_out: false,
    }
}

/// A database with one row per key, in front of which a store stands.
struct Db {
    store: Store,
    rows: std::collections::HashMap<(String, String), StateRow>,
    writable: bool,
    readable: bool,
}

fn copy(row: &StateRow) -> StateRow {
    StateRow {
        yaml_path: row.yaml_path.clone(),
        target_id: row.target_id.clone(),
        last_attempt_at: row.last_attempt_at.clone(),
        last_success_at: row.last_success_at.clone(),
        consecutive_failures: row.consecutive_failures,
        cooldown_until: row.cooldown_until.clone(),
        last_exit_code: row.last_exit_code,
        last_stdout: row.last_stdout.clone(),
        last_stderr: row.last_stderr.clone(),
        last_timed_out: row.last_timed_out,
    }
}

fn key_of(t: &StrategyTarget) -> (String, String) {
    let (path, id) = t.key();
    (path, id.to_string())
}

impl Db {
    fn new() -> Db {
        Db {
            store: Store::new(),
            rows: std::collections::HashMap::new(),
            writable: true,
            readable: true,
        }
    }

    fn read(&self, t: &StrategyTarget) -> Result<Option<TargetState>, String> {
        if self.readable {
            Ok(self.rows.get(&key_of(t)).map(|row| row_to_state(copy(row))))
        } else {
            Err("database is locked".to_string())
        }
    }

    fn write(&mut self, t: &StrategyTarget, state: &TargetState) -> Result<(), String> {
        if self.writable {
            self.rows.insert(key_of(t), state_to_row(state));
            Ok(())
        } else {
            Err("database is locked".to_string())
        }
    }

    fn get_or_empty(&self, t: &StrategyTarget) -> Result<TargetState, String> {
        self.store.get_or_empty(t, self.read(t))
    }

    fn record_attempt(
        &mut self,
        t: &StrategyTarget,
        outcome: &AttemptOutcome,
        cooldown_until: Option<Timestamp>,
        prior: &TargetState,
    ) -> Result<(), String> {
        let state = state_after_attempt(t, outcome, cooldown_until, prior);
        let written = self.write(t, &state);
        self.store.record_attempt(t, outcome, cooldown_until, prior, written)
    }

    /// A tick for one target, in which an attempt fails if one is made. Whether one was made.
    fn failing_tick(&mut self, t: &StrategyTarget, now: Timestamp) -> Result<bool, TickError> {
        let Some(prior) = converge_one(&self.store, t, self.read(t), now)? else {
            return Ok(false);
        };
        let mut failed = make_outcome(false);
        failed.finished_at = Timestamp::from_parts(now.secs() + 2, 0).unwrap();
        let state = concluded_state(t, &prior, &failed, now);
        let written = self.write(t, &state);
        conclude_one(&mut self.store, t, &prior, &failed, now, written)?;
        Ok(true)
    }
}

#[test]
fn fresh_target_is_unknown() {
    let s = Db::new();
    let t = fake_target();
    let st = s.get_or_empty(&t).unwrap();
    assert_eq!(st.consecutive_failures, 0);
    assert!(st.last_attempt_at.is_none());
    assert!(st.last_success_at.is_none());
    assert_eq!((st.yaml_path.as_str(), st.target_id.as_str()), ("/tmp/x.yaml", "T1"));
}

#[test]
fn success_resets_consecutive_failures() {
    let mut s = Db::new();
    let t = fake_target();
    let prior = s.get_or_empty(&t).unwrap();
    s.record_attempt(&t, &outcome(false, Some(1)), None, &prior).unwrap();
    let prior = s.get_or_empty(&t).unwrap();
    s.record_attempt(&t, &outcome(false, Some(1)), None, &prior).unwrap();
    let after_two = s.get_or_empty(&t).unwrap();
    assert_eq!(after_two.consecutive_failures, 2);

    let prior = s.get_or_empty(&t).unwrap();
    s.record_attempt(&t, &outcome(true, None), None, &prior).unwrap();
    let after_ok = s.get_or_empty(&t).unwrap();
    assert_eq!(after_ok.consecutive_failures, 0);
    assert!(after_ok.last_success_at.is_some());
}

#[test]
fn failed_persist_keeps_a_cooldown_for_the_next_tick() {
    let mut store = Db::new();
    store.writable = false;

    let target = fake_target();
    let prior = store.get_or_empty(&target).unwrap();
    let cooldown = Some(ts(Utc::now() + chrono::Duration::minutes(30)));
    assert!(store.record_attempt(&target, &outcome(false, Some(1)), cooldown, &prior).is_err());

    let fallback = store.get_or_empty(&target).unwrap();
    assert_eq!(fallback.consecutive_failures, 1);
    assert_eq!(fallback.cooldown_until, cooldown);
}

#[test]
fn a_later_successful_write_ends_the_stand_in() {
    let mut db = Db::new();
    let t = fake_target();
    let mut other = fake_target();
    other.target_id = "T2".into();
    db.writable = false;
    for (target, code) in [(&t, 1), (&other, 9), (&t, 1)] {
        let prior = db.get_or_empty(target).unwrap();
        let error = db.record_attempt(target, &outcome(false, Some(code)), None, &prior);
        assert_eq!(error, Err("database is locked".to_string()));
    }
    assert_eq!(db.store.fallback_state(&t).unwrap().consecutive_failures, 2);

    db.writable = true;
    let prior = db.get_or_empty(&t).unwrap();
    db.record_attempt(&t, &outcome(false, Some(3)), None, &prior).unwrap();
    assert!(db.store.fallback_state(&t).is_none());
    let read = db.get_or_empty(&t).unwrap();
    assert_eq!(read.consecutive_failures, 3);
    assert_eq!(read.last_exit_code, Some(3));
    let kept = db.get_or_empty(&other).unwrap();
    assert_eq!((kept.consecutive_failures, kept.last_exit_code), (1, Some(9)));
}

#[test]
fn a_failed_read_counts_unless_a_state_stands_in() {
    let mut db = Db::new();
    let t = fake_target();
    db.readable = false;
    assert_eq!(db.get_or_empty(&t).unwrap_err(), "database is locked");
    assert!(matches!(
        converge_one(&db.store, &t, db.read(&t), at(0)),
        Err(TickError::Read(cause)) if cause == "database is locked"
    ));
    db.writable = false;
    let prior = TargetState::empty("/tmp/x.yaml".into(), "T1".into());
    assert!(db.record_attempt(&t, &outcome(false, Some(1)), None, &prior).is_err());
    assert_eq!(db.get_or_empty(&t).unwrap().consecutive_failures, 1);
}

#[test]
fn success_clears_cooldown() {
    let prior = TargetState::empty("/x".into(), "T1".into());
    let cd = next_cooldown(&prior, &make_outcome(true), ts(Utc::now()));
    assert!(cd.is_none());
}

#[test]
fn failure_uses_backoff_ladder() {
    let now = ts(Utc::now());
    for (failures_before, expected) in [
        (0u32, Duration::from_secs(30 * 60)),
        (1, Duration::from_secs(2 * 60 * 60)),
        (2, Duration::from_secs(6 * 60 * 60)),
        (3, Duration::from_secs(24 * 60 * 60)),
        (10, Duration::from_secs(24 * 60 * 60)),
    ] {
        let mut prior = TargetState::empty("/x".into(), "T1".into());
        prior.consecutive_failures = failures_before;
        let cd = next_cooldown(&prior, &make_outcome(false), now).unwrap();
        let delta = Duration::from_nanos(cd.nanos_since(&now) as u64);
        assert!(
            delta.as_secs().abs_diff(expected.as_secs()) < 2,
            "failures_before={failures_before} expected={expected:?} got={delta:?}"
        );
        assert_eq!(delta, expected);
    }
}

#[test]
fn backoff_is_capped_at_a_day() {
    let ladder: Vec<u32> = [0, 1, 2, 3, 4, 5, u32::MAX].iter().map(|n| backoff_after(*n)).collect();
    assert_eq!(ladder, vec![1_800, 1_800, 7_200, 21_600, 86_400, 86_400, 86_400]);
}

#[test]
fn room_for_a_failure_ends_with_the_calendar_and_the_counter() {
    let mut prior = TargetState::empty("/x".into(), "T1".into());
    let max = crosshair::instant::MAX_SECS;
    assert!(has_room_for_failure(&prior, &at(max - 1_800)));
    assert!(!has_room_for_failure(&prior, &at(max - 1_799)));
    prior.consecutive_failures = u32::MAX;
    assert!(!has_room_for_failure(&prior, &at(0)));
    assert!(has_cooldown_in_calendar(&prior, &at(max - 86_400)));
    assert!(!has_cooldown_in_calendar(&prior, &at(max - 86_399)));
}

#[test]
fn a_full_counter_stays_at_the_end_of_the_ladder() {
    let mut prior = TargetState::empty("/x".into(), "T1".into());
    prior.consecutive_failures = u32::MAX;
    let now = Utc.with_ymd_and_hms(2026, 7, 10, 12, 0, 0).unwrap();
    let until = Utc.with_ymd_and_hms(2026, 7, 11, 12, 0, 0).unwrap();
    assert_eq!(next_cooldown(&prior, &make_outcome(false), ts(now)), Some(ts(until)));
}

#[test]
fn retry_plays_no_part() {
    let mut a = fake_target();
    a.strategy.trigger = "every:1h".into();
    let mut b = a.clone();
    b.strategy.retry =
        Some(RetryPolicy { max_attempts: Some(1), backoff: Some("exponential".to_string()) });
    let mut prior = TargetState::empty("/tmp/x.yaml".into(), "T1".into());
    prior.consecutive_failures = 7;
    assert!(should_attempt(&a, &prior, at(0)).unwrap());
    assert!(should_attempt(&b, &prior, at(0)).unwrap());
    let failed = make_outcome(false);
    assert_eq!(
        format!("{:?}", concluded_state(&a, &prior, &failed, at(0))),
        format!("{:?}", concluded_state(&b, &prior, &failed, at(0)))
    );
}

#[test]
fn a_failed_write_does_not_lead_to_a_rerun_without_backoff() {
    let mut target = fake_target();
    target.strategy.trigger = "every:1m".into();
    let mut db = Db::new();
    db.writable = false;
    assert!(matches!(
        db.failing_tick(&target, at(1_000_000)),
        Err(TickError::Write(cause)) if cause == "database is locked"
    ));

    let first = db.get_or_empty(&target).unwrap();
    let first_cooldown = first.cooldown_until.unwrap();
    assert_eq!(first.consecutive_failures, 1);
    assert_eq!(first_cooldown, at(1_001_800));

    db.writable = true;
    assert!(!db.failing_tick(&target, at(1_000_100)).unwrap());
    assert!(!db.failing_tick(&target, at(1_001_799)).unwrap());
    assert_eq!(db.get_or_empty(&target).unwrap().consecutive_failures, 1);

    assert!(db.failing_tick(&target, first_cooldown).unwrap());
    let second = db.get_or_empty(&target).unwrap();
    assert_eq!(second.consecutive_failures, 2);
    assert_eq!(second.cooldown_until, Some(at(1_001_800 + 7_200)));
    assert!(first_cooldown.is_before(&second.cooldown_until.unwrap()));
    assert!(db.store.fallback_state(&target).is_none());
}

#[test]
fn a_tick_fails_on_an_unsupported_trigger_and_skips_a_manual_one() {
    let mut t = fake_target();
    let store = Store::new();
    assert!(converge_one(&store, &t, Ok(None), at(0)).unwrap().is_none());
    t.strategy.trigger = "on-push".into();
    assert!(matches!(
        converge_one(&store, &t, Ok(None), at(0)),
        Err(TickError::Trigger(TriggerError::Unsupported { trigger })) if trigger == "on-push"
    ));
    t.strategy.trigger = "every:1h".into();
    let prior = converge_one(&store, &t, Ok(None), at(0)).unwrap().unwrap();
    assert_eq!((prior.target_id.as_str(), prior.consecutive_failures), ("T1", 0));
}

#[test]
fn an_interval_runs_at_the_first_tick_after_it_has_passed() {
    let mut t = fake_target();
    t.strategy.trigger = "every:1h".into();
    let mut prior = TargetState::empty("/tmp/x.yaml".into(), "T1".into());
    prior.last_attempt_at = Some(at(0));
    assert!(!should_attempt(&t, &prior, at(3_599)).unwrap());
    assert!(should_attempt(&t, &prior, at(3_600)).unwrap());
    assert!(should_attempt(&t, &prior, at(360_000)).unwrap());
    prior.cooldown_until = Some(at(400_000));
    assert!(!should_attempt(&t, &prior, at(360_000)).unwrap());
}

#[test]
fn a_cron_strategy_runs_once_in_its_minute() {
    let mut target = fake_target();
    target.strategy.trigger = "cron:* * * * *".into();
    let prior = TargetState::empty("/tmp/x.yaml".into(), "T1".into());
    let tick = at(600_030);
    assert!(should_attempt(&target, &prior, tick).unwrap());
    let mut done = make_outcome(true);
    done.finished_at = at(600_031);
    let state = concluded_state(&target, &prior, &done, tick);
    assert_eq!(state.consecutive_failures, 0);
    assert_eq!(state.cooldown_until, None);
    assert!(!should_attempt(&target, &state, at(600_059)).unwrap());
    assert!(should_attempt(&target, &state, at(600_060)).unwrap());
}

#[test]
fn an_error_in_the_trigger_comes_before_the_cooldown() {
    let mut target = fake_target();
    target.strategy.trigger = "sometimes".into();
    let mut prior = TargetState::empty("/tmp/x.yaml".into(), "T1".into());
    prior.cooldown_until = Some(at(10));
    assert!(should_attempt(&target, &prior, at(0)).is_err());
}

#[test]
fn a_run_of_attempts_is_summed_up() {
    let t = fake_target();
    let mut state = TargetState::empty("/tmp/x.yaml".into(), "T1".into());
    let successes = [false, true, true, false, false, false];
    for (n, success) in successes.iter().enumerate() {
        let mut o = make_outcome(*success);
        o.finished_at = at(n as i64);
        state = concluded_state(&t, &state, &o, at(n as i64));
    }
    assert_eq!(state.consecutive_failures, 3);
    assert_eq!(state.last_success_at, Some(at(2)));
    assert_eq!(state.last_attempt_at, Some(at(5)));
    assert_eq!(state.cooldown_until, Some(at(5 + 21_600)));
}

#[test]
fn a_state_after_an_attempt_keeps_what_was_seen() {
    let t = fake_target();
    let mut prior = TargetState::empty("/elsewhere".into(), "T9".into());
    prior.consecutive_failures = 4;
    prior.last_success_at = Some(at(7));
    let mut o = outcome(false, Some(2));
    o.timed_out = true;
    o.stdout = "x".repeat(5_000);
    let state = state_after_attempt(&t, &o, Some(at(99)), &prior);
    assert_eq!(state.yaml_path, "/tmp/x.yaml");
    assert_eq!(state.target_id, "T1");
    assert_eq!(state.last_attempt_at, Some(o.finished_at));
    assert_eq!(state.last_success_at, Some(at(7)));
    assert_eq!(state.consecutive_failures, 5);
    assert_eq!(state.cooldown_until, Some(at(99)));
    assert_eq!(state.last_exit_code, Some(2));
    assert_eq!(state.last_stdout, Some(format!("{}…[truncated]", "x".repeat(4_096))));
    assert_eq!(state.last_stderr, Some("err".to_string()));
    assert!(state.last_timed_out);
}

#[test]
fn truncation_keeps_whole_characters() {
    assert_eq!(truncate("short", 4_096), "short");
    assert_eq!(truncate("12345", 5), "12345");
    assert_eq!(truncate("123456", 5), "12345…[truncated]");
    assert_eq!(truncate("a…b", 1), "a…[truncated]");
    assert_eq!(truncate("a…b", 2), "a…[truncated]");
    assert_eq!(truncate("a…b", 3), "a…[truncated]");
    assert_eq!(truncate("a…b", 4), "a……[truncated]");
    assert_eq!(truncate("…", 2), "…[truncated]");
    assert_eq!(truncate("🎯🎯", 7), "🎯…[truncated]");
    assert_eq!(truncate("x", 0), "…[truncated]");
    assert_eq!("…[truncated]".len(), 14);
}

#[test]
fn rows_read_back_as_the_states_they_were_made_of() {
    let leap = Timestamp::from_parts(1_483_228_799, 1_250_000_000).unwrap();
    let state = TargetState {
        yaml_path: "/a".to_string(),
        target_id: "T".to_string(),
        last_attempt_at: Some(Timestamp::from_parts(1_783_641_615, 123_456_789).unwrap()),
        last_success_at: Some(leap),
        consecutive_failures: u32::MAX,
        cooldown_until: Some(Timestamp::from_parts(-62_167_219_200, 0).unwrap()),
        last_exit_code: Some(-1),
        last_stdout: Some("o".to_string()),
        last_stderr: None,
        last_timed_out: true,
    };
    let row = state_to_row(&state);
    assert_eq!(row.last_attempt_at.as_deref(), Some("2026-07-10T00:00:15.123456789+00:00"));
    assert_eq!(row.last_success_at.as_deref(), Some("2016-12-31T23:59:60.250+00:00"));
    assert_eq!(row.consecutive_failures, 4_294_967_295);
    assert_eq!(row.last_timed_out, 1);
    let back = row_to_state(row);
    assert_eq!(format!("{back:?}"), format!("{state:?}"));

    let last = Timestamp::from_parts(253_402_300_799, 999_999_999).unwrap();
    let mut state = state;
    state.last_attempt_at = Some(last);
    assert_eq!(row_to_state(state_to_row(&state)).last_attempt_at, Some(last));
}

#[test]
fn a_year_of_five_digits_does_not_read_back() {
    let mut state = TargetState::empty("/a".into(), "T".into());
    state.last_attempt_at = Some(at(253_402_300_800));
    let row = state_to_row(&state);
    assert_eq!(row.last_attempt_at.as_deref(), Some("+10000-01-01T00:00:00+00:00"));
    assert_eq!(row_to_state(row).last_attempt_at, None);
}

#[test]
fn columns_that_are_not_times_count_as_none() {
    assert_eq!(parse_rfc3339(None), None);
    assert_eq!(parse_rfc3339(Some("yesterday".to_string())), None);
    assert_eq!(parse_rfc3339(Some("2026-07-10T02:00:15+02:00".to_string())), Some(at(1_783_641_615)));
}

#[test]
fn counts_of_failures_are_read_modulo_their_width() {
    let mut row = state_to_row(&TargetState::empty("/a".into(), "T".into()));
    row.consecutive_failures = -1;
    row.last_timed_out = 5;
    let state = row_to_state(row);
    assert_eq!(state.consecutive_failures, u32::MAX);
    assert!(state.last_timed_out);
}

#[test]
fn tick_intervals_are_durations() {
    assert_eq!(tick_interval("30s").unwrap().secs(), 30);
    assert_eq!(tick_interval("1h 30m").unwrap().secs(), 5_400);
    assert_eq!(tick_interval("").unwrap_err(), "value was empty");
}
