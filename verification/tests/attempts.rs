use chrono::{DateTime, TimeZone, Utc};
use crosshair::instant::{Span, Timestamp};
use crosshair::loader::StrategyTarget;
use crosshair::path::FilePath;
use crosshair::runner::{
    cleanup_steps, conclude_attempt, cron_due, cron_verdict, drain_pipes, interval_due,
    interval_verdict, needs_attempt, outcome_of, resolved_timeout, spawn_failure,
    timeout_or_default, AttemptOutcome, AttemptProcessGroup, CappedOutput, CleanupStep, Drained,
    Ending, TriggerError, DEFAULT_TIMEOUT_SECS, OUTPUT_CAP, PIPE_DRAIN_TIMEOUT_MILLIS,
};
use crosshair::schema::{Status, Strategy, Target};
use crosshair::store::TargetState;

fn ts(d: DateTime<Utc>) -> Timestamp {
    Timestamp::from_parts(d.timestamp(), d.timestamp_subsec_nanos()).unwrap()
}

fn at(secs: i64) -> Timestamp {
    Timestamp::from_parts(secs, 0).unwrap()
}

fn make_target(command: &str, timeout: Option<&str>) -> StrategyTarget {
    let strategy = Strategy {
        command: command.to_string(),
        trigger: "manual".to_string(),
        timeout: timeout.map(str::to_string),
        retry: None,
    };
    StrategyTarget {
        yaml_path: FilePath::from_text("/tmp/test.yaml"),
        target_id: "T1".to_string(),
        target: Target {
            name: "test".to_string(),
            status: Status::Identified,
            strategy: Some(strategy.clone()),
        },
        strategy,
    }
}

fn triggered(trigger: &str) -> StrategyTarget {
    let mut t = make_target("true", None);
    t.strategy.trigger = trigger.to_string();
    t
}

fn fresh() -> TargetState {
    TargetState::empty("/tmp/test.yaml".into(), "T1".into())
}

#[test]
fn terminal_status_skips_attempt() {
    let mut t = make_target("true", None);
    let state = TargetState::empty("/tmp/test.yaml".into(), "T1".into());
    t.target.status = Status::Achieved;
    assert!(!needs_attempt(&t, &state, ts(Utc::now())).unwrap());
    t.target.status = Status::SetAside;
    assert!(!needs_attempt(&t, &state, ts(Utc::now())).unwrap());
    t.target.status = Status::Identified;
    assert!(!needs_attempt(&t, &state, ts(Utc::now())).unwrap());
    t.target.status = Status::Converging;
    assert!(!needs_attempt(&t, &state, ts(Utc::now())).unwrap());
}

#[test]
fn daily_cron_runs_once_per_day_across_ticks() {
    let mut t = make_target("true", None);
    t.strategy.trigger = "cron:0 0 * * *".into();
    let first_tick = Utc.with_ymd_and_hms(2026, 7, 10, 0, 0, 15).unwrap();
    let mut state = TargetState::empty("/tmp/test.yaml".into(), "T1".into());

    assert!(needs_attempt(&t, &state, ts(first_tick)).unwrap());
    state.last_attempt_at = Some(ts(first_tick));
    assert!(!needs_attempt(&t, &state, ts(first_tick + chrono::Duration::seconds(30))).unwrap());
    assert!(!needs_attempt(&t, &state, ts(first_tick + chrono::Duration::hours(12))).unwrap());
    assert!(needs_attempt(&t, &state, ts(first_tick + chrono::Duration::days(1))).unwrap());
}

#[test]
fn interval_uses_last_attempt_as_its_rate_limit() {
    let mut t = make_target("true", None);
    t.strategy.trigger = "every:24h".into();
    let now = Utc.with_ymd_and_hms(2026, 7, 10, 12, 0, 0).unwrap();
    let mut state = TargetState::empty("/tmp/test.yaml".into(), "T1".into());

    assert!(needs_attempt(&t, &state, ts(now)).unwrap());
    state.last_attempt_at = Some(ts(now));
    assert!(!needs_attempt(&t, &state, ts(now + chrono::Duration::hours(23))).unwrap());
    assert!(needs_attempt(&t, &state, ts(now + chrono::Duration::hours(24))).unwrap());
}

#[test]
fn terminal_targets_never_run_even_when_due() {
    let mut t = triggered("every:1s");
    assert!(needs_attempt(&t, &fresh(), at(0)).unwrap());
    t.target.status = Status::Achieved;
    assert!(!needs_attempt(&t, &fresh(), at(0)).unwrap());
    t.strategy.trigger = "nonsense".into();
    assert!(!needs_attempt(&t, &fresh(), at(0)).unwrap());
}

#[test]
fn white_space_around_triggers_is_of_no_account() {
    assert!(!needs_attempt(&triggered(" manual\n"), &fresh(), at(0)).unwrap());
    assert!(needs_attempt(&triggered("\tevery: 1h "), &fresh(), at(0)).unwrap());
    assert!(needs_attempt(&triggered(" cron:  * *\t* *  * "), &fresh(), at(0)).unwrap());
}

#[test]
fn cron_matches_by_utc_minute() {
    let t = triggered("cron:0 2 * * *");
    let due = Utc.with_ymd_and_hms(2026, 7, 10, 2, 0, 59).unwrap();
    assert!(needs_attempt(&t, &fresh(), ts(due)).unwrap());
    let early = Utc.with_ymd_and_hms(2026, 7, 10, 1, 59, 59).unwrap();
    assert!(!needs_attempt(&t, &fresh(), ts(early)).unwrap());
    let late = Utc.with_ymd_and_hms(2026, 7, 10, 2, 1, 0).unwrap();
    assert!(!needs_attempt(&t, &fresh(), ts(late)).unwrap());
}

#[test]
fn cron_needs_five_fields() {
    for expression in ["* * * *", "0 * * * * *", "", "@daily"] {
        match needs_attempt(&triggered(&format!("cron:{expression}")), &fresh(), at(0)) {
            Err(TriggerError::FieldCount { expression: e }) => assert_eq!(e, expression),
            other => panic!("{other:?}"),
        }
    }
}

#[test]
fn a_cron_expression_must_be_accepted() {
    match needs_attempt(&triggered("cron: 61 * * * *"), &fresh(), at(0)) {
        Err(TriggerError::CronSyntax { expression, cause }) => {
            assert_eq!(expression, "61 * * * *");
            assert_eq!(cause, "Component error: Number out of bounds.");
        }
        other => panic!("{other:?}"),
    }
}

#[test]
fn an_interval_must_be_a_duration() {
    match needs_attempt(&triggered("every: soon"), &fresh(), at(0)) {
        Err(TriggerError::IntervalSyntax { trigger, cause }) => {
            assert_eq!(trigger, "every: soon");
            assert_eq!(cause, "expected number at 0");
        }
        other => panic!("{other:?}"),
    }
}

#[test]
fn an_interval_can_be_too_large() {
    match needs_attempt(&triggered("every:292471209years"), &fresh(), at(0)) {
        Err(TriggerError::IntervalTooLarge { trigger }) => {
            assert_eq!(trigger, "every:292471209years")
        }
        other => panic!("{other:?}"),
    }
    assert!(needs_attempt(&triggered("every:292271022years"), &fresh(), at(0)).unwrap());
}

#[test]
fn other_triggers_are_unsupported() {
    for trigger in ["on-push", "", "cron", "Manual", "every"] {
        match needs_attempt(&triggered(&format!(" {trigger} ")), &fresh(), at(0)) {
            Err(TriggerError::Unsupported { trigger: e }) => assert_eq!(e, trigger),
            other => panic!("{other:?}"),
        }
    }
}

#[test]
fn long_durations_are_accepted() {
    let now = Utc.with_ymd_and_hms(2026, 7, 10, 12, 0, 0).unwrap();
    let t = triggered("every:2592000000000000ns");
    assert!(t.has_trigger_in_range());
    let mut state = fresh();
    state.last_attempt_at = Some(ts(now));
    assert!(!needs_attempt(&t, &state, ts(now + chrono::Duration::days(29))).unwrap());
    assert!(needs_attempt(&t, &state, ts(now + chrono::Duration::days(30))).unwrap());

    let long = "12years 3months 12days 10h 20m 30s 250ms 125us 300ns";
    assert!(make_target("true", Some(long)).has_timeout_in_range());
    assert_eq!(
        resolved_timeout(&make_target("true", Some(long))).nanos(),
        250_125_300
    );
    assert_eq!(
        resolved_timeout(&make_target("true", Some("1234567890123456ns"))),
        Span::from_parts(1_234_567, 890_123_456).unwrap()
    );
    assert!(matches!(
        needs_attempt(&triggered("every:99999999999999999999s"), &fresh(), at(0)),
        Err(TriggerError::IntervalSyntax { .. })
    ));
}

#[test]
fn durations_that_overflow_are_out_of_range() {
    let text = "18446744073709551615s 1000ms";
    let mut t = triggered(&format!("every: {text}"));
    assert!(!t.has_trigger_in_range());
    t.target.status = Status::Achieved;
    assert!(t.has_trigger_in_range());
    assert!(triggered(&format!("cron:{text}")).has_trigger_in_range());
    assert!(triggered("manual").has_trigger_in_range());
    assert!(!make_target("true", Some(text)).has_timeout_in_range());
    assert!(make_target("true", None).has_timeout_in_range());
}

#[test]
fn a_matching_schedule_is_due_once_per_minute() {
    let minute = at(600);
    assert!(cron_due(true, None, &minute));
    assert!(cron_due(true, Some(Timestamp::from_parts(599, 999_999_999).unwrap()), &minute));
    assert!(!cron_due(true, Some(at(600)), &minute));
    assert!(!cron_due(true, Some(at(9_999)), &minute));
    assert!(!cron_due(false, None, &minute));
}

#[test]
fn an_evaluated_schedule_comes_to_an_error_or_a_verdict() {
    let e = || "e".to_string();
    let minute = at(600);
    assert!(cron_verdict(e(), Ok(Ok(true)), None, &minute).unwrap());
    assert!(!cron_verdict(e(), Ok(Ok(false)), None, &minute).unwrap());
    assert!(matches!(
        cron_verdict(e(), Err("bad".to_string()), None, &minute),
        Err(TriggerError::CronSyntax { expression, cause }) if expression == "e" && cause == "bad"
    ));
    assert!(matches!(
        cron_verdict(e(), Ok(Err("odd".to_string())), None, &minute),
        Err(TriggerError::CronEvaluation { expression, cause })
            if expression == "e" && cause == "odd"
    ));
}

#[test]
fn an_interval_is_due_after_its_duration() {
    let hour = Span::from_secs(3_600);
    assert_eq!(interval_due(&hour, None, &at(0)), Some(true));
    assert_eq!(interval_due(&hour, Some(at(0)), &at(3_599)), Some(false));
    assert_eq!(interval_due(&hour, Some(at(0)), &at(3_600)), Some(true));
    assert_eq!(interval_due(&hour, Some(at(10_000)), &at(0)), Some(false));
    assert_eq!(interval_due(&Span::from_secs(0), Some(at(0)), &at(0)), Some(true));
}

#[test]
fn the_longest_interval_is_that_of_the_calendar() {
    for (secs, nanos) in [
        (9_223_372_036_854_775, 807_000_000),
        (9_223_372_036_854_775, 807_000_001),
        (9_223_372_036_854_776, 0),
        (u64::MAX, 999_999_999),
    ] {
        let span = Span::from_parts(secs, nanos).unwrap();
        let fits = chrono::Duration::from_std(std::time::Duration::new(secs, nanos)).is_ok();
        assert_eq!(interval_due(&span, None, &at(0)).is_some(), fits);
        assert_eq!(interval_verdict("t".to_string(), Ok(span), None, &at(0)).is_ok(), fits);
    }
}

#[test]
fn timeouts_default_to_five_minutes() {
    assert_eq!(resolved_timeout(&make_target("true", None)), Span::from_secs(300));
    assert_eq!(resolved_timeout(&make_target("true", Some("a while"))), Span::from_secs(300));
    assert_eq!(resolved_timeout(&make_target("true", Some(""))), Span::from_secs(300));
    assert_eq!(
        resolved_timeout(&make_target("true", Some("250ms"))),
        Span::from_parts(0, 250_000_000).unwrap()
    );
    assert_eq!(resolved_timeout(&make_target("true", Some("2m"))), Span::from_secs(120));
    assert_eq!(timeout_or_default(Err("x".to_string())), Span::from_secs(DEFAULT_TIMEOUT_SECS));
    assert_eq!(timeout_or_default(Ok(Span::from_secs(7))), Span::from_secs(7));
}

fn drained(timed_out: bool) -> Drained {
    Drained { stdout: "out".to_string(), stderr: "err".to_string(), timed_out }
}

fn conclude(ending: Ending, timed_out: bool) -> AttemptOutcome {
    conclude_attempt(at(1), at(2), &Span::from_secs(90), ending, drained(timed_out))
}

#[test]
fn a_clean_exit_keeps_its_code() {
    let o = conclude(Ending::Exited(Some(0)), false);
    assert!(o.succeeded());
    assert_eq!(o.exit_code, Some(0));
    assert_eq!(o.stdout, "out");
    assert_eq!(o.stderr, "err");
    assert!(!o.timed_out);
    assert_eq!((o.started_at, o.finished_at), (at(1), at(2)));

    let o = conclude(Ending::Exited(Some(7)), false);
    assert!(!o.succeeded());
    assert_eq!(o.exit_code, Some(7));
    assert!(!conclude(Ending::Exited(None), false).succeeded());
}

#[test]
fn output_that_does_not_drain_spoils_an_exit() {
    let o = conclude(Ending::Exited(Some(0)), true);
    assert!(!o.succeeded());
    assert_eq!(o.exit_code, None);
    assert!(o.timed_out);
    assert_eq!(o.stderr, "err\ncrosshair: output drain timed out");
}

#[test]
fn a_passed_deadline_is_a_timeout() {
    let o = conclude(Ending::DeadlinePassed, false);
    assert!(o.timed_out);
    assert!(!o.succeeded());
    assert_eq!(o.exit_code, None);
    assert_eq!(o.stderr, "err\ncrosshair: killed after 1m 30s");
    let o = outcome_of(at(1), at(2), "LIMIT", Ending::DeadlinePassed, drained(true));
    assert_eq!(
        o.stderr,
        "err\ncrosshair: output drain timed out\ncrosshair: killed after LIMIT"
    );
}

#[test]
fn a_failed_wait_is_noted() {
    let o = conclude(Ending::WaitFailed("gone".to_string()), false);
    assert!(!o.succeeded() && !o.timed_out);
    assert_eq!(o.exit_code, None);
    assert_eq!(o.stderr, "err\nwait failed: gone");
    assert!(conclude(Ending::WaitFailed("gone".to_string()), true).timed_out);
}

#[test]
fn a_failed_spawn_is_a_failure() {
    let o = spawn_failure(at(1), at(2), "no shell");
    assert!(!o.succeeded() && !o.timed_out);
    assert_eq!(o.exit_code, None);
    assert_eq!(o.stdout, "");
    assert_eq!(o.stderr, "spawn failed: no shell");
}

#[test]
fn the_process_group_is_killed_whatever_happened() {
    assert_eq!(
        cleanup_steps(&Ending::Exited(Some(0))),
        vec![CleanupStep::KillGroup, CleanupStep::Drain]
    );
    for ending in [Ending::DeadlinePassed, Ending::WaitFailed(String::new())] {
        assert_eq!(
            cleanup_steps(&ending),
            vec![CleanupStep::KillGroup, CleanupStep::Reap, CleanupStep::Drain]
        );
    }
    assert_eq!(AttemptProcessGroup::new(4_321).signal_target(), -4_321);
    assert_eq!(PIPE_DRAIN_TIMEOUT_MILLIS, 250);
}

#[test]
fn readers_that_fail_leave_no_text() {
    let d = drain_pipes(Some((Some("a".to_string()), None)));
    assert_eq!((d.stdout.as_str(), d.stderr.as_str(), d.timed_out), ("a", "", false));
    let d = drain_pipes(None);
    assert_eq!((d.stdout.as_str(), d.stderr.as_str(), d.timed_out), ("", "", true));
}

#[test]
fn output_is_kept_up_to_its_cap() {
    let mut out = CappedOutput::new(OUTPUT_CAP);
    assert_eq!(out.next_read(), 4_096);
    let mut taken = 0;
    while out.next_read() > 0 {
        let want = out.next_read();
        out.accept(&vec![b'x'; want]);
        taken += want;
    }
    assert_eq!(taken, 65_536);
    assert_eq!(out.into_text(), "x".repeat(65_536));

    let mut small = CappedOutput::new(5);
    small.accept(b"abc");
    assert_eq!(small.next_read(), 2);
    small.accept(b"defg");
    assert_eq!(small.next_read(), 0);
    small.accept(b"h");
    assert_eq!(small.into_text(), "abcde");

    let mut cut = CappedOutput::new(2);
    cut.accept("a…".as_bytes());
    assert_eq!(cut.into_text(), "a\u{fffd}");
}
