use crosshair::instant::{Span, Timestamp};
use crosshair::loader::StrategyTarget;
use crosshair::path::FilePath;
use crosshair::schema::{Status, Strategy, Target};
use crosshair::status::{
    cooldown_label, outcome_label, remaining_span, resting_label, round_to_seconds, status_label,
    status_report, status_row, truncate, ts,
};
use crosshair::store::TargetState;

fn at(secs: i64) -> Timestamp {
    Timestamp::from_parts(secs, 0).unwrap()
}

fn target(id: &str, status: Status) -> StrategyTarget {
    let strategy = Strategy {
        command: "true".to_string(),
        trigger: "manual".to_string(),
        timeout: None,
        retry: None,
    };
    StrategyTarget {
        yaml_path: FilePath::from_text("/tmp/x.yaml"),
        target_id: id.to_string(),
        target: Target { name: "x".to_string(), status, strategy: Some(strategy.clone()) },
        strategy,
    }
}

fn fresh() -> TargetState {
    TargetState::empty("/tmp/x.yaml".into(), "T1".into())
}

#[test]
fn each_status_has_a_label() {
    assert_eq!(status_label(Status::Identified), "ident");
    assert_eq!(status_label(Status::Converging), "conv");
    assert_eq!(status_label(Status::Achieved), "done");
    assert_eq!(status_label(Status::SetAside), "aside");
}

#[test]
fn outcomes_are_labelled() {
    let mut s = fresh();
    assert_eq!(outcome_label(&s), "—");
    s.last_attempt_at = Some(at(0));
    assert_eq!(outcome_label(&s), "fail");
    s.last_exit_code = Some(1);
    assert_eq!(outcome_label(&s), "fail");
    s.last_exit_code = Some(0);
    assert_eq!(outcome_label(&s), "ok");
    s.last_timed_out = true;
    assert_eq!(outcome_label(&s), "timeout");
}

#[test]
fn cooldowns_are_labelled_in_whole_seconds() {
    let mut s = fresh();
    assert_eq!(cooldown_label(&s, at(0)), "—");
    s.cooldown_until = Some(at(5_400));
    assert_eq!(cooldown_label(&s, at(0)), "in 1h 30m");
    assert_eq!(cooldown_label(&s, Timestamp::from_parts(5_397, 1).unwrap()), "in 2s");
    assert_eq!(cooldown_label(&s, Timestamp::from_parts(5_399, 1).unwrap()), "in 0s");
    assert_eq!(cooldown_label(&s, at(5_400)), "expired");
    assert_eq!(cooldown_label(&s, at(9_999)), "expired");
    assert_eq!(resting_label("X"), "in X");
}

#[test]
fn nothing_remains_past_a_leap_second_at_midnight() {
    let now = Timestamp::from_parts(1_483_228_799, 1_900_000_000).unwrap();
    let until = at(1_483_228_800);
    assert!(now.is_before(&until));
    assert_eq!(remaining_span(&until, &now), Span::from_secs(0));
    assert_eq!(remaining_span(&at(10), &at(3)), Span::from_secs(7));
}

#[test]
fn spans_lose_their_part_of_a_second() {
    let d = Span::from_parts(3, 999_999_999).unwrap();
    assert_eq!(round_to_seconds(&d), Span::from_secs(3));
}

#[test]
fn times_are_shown_in_utc() {
    assert_eq!(ts(&None), "—");
    assert_eq!(ts(&Some(at(1_783_641_615))), "2026-07-10 00:00:15");
}

#[test]
fn long_ids_are_cut_short() {
    assert_eq!(truncate("abc", 3), "abc");
    assert_eq!(truncate("abcd", 3), "ab…");
    assert_eq!(truncate("abcdefghijklmnopqrstuvwxyz", 24), "abcdefghijklmnopqrstuvw…");
    assert_eq!(truncate("éa", 3), "éa");
    assert_eq!(truncate("éab", 3), "é…");
    assert_eq!(truncate("aéb", 3), "a…");
    assert_eq!(truncate("éé", 2), "…");
    assert_eq!(truncate("ab", 1), "…");
    for id in ["", "abc", "ééé", "aéb🎯x", "🎯🎯🎯🎯🎯🎯🎯"] {
        for max in 1..30 {
            let shown = truncate(id, max);
            assert!(shown.chars().count() <= max);
            assert_eq!(shown == id, id.len() <= max);
            assert!(shown == id || id.starts_with(shown.strip_suffix('…').unwrap()));
        }
    }
}

#[test]
fn an_id_with_a_character_across_the_cut_has_its_row() {
    let id = "é".repeat(13);
    let rows = vec![
        (target(&id, Status::Identified), fresh()),
        (target("T2", Status::Identified), fresh()),
    ];
    let lines = status_report(&rows, at(0));
    assert_eq!(lines.len(), 3);
    let shown = format!("{}…", "é".repeat(11));
    assert!(lines[1].starts_with(&format!("{shown:<24} ident ")));
    assert!(lines[2].starts_with("T2 "));
}

#[test]
fn rows_are_in_columns() {
    let mut s = fresh();
    let row = status_row(&target("T1", Status::Identified), &s, at(0));
    assert_eq!(
        row,
        format!(
            "{:<24} {:<8} {:<10} {:<19} {:<19} {:<8} {}",
            "T1", "ident", "—", "—", "—", 0, "—"
        )
    );
    s.last_attempt_at = Some(at(1_783_641_615));
    s.last_exit_code = Some(3);
    s.consecutive_failures = 12;
    s.cooldown_until = Some(at(1_783_641_675));
    let row = status_row(
        &target("a-target-with-a-very-long-id", Status::Converging),
        &s,
        at(1_783_641_615),
    );
    assert_eq!(
        row,
        format!(
            "{:<24} {:<8} {:<10} {:<19} {:<19} {:<8} {}",
            "a-target-with-a-very-lo…", "conv", "fail", "2026-07-10 00:00:15", "—", 12, "in 1m"
        )
    );
}

#[test]
fn a_report_has_a_head_and_a_row_per_target() {
    assert_eq!(
        status_report(&vec![], at(0)),
        vec!["(no strategy-bearing targets configured)".to_string()]
    );
    let rows = vec![
        (target("T1", Status::Identified), fresh()),
        (target("T2", Status::SetAside), fresh()),
    ];
    let lines = status_report(&rows, at(0));
    assert_eq!(lines.len(), 3);
    assert_eq!(
        lines[0],
        format!(
            "{:<24} {:<8} {:<10} {:<19} {:<19} {:<8} COOLDOWN",
            "TARGET", "STATUS", "OUTCOME", "LAST ATTEMPT", "LAST SUCCESS", "FAILS"
        )
    );
    assert!(lines[1].starts_with("T1 "));
    assert!(lines[2].starts_with("T2 ") && lines[2].contains(" aside "));
}
