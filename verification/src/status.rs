//! The status table: one row per strategy-bearing target.

use crate::instant::{Instant, Span, Timestamp, NANOS_PER_SEC};
use crate::loader::{StrategyTarget, StrategyTargetView};
use crate::outside::{duration_text, format_duration, format_instant, instant_text};
use crate::runner::{instant_opt, AttemptOutcomeView};
use crate::schema::Status;
use crate::store::{state_after, TargetState, TargetStateView};
use crate::text::{
    beginning, beginning_of, decimal, decimal_text, lemma_longest_beginning,
    lemma_no_more_chars_than_bytes, pad, padded,
};
use vstd::prelude::*;
use vstd::string::StringExecFns;
use vstd::utf8::encode_utf8;

verus! {

/// The label of a target's status.
pub open spec fn status_label_spec(s: Status) -> Seq<char> {
    match s {
        Status::Identified => "ident"@,
        Status::Converging => "conv"@,
        Status::Achieved => "done"@,
        Status::SetAside => "aside"@,
    }
}

/// The label of a target's status.
pub fn status_label(s: Status) -> (r: &'static str)
    ensures
        r@ == status_label_spec(s),
{
    match s {
        Status::Identified => "ident",
        Status::Converging => "conv",
        Status::Achieved => "done",
        Status::SetAside => "aside",
    }
}

/// The label of the last attempt's outcome, with a dash if there was no attempt.
pub open spec fn outcome_label_spec(state: TargetStateView) -> Seq<char> {
    if state.last_attempt_at is None {
        "—"@
    } else if state.last_timed_out {
        "timeout"@
    } else if state.last_exit_code == Some(0i32) {
        "ok"@
    } else {
        "fail"@
    }
}

/// The label of the last attempt's outcome, with a dash if there was no attempt.
pub fn outcome_label(state: &TargetState) -> (r: &'static str)
    ensures
        r@ == outcome_label_spec(state@),
{
    if state.last_attempt_at.is_none() {
        return "—";
    }
    if state.last_timed_out {
        return "timeout";
    }
    match state.last_exit_code {
        Some(code) => if code == 0 {
            "ok"
        } else {
            "fail"
        },
        None => "fail",
    }
}

/// The whole seconds of a number of nanoseconds, in nanoseconds.
pub open spec fn whole_seconds(nanos: int) -> int {
    nanos - nanos % NANOS_PER_SEC as int
}

/// A span without its part of a second.
pub fn round_to_seconds(d: &Span) -> (r: Span)
    ensures
        r@ == whole_seconds(d@ as int),
{
    Span::from_secs(d.secs())
}

/// The nanoseconds that are left of a cooldown, which are none if the clock has passed it.
pub open spec fn remaining(until: Instant, now: Instant) -> int {
    if until.since(now) < 0 {
        0
    } else {
        until.since(now)
    }
}

/// What is left of a target's cooldown, in words.
pub open spec fn cooldown_label_spec(cooldown_until: Option<Instant>, now: Instant) -> Seq<char> {
    match cooldown_until {
        None => "—"@,
        Some(until) => if now.before(until) {
            "in "@ + duration_text(whole_seconds(remaining(until, now)) as nat)
        } else {
            "expired"@
        },
    }
}

/// The span from `now` to `until`, or none at all if the clock has passed `until`.
pub fn remaining_span(until: &Timestamp, now: &Timestamp) -> (r: Span)
    ensures
        r@ == remaining(until@, now@),
{
    let nanos: i128 = until.nanos_since(now);
    if nanos < 0 {
        return Span::from_secs(0);
    }
    let secs: u64 = (nanos as u128 / 1_000_000_000) as u64;
    let rest: u32 = (nanos as u128 % 1_000_000_000) as u32;
    Span::from_parts(secs, rest).unwrap()
}

/// The label of a cooldown of which that much is left.
pub fn resting_label(left: &str) -> (r: String)
    ensures
        r@ == "in "@ + left@,
{
    let mut out: String = "in ".to_owned();
    out.append(left);
    out
}

/// What is left of a target's cooldown, in words.
pub fn cooldown_label(state: &TargetState, now: Timestamp) -> (r: String)
    ensures
        r@ == cooldown_label_spec(state@.cooldown_until, now@),
{
    match state.cooldown_until {
        None => "—".to_owned(),
        Some(until) => {
            if !now.is_before(&until) {
                return "expired".to_owned();
            }
            let left = round_to_seconds(&remaining_span(&until, &now));
            resting_label(format_duration(&left).as_str())
        },
    }
}

/// A point in time in the table, with a dash in place of none.
pub open spec fn ts_spec(t: Option<Instant>) -> Seq<char> {
    match t {
        Some(t) => instant_text(t.secs, t.nanos),
        None => "—"@,
    }
}

/// A point in time in the table, with a dash in place of none.
pub fn ts(t: &Option<Timestamp>) -> (r: String)
    ensures
        r@ == ts_spec(instant_opt(*t)),
{
    match t {
        Some(t) => format_instant(t),
        None => "—".to_owned(),
    }
}

/// A text of more than `max` bytes cut short of that, between two characters, with an ellipsis.
pub open spec fn truncated(s: Seq<char>, max: int) -> Seq<char> {
    if encode_utf8(s).len() <= max {
        s
    } else {
        beginning(s, max - 1) + "…"@
    }
}

/// Cuts a text of more than `max` bytes short of that, between two characters, and appends an
/// ellipsis.
pub fn truncate(s: &str, max: usize) -> (r: String)
    requires
        max >= 1,
    ensures
        r@ == truncated(s@, max as int),
{
    if s.as_bytes().len() <= max {
        return s.to_owned();
    }
    let mut out: String = beginning_of(s, max - 1);
    out.append("…");
    out
}

/// Width of the target column.
pub const TARGET_WIDTH: usize = 24;

/// Six columns filled up to their widths, and a seventh as it is.
pub open spec fn columns(
    target: Seq<char>,
    status: Seq<char>,
    outcome: Seq<char>,
    last_attempt: Seq<char>,
    last_success: Seq<char>,
    failures: Seq<char>,
    cooldown: Seq<char>,
) -> Seq<char> {
    padded(target, TARGET_WIDTH as int) + " "@ + padded(status, 8) + " "@ + padded(outcome, 10)
        + " "@ + padded(last_attempt, 19) + " "@ + padded(last_success, 19) + " "@ + padded(
        failures,
        8,
    ) + " "@ + cooldown
}

/// Six columns filled up to their widths, and a seventh as it is.
pub fn join_columns(
    target: &str,
    status: &str,
    outcome: &str,
    last_attempt: &str,
    last_success: &str,
    failures: &str,
    cooldown: &str,
) -> (r: String)
    ensures
        r@ == columns(
            target@,
            status@,
            outcome@,
            last_attempt@,
            last_success@,
            failures@,
            cooldown@,
        ),
{
    let mut out: String = pad(target, TARGET_WIDTH);
    out.append(" ");
    out.append(pad(status, 8).as_str());
    out.append(" ");
    out.append(pad(outcome, 10).as_str());
    out.append(" ");
    out.append(pad(last_attempt, 19).as_str());
    out.append(" ");
    out.append(pad(last_success, 19).as_str());
    out.append(" ");
    out.append(pad(failures, 8).as_str());
    out.append(" ");
    out.append(cooldown);
    out
}

/// The head of the table.
pub open spec fn header() -> Seq<char> {
    columns(
        "TARGET"@,
        "STATUS"@,
        "OUTCOME"@,
        "LAST ATTEMPT"@,
        "LAST SUCCESS"@,
        "FAILS"@,
        "COOLDOWN"@,
    )
}

/// The head of the table.
pub fn status_header() -> (r: String)
    ensures
        r@ == header(),
{
    join_columns(
        "TARGET",
        "STATUS",
        "OUTCOME",
        "LAST ATTEMPT",
        "LAST SUCCESS",
        "FAILS",
        "COOLDOWN",
    )
}

/// The row of a target.
pub open spec fn row(t: StrategyTargetView, state: TargetStateView, now: Instant) -> Seq<char> {
    columns(
        truncated(t.target_id, TARGET_WIDTH as int),
        status_label_spec(t.target.status),
        outcome_label_spec(state),
        ts_spec(state.last_attempt_at),
        ts_spec(state.last_success_at),
        decimal(state.consecutive_failures as nat),
        cooldown_label_spec(state.cooldown_until, now),
    )
}

/// The row of a target.
pub fn status_row(t: &StrategyTarget, state: &TargetState, now: Timestamp) -> (r: String)
    ensures
        r@ == row(t@, state@, now@),
{
    join_columns(
        truncate(t.target_id.as_str(), TARGET_WIDTH).as_str(),
        status_label(t.target.status),
        outcome_label(state),
        ts(&state.last_attempt_at).as_str(),
        ts(&state.last_success_at).as_str(),
        decimal_text(state.consecutive_failures).as_str(),
        cooldown_label(state, now).as_str(),
    )
}

/// The views of the lines of a report.
pub open spec fn lines_view(s: Seq<String>) -> Seq<Seq<char>> {
    Seq::new(s.len(), |i: int| s[i]@)
}

/// The lines of the report on targets with their states: a remark if there are none, or else
/// the head and a row for each.
pub open spec fn report(rows: Seq<(StrategyTarget, TargetState)>, now: Instant) -> Seq<Seq<char>> {
    if rows.len() == 0 {
        seq!["(no strategy-bearing targets configured)"@]
    } else {
        seq![header()] + Seq::new(rows.len(), |i: int| row(rows[i].0@, rows[i].1@, now))
    }
}

/// The lines of the report on targets with their states.
pub fn status_report(rows: &Vec<(StrategyTarget, TargetState)>, now: Timestamp) -> (r: Vec<String>)
    ensures
        lines_view(r@) == report(rows@, now@),
{
    let mut out: Vec<String> = Vec::new();
    if rows.len() == 0 {
        out.push("(no strategy-bearing targets configured)".to_owned());
        assert(lines_view(out@) =~= report(rows@, now@));
        return out;
    }
    out.push(status_header());
    let mut i: usize = 0;
    while i < rows.len()
        invariant
            rows.len() > 0,
            i <= rows.len(),
            lines_view(out@) =~= report(rows@, now@).take(i + 1),
        decreases rows.len() - i,
    {
        let entry = &rows[i];
        let line = status_row(&entry.0, &entry.1, now);
        proof {
            let all = report(rows@, now@);
            assert(all[i + 1] == line@);
            assert(lines_view(out@.push(line)) =~= lines_view(out@).push(line@));
            assert(all.take(i + 2) =~= all.take(i + 1).push(line@));
        }
        out.push(line);
        i += 1;
    }
    assert(report(rows@, now@).take(rows.len() + 1) =~= report(rows@, now@));
    out
}

/// A text is shown whole if it fits, and else by its longest beginning that leaves room for the
/// ellipsis. Either way it takes up no more than `max` characters.
pub proof fn law_shown_text_fits(s: Seq<char>, max: int)
    requires
        max >= 1,
    ensures
        truncated(s, max).len() <= max,
        encode_utf8(s).len() <= max ==> truncated(s, max) == s,
        encode_utf8(s).len() > max ==> exists|k: int|
            {
                &&& 0 <= k < s.len()
                &&& truncated(s, max) == #[trigger] s.take(k) + "…"@
                &&& encode_utf8(s.take(k)).len() <= max - 1
                &&& encode_utf8(s.take(k + 1)).len() > max - 1
            },
{
    reveal_strlit("…");
    if encode_utf8(s).len() <= max {
        lemma_no_more_chars_than_bytes(s);
    } else {
        let k = lemma_longest_beginning(s, max - 1);
        lemma_no_more_chars_than_bytes(s.take(k));
    }
}

/// The report has one row for each target, in order, below the head, whatever the ids are and
/// whether or not a target has been attempted.
pub proof fn law_one_row_per_target(
    rows: Seq<(StrategyTarget, TargetState)>,
    now: Instant,
    i: int,
)
    requires
        0 <= i < rows.len(),
    ensures
        report(rows, now).len() == rows.len() + 1,
        report(rows, now)[0] == header(),
        report(rows, now)[i + 1] == row(rows[i].0@, rows[i].1@, now),
{
}

/// A target that has never been attempted appears in the table, with dashes in place of its
/// outcome, of both times and of its cooldown.
pub proof fn law_fresh_target_appears(t: StrategyTargetView, now: Instant)
    ensures
        row(t, TargetStateView::empty(t.key()), now) == columns(
            truncated(t.target_id, TARGET_WIDTH as int),
            status_label_spec(t.target.status),
            "—"@,
            "—"@,
            "—"@,
            decimal(0),
            "—"@,
        ),
{
}

/// The table says that the last attempt went well just if it did.
pub proof fn law_label_tells_success(
    t: StrategyTargetView,
    outcome: AttemptOutcomeView,
    cooldown_until: Option<Instant>,
    prior: TargetStateView,
)
    ensures
        outcome_label_spec(state_after(t, outcome, cooldown_until, prior)) == "ok"@
            <==> outcome.succeeded(),
{
    reveal_strlit("ok");
    reveal_strlit("timeout");
    reveal_strlit("fail");
    assert("ok"@.len() == 2 && "timeout"@.len() == 7 && "fail"@.len() == 4);
}

/// The outcome column tells, of a target that has been attempted, whether the last attempt timed
/// out, went well or failed; of the state only the attempt's exit code and timeout count.
pub proof fn law_outcome_column(state: TargetStateView)
    ensures
        state.last_attempt_at is None ==> outcome_label_spec(state) == "—"@,
        state.last_attempt_at is Some ==> {
            &&& state.last_timed_out ==> outcome_label_spec(state) == "timeout"@
            &&& !state.last_timed_out && state.last_exit_code == Some(0i32) ==> outcome_label_spec(
                state,
            ) == "ok"@
            &&& !state.last_timed_out && state.last_exit_code != Some(0i32) ==> outcome_label_spec(
                state,
            ) == "fail"@
        },
{
}

/// The status column tells the four statuses apart.
pub proof fn law_status_column(s: Status)
    ensures
        status_label_spec(Status::Identified) == "ident"@,
        status_label_spec(Status::Converging) == "conv"@,
        status_label_spec(Status::Achieved) == "done"@,
        status_label_spec(Status::SetAside) == "aside"@,
{
}

/// The cooldown column has a dash without a cooldown, tells of one that has ended, and else
/// gives the whole seconds that are left of it.
pub proof fn law_cooldown_column(until: Instant, now: Instant, seconds: nat)
    ensures
        cooldown_label_spec(None, now) == "—"@,
        !now.before(until) ==> cooldown_label_spec(Some(until), now) == "expired"@,
        now.before(until) && seconds * 1_000_000_000 <= until.since(now) < (seconds + 1)
            * 1_000_000_000 ==> cooldown_label_spec(Some(until), now) == "in "@ + duration_text(
            seconds * 1_000_000_000,
        ),
        now.before(until) && until.since(now) <= 0 ==> cooldown_label_spec(Some(until), now)
            == "in "@ + duration_text(0),
{
    let left = until.since(now);
    if now.before(until) && seconds * 1_000_000_000 <= left < (seconds + 1) * 1_000_000_000 {
        assert(left % 1_000_000_000 == left - seconds * 1_000_000_000);
        assert(whole_seconds(remaining(until, now)) == seconds * 1_000_000_000);
    }
}

/// Rounding takes away less than a second and leaves whole seconds. What is left of a cooldown
/// is the time up to its end, and nothing past it.
pub proof fn law_rounding(nanos: int, until: Instant, now: Instant)
    ensures
        nanos - 1_000_000_000 < whole_seconds(nanos) <= nanos,
        whole_seconds(nanos) % 1_000_000_000 == 0,
        until.since(now) >= 0 ==> remaining(until, now) == until.since(now),
        until.since(now) < 0 ==> remaining(until, now) == 0,
{
}

/// A time is shown as its text, and no time as a dash.
pub proof fn law_time_column(t: Instant)
    ensures
        ts_spec(Some(t)) == instant_text(t.secs, t.nanos),
        ts_spec(None) == "—"@,
{
}

/// Where the columns before it keep to their widths, each column begins at its own place, with
/// nothing but spaces up to the next.
pub proof fn law_columns(
    target: Seq<char>,
    status: Seq<char>,
    outcome: Seq<char>,
    last_attempt: Seq<char>,
    last_success: Seq<char>,
    failures: Seq<char>,
    cooldown: Seq<char>,
)
    requires
        target.len() <= 24,
        status.len() <= 8,
        outcome.len() <= 10,
        last_attempt.len() <= 19,
        last_success.len() <= 19,
        failures.len() <= 8,
    ensures
        ({
            let line = columns(
                target,
                status,
                outcome,
                last_attempt,
                last_success,
                failures,
                cooldown,
            );
            &&& line.len() == 94 + cooldown.len()
            &&& line.subrange(0, target.len() as int) == target
            &&& line.subrange(25, 25int + status.len()) == status
            &&& line.subrange(34, 34int + outcome.len()) == outcome
            &&& line.subrange(45, 45int + last_attempt.len()) == last_attempt
            &&& line.subrange(65, 65int + last_success.len()) == last_success
            &&& line.subrange(85, 85int + failures.len()) == failures
            &&& line.subrange(94, 94int + cooldown.len()) == cooldown
            &&& forall|i: int|
                target.len() <= i < 25 || 25 + status.len() <= i < 34 || 34 + outcome.len() <= i
                    < 45 || 45 + last_attempt.len() <= i < 65 || 65 + last_success.len() <= i < 85
                    || 85 + failures.len() <= i < 94 ==> #[trigger] line[i] == ' '
        }),
{
    reveal_strlit(" ");
    let line = columns(target, status, outcome, last_attempt, last_success, failures, cooldown);
    assert(line.subrange(0, target.len() as int) =~= target);
    assert(line.subrange(25, 25int + status.len()) =~= status);
    assert(line.subrange(34, 34int + outcome.len()) =~= outcome);
    assert(line.subrange(45, 45int + last_attempt.len()) =~= last_attempt);
    assert(line.subrange(65, 65int + last_success.len()) =~= last_success);
    assert(line.subrange(85, 85int + failures.len()) =~= failures);
    assert(line.subrange(94, 94int + cooldown.len()) =~= cooldown);
}

/// Whatever the widths, a column that is too long only moves the later ones: each is filled up
/// to its width by itself, and one space stands between two.
pub proof fn law_columns_are_joined(
    target: Seq<char>,
    status: Seq<char>,
    outcome: Seq<char>,
    last_attempt: Seq<char>,
    last_success: Seq<char>,
    failures: Seq<char>,
    cooldown: Seq<char>,
)
    ensures
        columns(target, status, outcome, last_attempt, last_success, failures, cooldown) == padded(
            target,
            24,
        ) + seq![' '] + padded(status, 8) + seq![' '] + padded(outcome, 10) + seq![' '] + padded(
            last_attempt,
            19,
        ) + seq![' '] + padded(last_success, 19) + seq![' '] + padded(failures, 8) + seq![' ']
            + cooldown,
{
    reveal_strlit(" ");
    assert(" "@ =~= seq![' ']);
}

/// Each column of a row shows what it is named for: the id, the status, the outcome, the time of
/// the last attempt, that of the last success, the failures in a row, and the cooldown.
pub proof fn law_row_columns(t: StrategyTargetView, state: TargetStateView, now: Instant)
    ensures
        row(t, state, now) == columns(
            truncated(t.target_id, 24),
            status_label_spec(t.target.status),
            outcome_label_spec(state),
            match state.last_attempt_at {
                Some(at) => instant_text(at.secs, at.nanos),
                None => "—"@,
            },
            match state.last_success_at {
                Some(at) => instant_text(at.secs, at.nanos),
                None => "—"@,
            },
            decimal(state.consecutive_failures as nat),
            cooldown_label_spec(state.cooldown_until, now),
        ),
{
}

/// Below the head of the last success stands its time, and never that of another attempt: where
/// the time of the last attempt keeps to its width, the time of the last success is found at its
/// place.
pub proof fn law_last_success_column(
    t: StrategyTargetView,
    state: TargetStateView,
    now: Instant,
    at: Instant,
)
    requires
        state.last_success_at == Some(at),
        state.last_attempt_at matches Some(last) ==> instant_text(last.secs, last.nanos).len()
            <= 19,
    ensures
        ({
            let text = instant_text(at.secs, at.nanos);
            row(t, state, now).subrange(65, 65int + text.len()) == text
        }),
        state.last_attempt_at matches Some(last) ==> {
            let text = instant_text(last.secs, last.nanos);
            row(t, state, now).subrange(45, 45int + text.len()) == text
        },
{
    reveal_strlit("—");
    reveal_strlit(" ");
    lemma_label_lengths(t, state);
    law_shown_text_fits(t.target_id, 24);
    let line = row(t, state, now);
    let text = instant_text(at.secs, at.nanos);
    assert(line.subrange(65, 65int + text.len()) =~= text);
    if let Some(last) = state.last_attempt_at {
        let text = instant_text(last.secs, last.nanos);
        assert(line.subrange(45, 45int + text.len()) =~= text);
    }
}

/// Labels keep to the widths of their columns.
proof fn lemma_label_lengths(t: StrategyTargetView, state: TargetStateView)
    ensures
        status_label_spec(t.target.status).len() <= 8,
        outcome_label_spec(state).len() <= 10,
{
    reveal_strlit("ident");
    reveal_strlit("conv");
    reveal_strlit("done");
    reveal_strlit("aside");
    reveal_strlit("—");
    reveal_strlit("timeout");
    reveal_strlit("ok");
    reveal_strlit("fail");
}

/// Two states that differ in the time of their last attempt alone have rows that differ in its
/// column alone, as far as it keeps to its width.
pub proof fn law_rows_differ_in_one_column(
    t: StrategyTargetView,
    a: TargetStateView,
    b: TargetStateView,
    now: Instant,
    i: int,
)
    requires
        a.last_attempt_at matches Some(at) && instant_text(at.secs, at.nanos).len() <= 19,
        b.last_attempt_at matches Some(at) && instant_text(at.secs, at.nanos).len() <= 19,
        b == (TargetStateView { last_attempt_at: b.last_attempt_at, ..a }),
    ensures
        row(t, a, now).len() == row(t, b, now).len(),
        0 <= i < row(t, a, now).len() && !(45 <= i < 64) ==> row(t, a, now)[i] == row(t, b, now)[i],
{
    reveal_strlit(" ");
    lemma_label_lengths(t, a);
    law_shown_text_fits(t.target_id, 24);
}

/// Without targets the report is one remark, and the lines of a report are seen as they are.
pub proof fn law_empty_report(now: Instant, lines: Seq<String>, i: int)
    requires
        0 <= i < lines.len(),
    ensures
        report(Seq::empty(), now) == seq!["(no strategy-bearing targets configured)"@],
        lines_view(lines).len() == lines.len(),
        lines_view(lines)[i] == lines[i]@,
{
}

} // verus!
