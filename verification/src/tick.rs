//! What a tick of the convergence loop decides for a target.

use crate::duration::duration_text_in_range;
use crate::instant::{Instant, Span, Timestamp, MAX_SECS};
use crate::loader::{Key, StrategyTarget, StrategyTargetView};
use crate::outside::{cron_match, cron_syntax, duration_parse, parse_duration, span_result};
use crate::runner::{
    attempt_need, instant_opt, max_interval, needs_attempt, trigger_of, verdict, AttemptOutcome,
    AttemptOutcomeView, Trigger, TriggerError, TriggerErrorView,
};
use crate::schema::terminal;
use crate::store::{
    current_state, fallback_after, read_view, state_after, state_after_attempt, state_of,
    state_opt, StateRowView, States, Store, TargetState, TargetStateView,
};
use crate::text::word_count;
use vstd::prelude::*;

verus! {

/// Seconds of cooldown after the first failure in a row: half an hour.
pub const BACKOFF_FIRST_SECS: u32 = 1_800;

/// Seconds of cooldown after the second failure in a row: two hours.
pub const BACKOFF_SECOND_SECS: u32 = 7_200;

/// Seconds of cooldown after the third failure in a row: six hours.
pub const BACKOFF_THIRD_SECS: u32 = 21_600;

/// Seconds of cooldown after any later failure in a row: a day.
pub const BACKOFF_LAST_SECS: u32 = 86_400;

/// Seconds of cooldown after that many failures in a row, the new one included.
pub open spec fn backoff_secs(failures: int) -> int {
    if failures <= 1 {
        BACKOFF_FIRST_SECS as int
    } else if failures == 2 {
        BACKOFF_SECOND_SECS as int
    } else if failures == 3 {
        BACKOFF_THIRD_SECS as int
    } else {
        BACKOFF_LAST_SECS as int
    }
}

/// Seconds of cooldown after that many failures in a row, the new one included.
pub fn backoff_after(failures: u32) -> (r: u32)
    ensures
        r == backoff_secs(failures as int),
{
    if failures <= 1 {
        BACKOFF_FIRST_SECS
    } else if failures == 2 {
        BACKOFF_SECOND_SECS
    } else if failures == 3 {
        BACKOFF_THIRD_SECS
    } else {
        BACKOFF_LAST_SECS
    }
}

/// Until when a target rests after an attempt in the tick at `now`: not at all after a
/// success, and as the backoff ladder says after a failure.
pub open spec fn cooldown_after(
    prior: TargetStateView,
    outcome: AttemptOutcomeView,
    now: Instant,
) -> Option<Instant> {
    if outcome.succeeded() {
        None
    } else {
        Some(now.plus(backoff_secs(prior.consecutive_failures + 1)))
    }
}

/// The calendar reaches to the end of the cooldown that another failure brings.
pub open spec fn cooldown_in_calendar(prior: TargetStateView, now: Instant) -> bool {
    now.secs + backoff_secs(prior.consecutive_failures + 1) <= MAX_SECS
}

/// Another failure can be counted, and the calendar reaches to the end of its cooldown.
pub open spec fn room_for_failure(prior: TargetStateView, now: Instant) -> bool {
    prior.consecutive_failures < u32::MAX && cooldown_in_calendar(prior, now)
}

/// Seconds of cooldown after one more failure. A counter that is full is long past the end of
/// the ladder.
fn next_backoff(prior: &TargetState) -> (r: u32)
    ensures
        r == backoff_secs(prior@.consecutive_failures + 1),
{
    if prior.consecutive_failures < u32::MAX {
        backoff_after(prior.consecutive_failures + 1)
    } else {
        BACKOFF_LAST_SECS
    }
}

/// Whether the calendar reaches to the end of the cooldown that another failure brings.
pub fn has_cooldown_in_calendar(prior: &TargetState, now: &Timestamp) -> (r: bool)
    ensures
        r == cooldown_in_calendar(prior@, now@),
{
    now.secs() + next_backoff(prior) as i64 <= MAX_SECS
}

/// Whether another failure can be counted, and the calendar reaches to the end of its cooldown.
pub fn has_room_for_failure(prior: &TargetState, now: &Timestamp) -> (r: bool)
    ensures
        r == room_for_failure(prior@, now@),
{
    prior.consecutive_failures < u32::MAX && has_cooldown_in_calendar(prior, now)
}

/// Until when a target rests after an attempt.
pub fn next_cooldown(prior: &TargetState, outcome: &AttemptOutcome, now: Timestamp) -> (r: Option<
    Timestamp,
>)
    requires
        outcome@.succeeded() || cooldown_in_calendar(prior@, now@),
    ensures
        instant_opt(r) == cooldown_after(prior@, outcome@, now@),
{
    if outcome.succeeded() {
        return None;
    }
    Some(now.plus_seconds(next_backoff(prior)))
}

/// Whether a tick at `now` runs a target's strategy: its trigger is due, and it is not
/// resting.
pub open spec fn attempt_decision(
    t: StrategyTargetView,
    prior: TargetStateView,
    now: Instant,
) -> Result<bool, TriggerErrorView> {
    match attempt_need(t, prior.last_attempt_at, now) {
        Err(e) => Err(e),
        Ok(due) => Ok(
            due && match prior.cooldown_until {
                Some(until) => !now.before(until),
                None => true,
            },
        ),
    }
}

/// Decides whether a tick at `now` runs a target's strategy.
pub fn should_attempt(t: &StrategyTarget, prior: &TargetState, now: Timestamp) -> (r: Result<
    bool,
    TriggerError,
>)
    requires
        t@.trigger_in_range(),
    ensures
        verdict(r) == attempt_decision(t@, prior@, now@),
{
    match needs_attempt(t, prior, now) {
        Err(e) => Err(e),
        Ok(due) => {
            if !due {
                return Ok(false);
            }
            match prior.cooldown_until {
                Some(until) => Ok(!now.is_before(&until)),
                None => Ok(true),
            }
        },
    }
}

/// The state of a target after an attempt in the tick at `now`.
pub open spec fn state_after_tick(
    t: StrategyTargetView,
    prior: TargetStateView,
    outcome: AttemptOutcomeView,
    now: Instant,
) -> TargetStateView {
    state_after(t, outcome, cooldown_after(prior, outcome, now), prior)
}

/// The state of a target after an attempt in the tick at `now`, as it is to be recorded.
pub fn concluded_state(
    t: &StrategyTarget,
    prior: &TargetState,
    outcome: &AttemptOutcome,
    now: Timestamp,
) -> (r: TargetState)
    requires
        outcome@.succeeded() || room_for_failure(prior@, now@),
    ensures
        r@ == state_after_tick(t@, prior@, outcome@, now@),
{
    let cooldown_until = next_cooldown(prior, outcome, now);
    state_after_attempt(t, outcome, cooldown_until, prior)
}

/// Why a tick came to nothing for a target.
#[derive(Debug)]
pub enum TickError {
    /// The target's state could not be read.
    Read(String),
    /// The target's trigger could not be judged.
    Trigger(TriggerError),
    /// The target's new state could not be written.
    Write(String),
}

/// The value of a [`TickError`].
pub enum TickErrorView {
    Read(Seq<char>),
    Trigger(TriggerErrorView),
    Write(Seq<char>),
}

impl View for TickError {
    type V = TickErrorView;

    open spec fn view(&self) -> TickErrorView {
        match *self {
            TickError::Read(cause) => TickErrorView::Read(cause@),
            TickError::Trigger(e) => TickErrorView::Trigger(e@),
            TickError::Write(cause) => TickErrorView::Write(cause@),
        }
    }
}

/// What a tick at `now` does about a target, given what came of reading its state: it runs the
/// strategy from the state that counts, or does nothing, or fails.
pub open spec fn convergence(
    fallback: States,
    read: Result<Option<TargetStateView>, Seq<char>>,
    t: StrategyTargetView,
    now: Instant,
) -> Result<Option<TargetStateView>, TickErrorView> {
    match current_state(fallback, read, t.key()) {
        Err(cause) => Err(TickErrorView::Read(cause)),
        Ok(prior) => match attempt_decision(t, prior, now) {
            Err(e) => Err(TickErrorView::Trigger(e)),
            Ok(true) => Ok(Some(prior)),
            Ok(false) => Ok(None),
        },
    }
}

/// The view of what a tick does about a target.
pub open spec fn convergence_result(r: Result<Option<TargetState>, TickError>) -> Result<
    Option<TargetStateView>,
    TickErrorView,
> {
    match r {
        Ok(prior) => Ok(state_opt(prior)),
        Err(e) => Err(e@),
    }
}

/// Decides what a tick at `now` does about a target, given what came of reading its state:
/// run the strategy from the state that is returned, or nothing if none is.
pub fn converge_one(
    store: &Store,
    t: &StrategyTarget,
    read: Result<Option<TargetState>, String>,
    now: Timestamp,
) -> (r: Result<Option<TargetState>, TickError>)
    requires
        t@.trigger_in_range(),
    ensures
        convergence_result(r) == convergence(store@, read_view(read), t@, now@),
{
    match store.get_or_empty(t, read) {
        Err(cause) => Err(TickError::Read(cause)),
        Ok(prior) => match should_attempt(t, &prior, now) {
            Err(e) => Err(TickError::Trigger(e)),
            Ok(due) => if due {
                Ok(Some(prior))
            } else {
                Ok(None)
            },
        },
    }
}

/// Ends a tick's work on a target whose strategy was run: records the attempt, given whether
/// the state after it was written to the database.
pub fn conclude_one(
    store: &mut Store,
    t: &StrategyTarget,
    prior: &TargetState,
    outcome: &AttemptOutcome,
    now: Timestamp,
    written: Result<(), String>,
) -> (r: Result<(), TickError>)
    requires
        outcome@.succeeded() || room_for_failure(prior@, now@),
    ensures
        final(store)@ == fallback_after(
            old(store)@,
            t@.key(),
            state_after_tick(t@, prior@, outcome@, now@),
            written is Ok,
        ),
        match r {
            Ok(_) => written is Ok,
            Err(e) => written matches Err(cause) && e@ == TickErrorView::Write(cause@),
        },
{
    let cooldown_until = next_cooldown(prior, outcome, now);
    match store.record_attempt(t, outcome, cooldown_until, prior, written) {
        Ok(_) => Ok(()),
        Err(cause) => Err(TickError::Write(cause)),
    }
}

/// The time between two ticks, from the text of the option that sets it.
pub fn tick_interval(tick: &str) -> (r: Result<Span, String>)
    requires
        duration_text_in_range(tick@),
    ensures
        span_result(r) == duration_parse(tick@),
{
    parse_duration(tick)
}

/// Backoff never shrinks as failures add up, and stays between half an hour and a day.
pub proof fn law_backoff_grows(fewer: int, more: int)
    requires
        fewer <= more,
    ensures
        backoff_secs(fewer) <= backoff_secs(more),
        30 * 60 <= backoff_secs(fewer) <= 24 * 60 * 60,
{
}

/// Terminal targets and manual strategies are never run by a tick, whatever their state.
pub proof fn law_terminal_and_manual_never_run(
    t: StrategyTargetView,
    prior: TargetStateView,
    now: Instant,
)
    requires
        terminal(t.target.status) || trigger_of(t.strategy.trigger) is Manual,
    ensures
        attempt_decision(t, prior, now) == Ok::<bool, TriggerErrorView>(false),
{
}

/// A cron strategy runs at most once in a minute: once an attempt has finished in a minute or
/// later, no tick in that minute runs the strategy again.
pub proof fn law_cron_once_per_minute(
    t: StrategyTargetView,
    prior: TargetStateView,
    outcome: AttemptOutcomeView,
    first: Instant,
    again: Instant,
)
    requires
        trigger_of(t.strategy.trigger) is Cron,
        !outcome.finished_at.before(first.minute_start()),
        again.minute_start() == first.minute_start(),
    ensures
        attempt_decision(t, state_after_tick(t, prior, outcome, first), again) != Ok::<
            bool,
            TriggerErrorView,
        >(true),
{
}

/// A cron strategy that has not been attempted since a matching minute began, and is not
/// resting, is run by a tick in that minute.
pub proof fn law_cron_runs_in_matching_minute(
    t: StrategyTargetView,
    prior: TargetStateView,
    now: Instant,
    expression: Seq<char>,
)
    requires
        !terminal(t.target.status),
        trigger_of(t.strategy.trigger) == Trigger::Cron(expression),
        word_count(expression) == 5,
        cron_syntax(expression) is Ok,
        cron_match(expression, now.minute_start().secs, 0) == Ok::<bool, Seq<char>>(
            true,
        ),
        prior.last_attempt_at matches Some(previous) ==> previous.before(now.minute_start()),
        prior.cooldown_until matches Some(until) ==> !now.before(until),
    ensures
        attempt_decision(t, prior, now) == Ok::<bool, TriggerErrorView>(true),
{
}

/// An interval strategy runs at most once per duration: a tick that runs it comes no sooner
/// than that after the previous attempt.
pub proof fn law_interval_is_a_rate_limit(
    t: StrategyTargetView,
    prior: TargetStateView,
    now: Instant,
    duration: Seq<char>,
    interval: nat,
    previous: Instant,
)
    requires
        trigger_of(t.strategy.trigger) == Trigger::Every(duration),
        duration_parse(duration) == Ok::<nat, Seq<char>>(interval),
        prior.last_attempt_at == Some(previous),
        attempt_decision(t, prior, now) == Ok::<bool, TriggerErrorView>(true),
    ensures
        now.since(previous) >= interval,
{
}

/// An interval strategy whose duration has passed since the previous attempt, and which is not
/// resting, is run by the next tick, however many ticks were missed.
pub proof fn law_interval_runs_when_due(
    t: StrategyTargetView,
    prior: TargetStateView,
    now: Instant,
    duration: Seq<char>,
    interval: nat,
)
    requires
        !terminal(t.target.status),
        trigger_of(t.strategy.trigger) == Trigger::Every(duration),
        duration_parse(duration) == Ok::<nat, Seq<char>>(interval),
        interval <= max_interval(),
        prior.last_attempt_at matches Some(previous) ==> now.since(previous) >= interval,
        prior.cooldown_until matches Some(until) ==> !now.before(until),
    ensures
        attempt_decision(t, prior, now) == Ok::<bool, TriggerErrorView>(true),
{
}

/// A trigger is an error just if the target is not terminal and the trigger is none of these:
/// the manual one; a cron expression of five fields that is accepted and can be held against
/// the minute; an interval whose duration is accepted and no longer than the longest one.
pub proof fn law_trigger_errors(t: StrategyTargetView, prior: TargetStateView, now: Instant)
    ensures
        attempt_decision(t, prior, now) is Err <==> !terminal(t.target.status) && match trigger_of(
            t.strategy.trigger,
        ) {
            Trigger::Manual => false,
            Trigger::Cron(expression) => word_count(expression) != 5 || cron_syntax(
                expression,
            ) is Err || cron_match(expression, now.minute_start().secs, 0) is Err,
            Trigger::Every(duration) => match duration_parse(duration) {
                Ok(interval) => interval > max_interval(),
                Err(_) => true,
            },
            Trigger::Unsupported => true,
        },
{
}

/// A trigger of no known kind never runs a strategy: it is an error in every tick, unless the
/// target is terminal.
pub proof fn law_unsupported_trigger_never_runs(
    t: StrategyTargetView,
    prior: TargetStateView,
    now: Instant,
)
    requires
        trigger_of(t.strategy.trigger) is Unsupported,
    ensures
        attempt_decision(t, prior, now) is Err <==> !terminal(t.target.status),
        attempt_decision(t, prior, now) != Ok::<bool, TriggerErrorView>(true),
{
}

/// After a failure no tick before the end of the cooldown runs any strategy for that state,
/// and from then on the trigger alone decides.
pub proof fn law_failure_backs_off(
    t: StrategyTargetView,
    prior: TargetStateView,
    outcome: AttemptOutcomeView,
    now: Instant,
    later: Instant,
)
    requires
        !outcome.succeeded(),
    ensures
        ({
            let state = state_after_tick(t, prior, outcome, now);
            let until = now.plus(backoff_secs(prior.consecutive_failures + 1));
            &&& now.before(until)
            &&& later.before(until) ==> attempt_decision(t, state, later) != Ok::<
                bool,
                TriggerErrorView,
            >(true)
            &&& !later.before(until) ==> attempt_decision(t, state, later) == attempt_need(
                t,
                state.last_attempt_at,
                later,
            )
        }),
{
}

/// A success ends a run of failures: no failures are counted, nothing rests, and the trigger
/// alone decides about the next tick.
pub proof fn law_success_clears_backoff(
    t: StrategyTargetView,
    prior: TargetStateView,
    outcome: AttemptOutcomeView,
    now: Instant,
    later: Instant,
)
    requires
        outcome.succeeded(),
    ensures
        ({
            let state = state_after_tick(t, prior, outcome, now);
            &&& state.consecutive_failures == 0
            &&& state.cooldown_until is None
            &&& state.last_success_at == Some(outcome.finished_at)
            &&& attempt_decision(t, state, later) == attempt_need(t, state.last_attempt_at, later)
        }),
{
}

/// A second failure in a row, in a tick after the first cooldown, advances both the count and
/// the end of the cooldown.
pub proof fn law_failures_advance(
    t: StrategyTargetView,
    prior: TargetStateView,
    first: AttemptOutcomeView,
    second: AttemptOutcomeView,
    now: Instant,
    later: Instant,
)
    requires
        !first.succeeded(),
        !second.succeeded(),
        !later.before(now.plus(backoff_secs(prior.consecutive_failures + 1))),
    ensures
        ({
            let one = state_after_tick(t, prior, first, now);
            let two = state_after_tick(t, one, second, later);
            &&& two.consecutive_failures == one.consecutive_failures + 1
            &&& one.cooldown_until->0.before(two.cooldown_until->0)
        }),
{
}

/// How a strategy asks to be retried plays no part: of two targets that are otherwise the same,
/// a tick does the same, and records the same after the same outcome.
pub proof fn law_retry_is_advisory(
    a: StrategyTargetView,
    b: StrategyTargetView,
    fallback: States,
    read: Result<Option<TargetStateView>, Seq<char>>,
    prior: TargetStateView,
    outcome: AttemptOutcomeView,
    now: Instant,
)
    requires
        a.yaml_path == b.yaml_path,
        a.target_id == b.target_id,
        a.target.status == b.target.status,
        a.strategy.command == b.strategy.command,
        a.strategy.trigger == b.strategy.trigger,
        a.strategy.timeout == b.strategy.timeout,
    ensures
        convergence(fallback, read, a, now) == convergence(fallback, read, b, now),
        state_after_tick(a, prior, outcome, now) == state_after_tick(b, prior, outcome, now),
{
}

/// The number of failures at the end of a sequence of outcomes.
pub open spec fn trailing_failures(outcomes: Seq<AttemptOutcomeView>) -> nat
    decreases outcomes.len(),
{
    if outcomes.len() == 0 || outcomes.last().succeeded() {
        0
    } else {
        trailing_failures(outcomes.drop_last()) + 1
    }
}

/// The state of a target after attempts in a sequence of ticks.
pub open spec fn state_after_ticks(
    t: StrategyTargetView,
    start: TargetStateView,
    outcomes: Seq<AttemptOutcomeView>,
    ticks: Seq<Instant>,
) -> TargetStateView
    decreases outcomes.len(),
{
    if outcomes.len() == 0 {
        start
    } else {
        state_after_tick(
            t,
            state_after_ticks(t, start, outcomes.drop_last(), ticks.drop_last()),
            outcomes.last(),
            ticks.last(),
        )
    }
}

/// The finish of the last success in a sequence of outcomes.
pub open spec fn last_success(outcomes: Seq<AttemptOutcomeView>) -> Option<Instant>
    decreases outcomes.len(),
{
    if outcomes.len() == 0 {
        None
    } else if outcomes.last().succeeded() {
        Some(outcomes.last().finished_at)
    } else {
        last_success(outcomes.drop_last())
    }
}

/// From a fresh start, the state tells of any sequence of attempts how many failures stand at
/// its end, when the last success finished, and when the last attempt did.
pub proof fn law_state_summarises_history(
    t: StrategyTargetView,
    outcomes: Seq<AttemptOutcomeView>,
    ticks: Seq<Instant>,
)
    requires
        outcomes.len() == ticks.len(),
    ensures
        ({
            let state = state_after_ticks(t, TargetStateView::empty(t.key()), outcomes, ticks);
            &&& state.key() == t.key()
            &&& state.consecutive_failures == trailing_failures(outcomes)
            &&& state.last_success_at == last_success(outcomes)
            &&& state.last_attempt_at == if outcomes.len() == 0 {
                None
            } else {
                Some(outcomes.last().finished_at)
            }
        }),
    decreases outcomes.len(),
{
    if outcomes.len() > 0 {
        law_state_summarises_history(t, outcomes.drop_last(), ticks.drop_last());
    }
}

/// The rows of the database by key.
pub type Rows = Map<Key, StateRowView>;

/// What reading a key's state from the database gives.
pub open spec fn read_rows(rows: Rows, key: Key) -> Result<Option<TargetStateView>, Seq<char>> {
    if rows.contains_key(key) {
        Ok(Some(state_of(rows[key])))
    } else {
        Ok(None)
    }
}

/// The rows of the database after a row has been written to it, or has not.
pub open spec fn rows_after(rows: Rows, key: Key, row: StateRowView, written: bool) -> Rows {
    if written {
        rows.insert(key, row)
    } else {
        rows
    }
}

/// What is recorded is what is read next, whether the database took its row or not, and the
/// states of all other targets are as they were. The row is one that the state can be read
/// back from, as [`state_to_row`](crate::store::state_to_row) makes it for the years 0 to 9999.
pub proof fn law_read_after_record(
    rows: Rows,
    fallback: States,
    state: TargetStateView,
    row: StateRowView,
    written: bool,
    other: Key,
)
    requires
        state_of(row) == state,
        other != state.key(),
    ensures
        ({
            let key = state.key();
            let rows_now = rows_after(rows, key, row, written);
            let fallback_now = fallback_after(fallback, key, state, written);
            &&& current_state(fallback_now, read_rows(rows_now, key), key) == Ok::<
                TargetStateView,
                Seq<char>,
            >(state)
            &&& current_state(fallback_now, read_rows(rows_now, other), other) == current_state(
                fallback,
                read_rows(rows, other),
                other,
            )
        }),
{
}

/// A failure to write an attempt's state never leads to a rerun without backoff: whether the
/// row was written or not, and whether or not the database can be read afterwards, no tick
/// before the end of the cooldown runs the strategy. The row is one that the state can be read
/// back from.
pub proof fn law_failed_write_keeps_backoff(
    rows: Rows,
    fallback: States,
    t: StrategyTargetView,
    prior: TargetStateView,
    outcome: AttemptOutcomeView,
    row: StateRowView,
    written: bool,
    readable: bool,
    cause: Seq<char>,
    now: Instant,
    later: Instant,
)
    requires
        !outcome.succeeded(),
        later.before(now.plus(backoff_secs(prior.consecutive_failures + 1))),
        state_of(row) == state_after_tick(t, prior, outcome, now),
    ensures
        ({
            let state = state_after_tick(t, prior, outcome, now);
            let rows_now = rows_after(rows, t.key(), row, written);
            let fallback_now = fallback_after(fallback, t.key(), state, written);
            let read = if readable {
                read_rows(rows_now, t.key())
            } else {
                Err(cause)
            };
            &&& convergence(fallback_now, read, t, later) is Err || convergence(
                fallback_now,
                read,
                t,
                later,
            ) == Ok::<Option<TargetStateView>, TickErrorView>(None)
            &&& !written ==> current_state(fallback_now, read, t.key()) == Ok::<
                TargetStateView,
                Seq<char>,
            >(state)
        }),
{
    law_failure_backs_off(t, prior, outcome, now, later);
}

/// A target rests for half an hour after the first failure in a row, for two hours after the
/// second, for six after the third, and for a day after every later one.
pub proof fn law_backoff_ladder(failures: int)
    ensures
        backoff_secs(1) == 30 * 60,
        backoff_secs(2) == 2 * 60 * 60,
        backoff_secs(3) == 6 * 60 * 60,
        failures >= 4 ==> backoff_secs(failures) == 24 * 60 * 60,
{
}

/// There is no cooldown after a success. After a failure it ends as many seconds after the tick
/// as the ladder says for the new count of failures; the outcome, the last attempt and any
/// earlier cooldown play no part.
pub proof fn law_cooldown(prior: TargetStateView, outcome: AttemptOutcomeView, now: Instant)
    requires
        prior.consecutive_failures >= 0,
        0 <= now.nanos < 2_000_000_000,
    ensures
        ({
            let good = outcome.exit_code == Some(0i32) && !outcome.timed_out;
            let rest = if prior.consecutive_failures == 0 {
                1_800int
            } else if prior.consecutive_failures == 1 {
                7_200
            } else if prior.consecutive_failures == 2 {
                21_600
            } else {
                86_400
            };
            &&& good ==> cooldown_after(prior, outcome, now) is None
            &&& !good ==> (cooldown_after(prior, outcome, now) matches Some(until) && until.secs
                == now.secs + rest && until.nanos == now.nanos % 1_000_000_000)
        }),
{
}

/// A tick runs a strategy just if it is due and not resting; a trigger that cannot be judged is
/// an error, resting or not.
pub proof fn law_decision(t: StrategyTargetView, prior: TargetStateView, now: Instant)
    ensures
        match attempt_need(t, prior.last_attempt_at, now) {
            Err(e) => attempt_decision(t, prior, now) == Err::<bool, TriggerErrorView>(e),
            Ok(due) => {
                &&& attempt_decision(t, prior, now) is Ok
                &&& attempt_decision(t, prior, now) == Ok::<bool, TriggerErrorView>(true) <==> due
                    && match prior.cooldown_until {
                    Some(until) => !now.before(until),
                    None => true,
                }
            },
        },
{
}

/// A cron strategy is run in a minute only if its expression matches that minute, in whatever
/// state it is.
pub proof fn law_cron_runs_only_when_matching(
    t: StrategyTargetView,
    prior: TargetStateView,
    now: Instant,
    expression: Seq<char>,
)
    requires
        trigger_of(t.strategy.trigger) == Trigger::Cron(expression),
    ensures
        attempt_need(t, prior.last_attempt_at, now) == Ok::<bool, TriggerErrorView>(true)
            || attempt_decision(t, prior, now) == Ok::<bool, TriggerErrorView>(true) ==> cron_match(
            expression,
            now.secs - now.secs % 60,
            0,
        ) == Ok::<bool, Seq<char>>(true),
        cron_match(expression, now.secs - now.secs % 60, 0) == Ok::<bool, Seq<char>>(false)
            && word_count(expression) == 5 && cron_syntax(expression) is Ok ==> attempt_need(
            t,
            prior.last_attempt_at,
            now,
        ) == Ok::<bool, TriggerErrorView>(false) && attempt_decision(t, prior, now) == Ok::<
            bool,
            TriggerErrorView,
        >(false),
{
}

/// Of a state only the last attempt and the cooldown count for what a tick does.
pub proof fn law_decision_depends_on(
    t: StrategyTargetView,
    a: TargetStateView,
    b: TargetStateView,
    now: Instant,
)
    requires
        a.last_attempt_at == b.last_attempt_at,
        a.cooldown_until == b.cooldown_until,
    ensures
        attempt_decision(t, a, now) == attempt_decision(t, b, now),
{
}

/// A tick runs a strategy from the state that counts, just if that state can be had and the
/// decision is to run; it fails with the failure to read, or with that of the trigger.
pub proof fn law_convergence(
    fallback: States,
    read: Result<Option<TargetStateView>, Seq<char>>,
    t: StrategyTargetView,
    now: Instant,
)
    ensures
        ({
            let done = convergence(fallback, read, t, now);
            match current_state(fallback, read, t.key()) {
                Err(cause) => done == Err::<Option<TargetStateView>, TickErrorView>(
                    TickErrorView::Read(cause),
                ),
                Ok(prior) => match attempt_decision(t, prior, now) {
                    Err(e) => done == Err::<Option<TargetStateView>, TickErrorView>(
                        TickErrorView::Trigger(e),
                    ),
                    Ok(run) => {
                        &&& run ==> done == Ok::<Option<TargetStateView>, TickErrorView>(
                            Some(prior),
                        )
                        &&& !run ==> done == Ok::<Option<TargetStateView>, TickErrorView>(None)
                    },
                },
            }
        }),
{
}

/// After a tick a state holds what the attempt left and the cooldown that goes with it.
pub proof fn law_state_after_tick(
    t: StrategyTargetView,
    prior: TargetStateView,
    outcome: AttemptOutcomeView,
    now: Instant,
)
    ensures
        state_after_tick(t, prior, outcome, now).cooldown_until == cooldown_after(
            prior,
            outcome,
            now,
        ),
        state_after_tick(t, prior, outcome, now) == state_after(
            t,
            outcome,
            state_after_tick(t, prior, outcome, now).cooldown_until,
            prior,
        ),
{
}

/// Up to a day before the end of the calendar there is room for another failure, unless the
/// counter is full.
pub proof fn law_room_for_failure(prior: TargetStateView, now: Instant)
    requires
        now.secs <= 8_210_266_876_799 - 86_400,
    ensures
        cooldown_in_calendar(prior, now),
        prior.consecutive_failures < 4_294_967_295 ==> room_for_failure(prior, now),
{
}

/// Errors and results of a tick are seen as they are.
pub proof fn law_tick_views(
    cause: String,
    error: TriggerError,
    failed: TickError,
    state: TargetState,
)
    ensures
        TickError::Read(cause)@ == TickErrorView::Read(cause@),
        TickError::Trigger(error)@ == TickErrorView::Trigger(error@),
        TickError::Write(cause)@ == TickErrorView::Write(cause@),
        convergence_result(Ok(Some(state))) == Ok::<Option<TargetStateView>, TickErrorView>(
            Some(state@),
        ),
        convergence_result(Ok(None)) == Ok::<Option<TargetStateView>, TickErrorView>(None),
        convergence_result(Err(failed)) == Err::<Option<TargetStateView>, TickErrorView>(failed@),
{
}

} // verus!
