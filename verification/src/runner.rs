//! When a strategy is due, for how long it may run, and what an attempt at it amounted to.

use crate::duration::{duration_in_range, duration_text_in_range};
use crate::instant::{Instant, Span, Timestamp, NANOS_PER_SEC};
use crate::loader::{StrategyTarget, StrategyTargetView};
use crate::outside::{
    cron_match, cron_matches, cron_syntax, decode_lossy, duration_parse, duration_text,
    format_duration, parse_cron, parse_duration, span_result, utf8_lossy,
};
use crate::schema::{terminal, Status};
use crate::store::TargetState;
use crate::text::{
    after_prefix, count_words, law_prefix, law_trimming, strip_prefix, text_result, trim, trimmed,
    white_space, word_count,
};
use vstd::prelude::*;
use vstd::string::StringExecFns;

verus! {

/// The seconds that an attempt may take when its strategy does not say.
pub const DEFAULT_TIMEOUT_SECS: u64 = 300;

/// The largest amount of strategy output retained, in bytes, from each stream.
pub const OUTPUT_CAP: usize = 65_536;

/// The milliseconds that reaping a killed process, and draining its output, may each take.
pub const PIPE_DRAIN_TIMEOUT_MILLIS: u64 = 250;

/// Result of running a single attempt.
#[derive(Debug)]
pub struct AttemptOutcome {
    pub started_at: Timestamp,
    pub finished_at: Timestamp,
    pub exit_code: Option<i32>,
    pub stdout: String,
    pub stderr: String,
    pub timed_out: bool,
}

/// The value of an [`AttemptOutcome`].
pub struct AttemptOutcomeView {
    pub started_at: Instant,
    pub finished_at: Instant,
    pub exit_code: Option<i32>,
    pub stdout: Seq<char>,
    pub stderr: Seq<char>,
    pub timed_out: bool,
}

impl View for AttemptOutcome {
    type V = AttemptOutcomeView;

    open spec fn view(&self) -> AttemptOutcomeView {
        AttemptOutcomeView {
            started_at: self.started_at@,
            finished_at: self.finished_at@,
            exit_code: self.exit_code,
            stdout: self.stdout@,
            stderr: self.stderr@,
            timed_out: self.timed_out,
        }
    }
}

impl AttemptOutcomeView {
    /// The command exited by itself, with the code zero.
    pub open spec fn succeeded(self) -> bool {
        !self.timed_out && self.exit_code == Some(0i32)
    }
}

impl AttemptOutcome {
    /// Whether the command exited by itself, with the code zero.
    pub fn succeeded(&self) -> (r: bool)
        ensures
            r == self@.succeeded(),
    {
        !self.timed_out && match self.exit_code {
            Some(code) => code == 0,
            None => false,
        }
    }
}

/// What a strategy's trigger asks for.
pub enum Trigger {
    /// Never to be run automatically.
    Manual,
    /// To be run in each minute that a cron expression matches.
    Cron(Seq<char>),
    /// To be run at most once per duration.
    Every(Seq<char>),
    /// Nothing that the executor knows.
    Unsupported,
}

/// What a trigger's text asks for. White space around the text, and around the expression or
/// the duration in it, is of no account.
pub open spec fn trigger_of(text: Seq<char>) -> Trigger {
    let trigger = trimmed(text);
    if trigger == "manual"@ {
        Trigger::Manual
    } else {
        match after_prefix(trigger, "cron:"@) {
            Some(expression) => Trigger::Cron(trimmed(expression)),
            None => match after_prefix(trigger, "every:"@) {
                Some(duration) => Trigger::Every(trimmed(duration)),
                None => Trigger::Unsupported,
            },
        }
    }
}

/// Why a trigger could not be judged.
#[derive(Debug)]
pub enum TriggerError {
    /// A cron expression has other than five fields.
    FieldCount { expression: String },
    /// A cron expression was not accepted.
    CronSyntax { expression: String, cause: String },
    /// A cron expression could not be held against the time.
    CronEvaluation { expression: String, cause: String },
    /// An interval's duration was not accepted.
    IntervalSyntax { trigger: String, cause: String },
    /// An interval is longer than any two points in time can be apart.
    IntervalTooLarge { trigger: String },
    /// The trigger is of no known kind.
    Unsupported { trigger: String },
}

/// The value of a [`TriggerError`].
pub enum TriggerErrorView {
    FieldCount { expression: Seq<char> },
    CronSyntax { expression: Seq<char>, cause: Seq<char> },
    CronEvaluation { expression: Seq<char>, cause: Seq<char> },
    IntervalSyntax { trigger: Seq<char>, cause: Seq<char> },
    IntervalTooLarge { trigger: Seq<char> },
    Unsupported { trigger: Seq<char> },
}

impl View for TriggerError {
    type V = TriggerErrorView;

    open spec fn view(&self) -> TriggerErrorView {
        match *self {
            TriggerError::FieldCount { expression } => TriggerErrorView::FieldCount {
                expression: expression@,
            },
            TriggerError::CronSyntax { expression, cause } => TriggerErrorView::CronSyntax {
                expression: expression@,
                cause: cause@,
            },
            TriggerError::CronEvaluation { expression, cause } => TriggerErrorView::CronEvaluation {
                expression: expression@,
                cause: cause@,
            },
            TriggerError::IntervalSyntax { trigger, cause } => TriggerErrorView::IntervalSyntax {
                trigger: trigger@,
                cause: cause@,
            },
            TriggerError::IntervalTooLarge { trigger } => TriggerErrorView::IntervalTooLarge {
                trigger: trigger@,
            },
            TriggerError::Unsupported { trigger } => TriggerErrorView::Unsupported {
                trigger: trigger@,
            },
        }
    }
}

/// The view of a verdict on a trigger.
pub open spec fn verdict(r: Result<bool, TriggerError>) -> Result<bool, TriggerErrorView> {
    match r {
        Ok(due) => Ok(due),
        Err(e) => Err(e@),
    }
}

/// The view of an optional point in time.
pub open spec fn instant_opt(t: Option<Timestamp>) -> Option<Instant> {
    match t {
        Some(t) => Some(t@),
        None => None,
    }
}

/// A schedule that matches a minute, or not, is due in that minute: it matches, and no
/// attempt has been made since the minute began.
pub open spec fn cron_due_spec(
    matching: bool,
    last_attempt_at: Option<Instant>,
    minute: Instant,
) -> bool {
    matching && match last_attempt_at {
        None => true,
        Some(previous) => previous.before(minute),
    }
}

/// Whether a schedule is due in the minute that begins at `minute`, given whether it matches.
pub fn cron_due(matching: bool, last_attempt_at: Option<Timestamp>, minute: &Timestamp) -> (r:
    bool)
    ensures
        r == cron_due_spec(matching, instant_opt(last_attempt_at), minute@),
{
    matching && match last_attempt_at {
        None => true,
        Some(previous) => previous.is_before(minute),
    }
}

/// What an evaluated cron expression comes to: the error if it was not accepted or could not
/// be evaluated, and else whether it is due.
pub open spec fn cron_verdict_spec(
    expression: Seq<char>,
    evaluated: Result<Result<bool, Seq<char>>, Seq<char>>,
    last_attempt_at: Option<Instant>,
    minute: Instant,
) -> Result<bool, TriggerErrorView> {
    match evaluated {
        Err(cause) => Err(TriggerErrorView::CronSyntax { expression, cause }),
        Ok(Err(cause)) => Err(TriggerErrorView::CronEvaluation { expression, cause }),
        Ok(Ok(matching)) => Ok(cron_due_spec(matching, last_attempt_at, minute)),
    }
}

/// The view of an evaluated cron expression.
pub open spec fn evaluated_view(r: Result<Result<bool, String>, String>) -> Result<
    Result<bool, Seq<char>>,
    Seq<char>,
> {
    match r {
        Ok(matching) => Ok(text_result(matching)),
        Err(e) => Err(e@),
    }
}

/// What an evaluated cron expression comes to in the minute that begins at `minute`. The
/// evaluation is the reason why the expression was not accepted, or else the reason why it
/// could not be held against the minute, or else whether it matches.
pub fn cron_verdict(
    expression: String,
    evaluated: Result<Result<bool, String>, String>,
    last_attempt_at: Option<Timestamp>,
    minute: &Timestamp,
) -> (r: Result<bool, TriggerError>)
    ensures
        verdict(r) == cron_verdict_spec(
            expression@,
            evaluated_view(evaluated),
            instant_opt(last_attempt_at),
            minute@,
        ),
{
    match evaluated {
        Err(cause) => Err(TriggerError::CronSyntax { expression, cause }),
        Ok(Err(cause)) => Err(TriggerError::CronEvaluation { expression, cause }),
        Ok(Ok(matching)) => Ok(cron_due(matching, last_attempt_at, minute)),
    }
}

/// The longest interval, in nanoseconds: 2^63 - 1 milliseconds.
pub open spec fn max_interval() -> int {
    i64::MAX * 1_000_000
}

/// An interval is due: no attempt has been made, or the previous one is that long ago.
pub open spec fn interval_due_spec(
    interval: nat,
    last_attempt_at: Option<Instant>,
    now: Instant,
) -> bool {
    match last_attempt_at {
        None => true,
        Some(previous) => now.since(previous) >= interval,
    }
}

/// Whether an interval is due; `None` if it is longer than the longest interval.
pub fn interval_due(interval: &Span, last_attempt_at: Option<Timestamp>, now: &Timestamp) -> (r:
    Option<bool>)
    ensures
        r is None <==> interval@ > max_interval(),
        r matches Some(due) ==> due == interval_due_spec(
            interval@,
            instant_opt(last_attempt_at),
            now@,
        ),
{
    let nanos: i128 = interval.secs() as i128 * 1_000_000_000 + interval.nanos() as i128;
    assert(nanos == interval@);
    if nanos > 9_223_372_036_854_775_807 * 1_000_000 {
        return None;
    }
    Some(
        match last_attempt_at {
            None => true,
            Some(previous) => now.nanos_since(&previous) >= nanos,
        },
    )
}

/// What a parsed interval comes to: the error if its duration was not accepted or is too
/// large, and else whether it is due.
pub open spec fn interval_verdict_spec(
    trigger: Seq<char>,
    parsed: Result<nat, Seq<char>>,
    last_attempt_at: Option<Instant>,
    now: Instant,
) -> Result<bool, TriggerErrorView> {
    match parsed {
        Err(cause) => Err(TriggerErrorView::IntervalSyntax { trigger, cause }),
        Ok(interval) => if interval > max_interval() {
            Err(TriggerErrorView::IntervalTooLarge { trigger })
        } else {
            Ok(interval_due_spec(interval, last_attempt_at, now))
        },
    }
}

/// What a parsed interval comes to at `now`.
pub fn interval_verdict(
    trigger: String,
    parsed: Result<Span, String>,
    last_attempt_at: Option<Timestamp>,
    now: &Timestamp,
) -> (r: Result<bool, TriggerError>)
    ensures
        verdict(r) == interval_verdict_spec(
            trigger@,
            span_result(parsed),
            instant_opt(last_attempt_at),
            now@,
        ),
{
    match parsed {
        Err(cause) => Err(TriggerError::IntervalSyntax { trigger, cause }),
        Ok(interval) => match interval_due(&interval, last_attempt_at, now) {
            None => Err(TriggerError::IntervalTooLarge { trigger }),
            Some(due) => Ok(due),
        },
    }
}

/// What evaluating an expression at a point in time gives: whether it is accepted, and then
/// whether it matches.
pub open spec fn cron_evaluation(expression: Seq<char>, at: Instant) -> Result<
    Result<bool, Seq<char>>,
    Seq<char>,
> {
    match cron_syntax(expression) {
        Err(cause) => Err(cause),
        Ok(_) => Ok(cron_match(expression, at.secs, at.nanos)),
    }
}

/// Whether a target is due for an automatic attempt.
///
/// Terminal targets and manual strategies never are. A cron strategy is due once in each
/// minute that its five-field expression matches. An interval strategy is due when its
/// duration has passed since the previous attempt.
pub open spec fn attempt_need(
    t: StrategyTargetView,
    last_attempt_at: Option<Instant>,
    now: Instant,
) -> Result<bool, TriggerErrorView> {
    let text = trimmed(t.strategy.trigger);
    let minute = now.minute_start();
    if terminal(t.target.status) {
        Ok(false)
    } else {
        match trigger_of(t.strategy.trigger) {
            Trigger::Manual => Ok(false),
            Trigger::Cron(expression) => if word_count(expression) != 5 {
                Err(TriggerErrorView::FieldCount { expression })
            } else {
                cron_verdict_spec(
                    expression,
                    cron_evaluation(expression, minute),
                    last_attempt_at,
                    minute,
                )
            },
            Trigger::Every(duration) => interval_verdict_spec(
                text,
                duration_parse(duration),
                last_attempt_at,
                now,
            ),
            Trigger::Unsupported => Err(TriggerErrorView::Unsupported { trigger: text }),
        }
    }
}

impl StrategyTargetView {
    /// An interval in the trigger can be parsed without overflow, or is never looked at.
    pub open spec fn trigger_in_range(self) -> bool {
        terminal(self.target.status) || match trigger_of(self.strategy.trigger) {
            Trigger::Every(duration) => duration_text_in_range(duration),
            _ => true,
        }
    }

    /// A timeout can be parsed without overflow.
    pub open spec fn timeout_in_range(self) -> bool {
        match self.strategy.timeout {
            Some(text) => duration_text_in_range(text),
            None => true,
        }
    }
}

/// Whether a trimmed trigger is the manual one.
fn is_manual(trigger: &String) -> (r: bool)
    ensures
        r == (trigger@ == "manual"@),
{
    *trigger == "manual".to_owned()
}

impl StrategyTarget {
    /// Whether an interval in the trigger can be parsed without overflow, or is never looked at.
    pub fn has_trigger_in_range(&self) -> (r: bool)
        ensures
            r == self@.trigger_in_range(),
    {
        if self.target.status.is_terminal() {
            return true;
        }
        let trigger = trim(self.strategy.trigger.as_str());
        if is_manual(&trigger) || strip_prefix(trigger.as_str(), "cron:").is_some() {
            return true;
        }
        match strip_prefix(trigger.as_str(), "every:") {
            Some(duration) => duration_in_range(trim(duration.as_str()).as_str()),
            None => true,
        }
    }

    /// Whether a timeout can be parsed without overflow.
    pub fn has_timeout_in_range(&self) -> (r: bool)
        ensures
            r == self@.timeout_in_range(),
    {
        match &self.strategy.timeout {
            Some(text) => duration_in_range(text.as_str()),
            None => true,
        }
    }
}

/// Decides whether a strategy is due for an automatic attempt.
pub fn needs_attempt(t: &StrategyTarget, state: &TargetState, now: Timestamp) -> (r: Result<
    bool,
    TriggerError,
>)
    requires
        t@.trigger_in_range(),
    ensures
        verdict(r) == attempt_need(t@, state@.last_attempt_at, now@),
{
    if t.target.status.is_terminal() {
        return Ok(false);
    }
    let trigger = trim(t.strategy.trigger.as_str());
    if is_manual(&trigger) {
        return Ok(false);
    }
    if let Some(expression) = strip_prefix(trigger.as_str(), "cron:") {
        let expression = trim(expression.as_str());
        if count_words(expression.as_str()) != 5 {
            return Err(TriggerError::FieldCount { expression });
        }
        let minute = now.minute_start();
        let evaluated = match parse_cron(expression.as_str()) {
            Err(cause) => Err(cause),
            Ok(_) => Ok(cron_matches(expression.as_str(), &minute)),
        };
        return cron_verdict(expression, evaluated, state.last_attempt_at, &minute);
    }
    if let Some(duration) = strip_prefix(trigger.as_str(), "every:") {
        let parsed = parse_duration(trim(duration.as_str()).as_str());
        return interval_verdict(trigger, parsed, state.last_attempt_at, &now);
    }
    Err(TriggerError::Unsupported { trigger })
}

/// The nanoseconds that an attempt may take: as its timeout says, or the default if it has
/// none or one that is not a duration.
pub open spec fn timeout_of(timeout: Option<Seq<char>>) -> nat {
    match timeout {
        Some(text) => timeout_or_default_spec(duration_parse(text)),
        None => (DEFAULT_TIMEOUT_SECS * NANOS_PER_SEC) as nat,
    }
}

/// A parsed timeout, or the default in place of a failure.
pub open spec fn timeout_or_default_spec(parsed: Result<nat, Seq<char>>) -> nat {
    match parsed {
        Ok(nanos) => nanos,
        Err(_) => (DEFAULT_TIMEOUT_SECS * NANOS_PER_SEC) as nat,
    }
}

/// A parsed timeout, or the default in place of a failure.
pub fn timeout_or_default(parsed: Result<Span, String>) -> (r: Span)
    ensures
        r@ == timeout_or_default_spec(span_result(parsed)),
        parsed matches Ok(span) ==> r@ == span@,
        parsed is Err ==> r@ == 300_000_000_000,
{
    match parsed {
        Ok(span) => span,
        Err(_) => Span::from_secs(DEFAULT_TIMEOUT_SECS),
    }
}

/// Resolves the strategy's per-attempt timeout, falling back to the default.
pub fn resolved_timeout(t: &StrategyTarget) -> (r: Span)
    requires
        t@.timeout_in_range(),
    ensures
        r@ == timeout_of(t@.strategy.timeout),
        r@ == match t@.strategy.timeout {
            Some(text) => match duration_parse(text) {
                Ok(nanos) => nanos,
                Err(_) => 300_000_000_000nat,
            },
            None => 300_000_000_000nat,
        },
{
    match &t.strategy.timeout {
        Some(text) => timeout_or_default(parse_duration(text.as_str())),
        None => Span::from_secs(DEFAULT_TIMEOUT_SECS),
    }
}

/// How waiting for a started command ended.
#[derive(Debug)]
pub enum Ending {
    /// The command's shell exited, with a code unless a signal ended it.
    Exited(Option<i32>),
    /// Waiting itself failed.
    WaitFailed(String),
    /// The command was still running at its deadline.
    DeadlinePassed,
}

/// The value of an [`Ending`].
pub enum EndingView {
    Exited(Option<i32>),
    WaitFailed(Seq<char>),
    DeadlinePassed,
}

impl View for Ending {
    type V = EndingView;

    open spec fn view(&self) -> EndingView {
        match *self {
            Ending::Exited(code) => EndingView::Exited(code),
            Ending::WaitFailed(cause) => EndingView::WaitFailed(cause@),
            Ending::DeadlinePassed => EndingView::DeadlinePassed,
        }
    }
}

/// Something to be done between the end of the wait and the conclusion of an attempt.
#[derive(Clone, Copy, Debug, PartialEq, Eq, Structural)]
pub enum CleanupStep {
    /// Kill every process in the attempt's process group.
    KillGroup,
    /// Collect the killed shell, within the drain timeout.
    Reap,
    /// Collect the captured output, within the drain timeout.
    Drain,
}

/// What is to be done after the wait, in order. The group is killed in any case, since a
/// background descendant may outlive the shell; only a shell that has not been collected by
/// the wait is reaped.
pub open spec fn cleanup_plan(ending: EndingView) -> Seq<CleanupStep> {
    match ending {
        EndingView::Exited(_) => seq![CleanupStep::KillGroup, CleanupStep::Drain],
        _ => seq![CleanupStep::KillGroup, CleanupStep::Reap, CleanupStep::Drain],
    }
}

/// What is to be done after the wait, in order.
pub fn cleanup_steps(ending: &Ending) -> (r: Vec<CleanupStep>)
    ensures
        r@ == cleanup_plan(ending@),
{
    let mut steps: Vec<CleanupStep> = Vec::new();
    steps.push(CleanupStep::KillGroup);
    match ending {
        Ending::Exited(_) => {},
        _ => {
            steps.push(CleanupStep::Reap);
        },
    }
    steps.push(CleanupStep::Drain);
    assert(steps@ =~= cleanup_plan(ending@));
    steps
}

/// The output that was collected from an attempt.
#[derive(Debug)]
pub struct Drained {
    pub stdout: String,
    pub stderr: String,
    pub timed_out: bool,
}

/// The value of a [`Drained`].
pub struct DrainedView {
    pub stdout: Seq<char>,
    pub stderr: Seq<char>,
    pub timed_out: bool,
}

impl View for Drained {
    type V = DrainedView;

    open spec fn view(&self) -> DrainedView {
        DrainedView { stdout: self.stdout@, stderr: self.stderr@, timed_out: self.timed_out }
    }
}

/// A text, or the empty text in place of none.
pub open spec fn text_or_empty(s: Option<String>) -> Seq<char> {
    match s {
        Some(t) => t@,
        None => Seq::empty(),
    }
}

/// The output of an attempt, given what its two readers came back with: the text of each, or
/// nothing of a reader that failed; or nothing at all if they did not finish in time.
pub fn drain_pipes(read: Option<(Option<String>, Option<String>)>) -> (r: Drained)
    ensures
        r.timed_out <==> read is None,
        read matches Some((stdout, stderr)) ==> r.stdout@ == text_or_empty(stdout) && r.stderr@
            == text_or_empty(stderr),
        read is None ==> r.stdout@ == Seq::<char>::empty() && r.stderr@ == Seq::<char>::empty(),
{
    match read {
        Some((stdout, stderr)) => {
            let stdout = match stdout {
                Some(t) => t,
                None => String::new(),
            };
            let stderr = match stderr {
                Some(t) => t,
                None => String::new(),
            };
            Drained { stdout, stderr, timed_out: false }
        },
        None => Drained { stdout: String::new(), stderr: String::new(), timed_out: true },
    }
}

/// The outcome of an attempt whose command could not be started.
pub fn spawn_failure(started_at: Timestamp, finished_at: Timestamp, cause: &str) -> (r:
    AttemptOutcome)
    ensures
        r@ == (AttemptOutcomeView {
            started_at: started_at@,
            finished_at: finished_at@,
            exit_code: None,
            stdout: Seq::empty(),
            stderr: "spawn failed: "@ + cause@,
            timed_out: false,
        }),
{
    let mut stderr: String = "spawn failed: ".to_owned();
    stderr.append(cause);
    AttemptOutcome {
        started_at,
        finished_at,
        exit_code: None,
        stdout: String::new(),
        stderr,
        timed_out: false,
    }
}

/// The collected standard error, with a note if it could not be collected in time.
pub open spec fn noted_stderr(drained: DrainedView) -> Seq<char> {
    if drained.timed_out {
        drained.stderr + "\ncrosshair: output drain timed out"@
    } else {
        drained.stderr
    }
}

/// The outcome of an attempt whose command was started. `limit` is the time that it was
/// given, in words.
pub open spec fn concluded(
    started_at: Instant,
    finished_at: Instant,
    limit: Seq<char>,
    ending: EndingView,
    drained: DrainedView,
) -> AttemptOutcomeView {
    let stderr = noted_stderr(drained);
    AttemptOutcomeView {
        started_at,
        finished_at,
        exit_code: match ending {
            EndingView::Exited(code) => if drained.timed_out {
                None
            } else {
                code
            },
            _ => None,
        },
        stdout: drained.stdout,
        stderr: match ending {
            EndingView::Exited(_) => stderr,
            EndingView::WaitFailed(cause) => stderr + "\nwait failed: "@ + cause,
            EndingView::DeadlinePassed => stderr + "\ncrosshair: killed after "@ + limit,
        },
        timed_out: match ending {
            EndingView::DeadlinePassed => true,
            _ => drained.timed_out,
        },
    }
}

/// The outcome of an attempt whose command was started, from how the wait ended and what
/// output was collected.
pub fn conclude_attempt(
    started_at: Timestamp,
    finished_at: Timestamp,
    limit: &Span,
    ending: Ending,
    drained: Drained,
) -> (r: AttemptOutcome)
    ensures
        r@ == concluded(started_at@, finished_at@, duration_text(limit@), ending@, drained@),
{
    let words = format_duration(limit);
    outcome_of(started_at, finished_at, words.as_str(), ending, drained)
}

/// The outcome of an attempt whose command was started, with its time limit in words.
pub fn outcome_of(
    started_at: Timestamp,
    finished_at: Timestamp,
    limit: &str,
    ending: Ending,
    drained: Drained,
) -> (r: AttemptOutcome)
    ensures
        r@ == concluded(started_at@, finished_at@, limit@, ending@, drained@),
{
    let Drained { stdout, mut stderr, timed_out: drain_timed_out } = drained;
    if drain_timed_out {
        stderr.append("\ncrosshair: output drain timed out");
    }
    match ending {
        Ending::Exited(code) => {
            let exit_code = if drain_timed_out {
                None
            } else {
                code
            };
            AttemptOutcome {
                started_at,
                finished_at,
                exit_code,
                stdout,
                stderr,
                timed_out: drain_timed_out,
            }
        },
        Ending::WaitFailed(cause) => {
            stderr.append("\nwait failed: ");
            stderr.append(cause.as_str());
            AttemptOutcome {
                started_at,
                finished_at,
                exit_code: None,
                stdout,
                stderr,
                timed_out: drain_timed_out,
            }
        },
        Ending::DeadlinePassed => {
            stderr.append("\ncrosshair: killed after ");
            stderr.append(limit);
            AttemptOutcome {
                started_at,
                finished_at,
                exit_code: None,
                stdout,
                stderr,
                timed_out: true,
            }
        },
    }
}

/// The process group that bounds the lifetime of an attempt, by the id of its leader.
#[derive(Debug)]
pub struct AttemptProcessGroup {
    pub pgid: u32,
}

impl AttemptProcessGroup {
    /// The group led by the process `pgid`.
    pub fn new(pgid: u32) -> (r: AttemptProcessGroup)
        ensures
            r.pgid == pgid,
    {
        AttemptProcessGroup { pgid }
    }

    /// The number that a signal to the whole group is addressed to: its leader's, negated.
    pub fn signal_target(&self) -> (r: i32)
        requires
            self.pgid <= i32::MAX,
        ensures
            r == -self.pgid,
    {
        -(self.pgid as i32)
    }
}

/// The first `limit` bytes, or all of them if there are no more.
pub open spec fn capped(bytes: Seq<u8>, limit: nat) -> Seq<u8> {
    if bytes.len() <= limit {
        bytes
    } else {
        bytes.take(limit as int)
    }
}

/// Output gathered up to a limit.
#[derive(Debug)]
pub struct CappedOutput {
    bytes: Vec<u8>,
    cap: usize,
}

/// The most bytes asked for in one read.
pub const READ_CHUNK: usize = 4096;

impl CappedOutput {
    #[verifier::type_invariant]
    spec fn inv(self) -> bool {
        self.bytes@.len() <= self.cap
    }

    /// The bytes gathered so far.
    pub closed spec fn gathered(self) -> Seq<u8> {
        self.bytes@
    }

    /// The limit.
    pub closed spec fn limit(self) -> nat {
        self.cap as nat
    }

    /// Nothing gathered yet, with room for `cap` bytes.
    pub fn new(cap: usize) -> (r: CappedOutput)
        ensures
            r.gathered() == Seq::<u8>::empty(),
            r.limit() == cap,
    {
        CappedOutput { bytes: Vec::new(), cap }
    }

    /// How many bytes to ask for next; zero once the limit is reached.
    pub fn next_read(&self) -> (r: usize)
        ensures
            self.gathered().len() <= self.limit(),
            r == if self.limit() - self.gathered().len() < READ_CHUNK {
                self.limit() - self.gathered().len()
            } else {
                READ_CHUNK as int
            },
    {
        proof {
            use_type_invariant(&*self);
        }
        let room: usize = self.cap - self.bytes.len();
        if room < READ_CHUNK {
            room
        } else {
            READ_CHUNK
        }
    }

    /// Takes in a piece of output, as far as there is room.
    pub fn accept(&mut self, chunk: &[u8])
        ensures
            final(self).limit() == old(self).limit(),
            final(self).gathered() == capped(old(self).gathered() + chunk@, old(self).limit()),
    {
        proof {
            use_type_invariant(&*self);
        }
        let ghost start = self.bytes@;
        let ghost cap = self.cap;
        let mut bytes: Vec<u8> = Vec::new();
        std::mem::swap(&mut bytes, &mut self.bytes);
        let mut i: usize = 0;
        while i < chunk.len() && bytes.len() < self.cap
            invariant
                self.cap == cap,
                start.len() <= cap,
                i <= chunk.len(),
                bytes@.len() == start.len() + i,
                bytes@.len() <= cap,
                bytes@ == start + chunk@.take(i as int),
            decreases chunk.len() - i,
        {
            bytes.push(chunk[i]);
            proof {
                assert(chunk@.take(i + 1) =~= chunk@.take(i as int).push(chunk@[i as int]));
                assert(start + chunk@.take(i as int).push(chunk@[i as int]) =~= (start
                    + chunk@.take(i as int)).push(chunk@[i as int]));
            }
            i += 1;
        }
        proof {
            if i == chunk.len() {
                assert(chunk@.take(i as int) =~= chunk@);
            }
            assert((start + chunk@.take(i as int)) =~= (start + chunk@).take(start.len() + i));
        }
        self.bytes = bytes;
    }

    /// The gathered bytes as a text.
    pub fn into_text(self) -> (r: String)
        ensures
            r@ == utf8_lossy(self.gathered()),
    {
        decode_lossy(self.bytes.as_slice())
    }
}

/// Whatever the wait ended with, the whole process group is killed before any output is
/// drained, and draining comes last.
pub proof fn law_group_is_killed_first(ending: EndingView)
    ensures
        cleanup_plan(ending).first() == CleanupStep::KillGroup,
        cleanup_plan(ending).last() == CleanupStep::Drain,
{
}

/// An attempt succeeds just if its shell exited with the code zero and all output came in time.
/// One that was stopped at its deadline is marked as timed out.
pub proof fn law_success_is_a_clean_exit(
    started_at: Instant,
    finished_at: Instant,
    limit: Seq<char>,
    ending: EndingView,
    drained: DrainedView,
)
    ensures
        ({
            let outcome = concluded(started_at, finished_at, limit, ending, drained);
            &&& outcome.succeeded() <==> ending == EndingView::Exited(Some(0i32))
                && !drained.timed_out
            &&& ending is DeadlinePassed ==> outcome.timed_out
        }),
{
}

/// Pieces of output, joined.
pub open spec fn joined_chunks(chunks: Seq<Seq<u8>>) -> Seq<u8>
    decreases chunks.len(),
{
    if chunks.len() == 0 {
        Seq::empty()
    } else {
        joined_chunks(chunks.drop_last()) + chunks.last()
    }
}

/// What has been gathered after taking in pieces of output one by one.
pub open spec fn gathered_chunks(chunks: Seq<Seq<u8>>, limit: nat) -> Seq<u8>
    decreases chunks.len(),
{
    if chunks.len() == 0 {
        Seq::empty()
    } else {
        capped(gathered_chunks(chunks.drop_last(), limit) + chunks.last(), limit)
    }
}

/// However the output comes in pieces, what is kept is its beginning up to the limit.
pub proof fn law_output_is_capped(chunks: Seq<Seq<u8>>, limit: nat)
    ensures
        gathered_chunks(chunks, limit) == capped(joined_chunks(chunks), limit),
    decreases chunks.len(),
{
    if chunks.len() > 0 {
        let head = chunks.drop_last();
        law_output_is_capped(head, limit);
        let whole = joined_chunks(head);
        if whole.len() > limit {
            let kept = whole.take(limit as int);
            assert(capped(kept + chunks.last(), limit) =~= capped(whole + chunks.last(), limit));
        }
    }
}

/// White space around a trigger, and before what follows its prefix, is of no account. The word
/// `manual` is the manual trigger; what follows `cron:` is an expression, and what follows
/// `every:` a duration; any other text is unsupported.
pub proof fn law_triggers(
    before: Seq<char>,
    gap: Seq<char>,
    rest: Seq<char>,
    after: Seq<char>,
    other: Seq<char>,
)
    requires
        forall|i: int| 0 <= i < before.len() ==> white_space(#[trigger] before[i]),
        forall|i: int| 0 <= i < gap.len() ==> white_space(#[trigger] gap[i]),
        forall|i: int| 0 <= i < after.len() ==> white_space(#[trigger] after[i]),
        rest.len() > 0,
        !white_space(rest[0]),
        !white_space(rest[rest.len() - 1]),
        other.len() > 0 ==> !white_space(other[0]) && !white_space(other[other.len() - 1]),
        other != "manual"@,
        !"cron:"@.is_prefix_of(other),
        !"every:"@.is_prefix_of(other),
    ensures
        trigger_of(before + "manual"@ + after) == Trigger::Manual,
        trigger_of(before + ("cron:"@ + gap + rest) + after) == Trigger::Cron(rest),
        trigger_of(before + "cron:"@ + after) == Trigger::Cron(Seq::empty()),
        trigger_of(before + ("every:"@ + gap + rest) + after) == Trigger::Every(rest),
        trigger_of(before + "every:"@ + after) == Trigger::Every(Seq::empty()),
        trigger_of(before + other + after) == Trigger::Unsupported,
{
    reveal_strlit("manual");
    reveal_strlit("cron:");
    reveal_strlit("every:");
    let manual = "manual"@;
    let cron = "cron:"@;
    let every = "every:"@;
    let empty = Seq::<char>::empty();
    assert(manual[0] == 'm' && cron[0] == 'c' && every[0] == 'e');
    law_trimming(before, manual, after);
    law_trimming(before, cron, after);
    law_trimming(before, every, after);
    law_trimming(before, other, after);
    law_trimming(before, cron + gap + rest, after);
    law_trimming(before, every + gap + rest, after);
    law_trimming(gap, rest, empty);
    law_trimming(empty, empty, empty);
    assert(gap + rest + empty =~= gap + rest);
    assert(empty + empty + empty =~= empty);
    assert(cron + gap + rest =~= cron + (gap + rest));
    assert(every + gap + rest =~= every + (gap + rest));
    assert(cron + empty =~= cron);
    assert(every + empty =~= every);
    law_prefix(cron, gap + rest, every);
    law_prefix(cron, empty, every);
    law_prefix(every, gap + rest, every);
    law_prefix(every, empty, every);
    law_prefix(cron, empty, every + (gap + rest));
    assert((cron + (gap + rest))[0] == 'c');
    assert((every + (gap + rest))[0] == 'e');
    assert(!cron.is_prefix_of(every)) by {
        assert(every.subrange(0, 5)[0] == 'e');
    }
    assert(!cron.is_prefix_of(every + (gap + rest))) by {
        assert((every + (gap + rest)).subrange(0, 5)[0] == 'e');
    }
}

/// A cron strategy is due in a minute just if its expression has five fields, is accepted and
/// matches that minute, and no attempt has been made since the minute began. Where it does not
/// match it is not due, however long ago the last attempt was; each failure on the way is told
/// with its cause.
pub proof fn law_cron_is_due(
    t: StrategyTargetView,
    last_attempt_at: Option<Instant>,
    now: Instant,
    expression: Seq<char>,
)
    requires
        t.target.status == Status::Identified || t.target.status == Status::Converging,
        trigger_of(t.strategy.trigger) == Trigger::Cron(expression),
        last_attempt_at matches Some(previous) ==> previous.nanos >= 0,
    ensures
        ({
            let need = attempt_need(t, last_attempt_at, now);
            let minute = now.secs - now.secs % 60;
            &&& word_count(expression) != 5 ==> need == Err::<bool, TriggerErrorView>(
                TriggerErrorView::FieldCount { expression },
            )
            &&& word_count(expression) == 5 ==> match cron_syntax(expression) {
                Err(cause) => need == Err::<bool, TriggerErrorView>(
                    TriggerErrorView::CronSyntax { expression, cause },
                ),
                Ok(_) => match cron_match(expression, minute, 0) {
                    Err(cause) => need == Err::<bool, TriggerErrorView>(
                        TriggerErrorView::CronEvaluation { expression, cause },
                    ),
                    Ok(false) => need == Ok::<bool, TriggerErrorView>(false),
                    Ok(true) => need == Ok::<bool, TriggerErrorView>(
                        match last_attempt_at {
                            None => true,
                            Some(previous) => previous.secs < minute,
                        },
                    ),
                },
            }
        }),
{
}

/// An interval strategy is due just if its duration is accepted, can be told from a point in
/// time to another, and has passed since the last attempt, or there was none.
pub proof fn law_interval_is_due(
    t: StrategyTargetView,
    last_attempt_at: Option<Instant>,
    now: Instant,
    duration: Seq<char>,
)
    requires
        t.target.status == Status::Identified || t.target.status == Status::Converging,
        trigger_of(t.strategy.trigger) == Trigger::Every(duration),
    ensures
        ({
            let need = attempt_need(t, last_attempt_at, now);
            let trigger = trimmed(t.strategy.trigger);
            match duration_parse(duration) {
                Err(cause) => need == Err::<bool, TriggerErrorView>(
                    TriggerErrorView::IntervalSyntax { trigger, cause },
                ),
                Ok(interval) => if interval > 9_223_372_036_854_775_807_000_000 {
                    need == Err::<bool, TriggerErrorView>(
                        TriggerErrorView::IntervalTooLarge { trigger },
                    )
                } else {
                    need == Ok::<bool, TriggerErrorView>(
                        match last_attempt_at {
                            None => true,
                            Some(previous) => now.since(previous) >= interval,
                        },
                    )
                },
            }
        }),
{
}

/// A terminal target is never due, whatever its trigger. Of the others, one with the manual
/// trigger is never due, and one with an unsupported trigger is an error.
pub proof fn law_never_due(
    t: StrategyTargetView,
    last_attempt_at: Option<Instant>,
    now: Instant,
)
    ensures
        ({
            let need = attempt_need(t, last_attempt_at, now);
            let open = t.target.status == Status::Identified || t.target.status
                == Status::Converging;
            &&& !open ==> need == Ok::<bool, TriggerErrorView>(false)
            &&& trigger_of(t.strategy.trigger) is Manual ==> need == Ok::<bool, TriggerErrorView>(
                false,
            )
            &&& open && trigger_of(t.strategy.trigger) is Unsupported ==> need == Err::<
                bool,
                TriggerErrorView,
            >(TriggerErrorView::Unsupported { trigger: trimmed(t.strategy.trigger) })
        }),
{
}

/// Only the status, the trigger and the last attempt count: of two targets that agree in them,
/// both are due or neither is.
pub proof fn law_need_depends_on(
    a: StrategyTargetView,
    b: StrategyTargetView,
    last_attempt_at: Option<Instant>,
    now: Instant,
)
    requires
        a.target.status == b.target.status,
        a.strategy.trigger == b.strategy.trigger,
    ensures
        attempt_need(a, last_attempt_at, now) == attempt_need(b, last_attempt_at, now),
{
}

/// What evaluates to a match is due once, what does not is not, whatever the last attempt; and
/// an interval is due after its duration.
pub proof fn law_due(
    matching: bool,
    interval: nat,
    last_attempt_at: Option<Instant>,
    minute: Instant,
    now: Instant,
)
    ensures
        !matching ==> !cron_due_spec(matching, last_attempt_at, minute),
        matching && last_attempt_at is None ==> cron_due_spec(matching, last_attempt_at, minute),
        last_attempt_at matches Some(previous) ==> {
            &&& matching && previous.secs < minute.secs ==> cron_due_spec(
                matching,
                last_attempt_at,
                minute,
            )
            &&& matching && previous.secs == minute.secs ==> (cron_due_spec(
                matching,
                last_attempt_at,
                minute,
            ) <==> previous.nanos < minute.nanos)
            &&& previous.secs > minute.secs ==> !cron_due_spec(matching, last_attempt_at, minute)
            &&& interval_due_spec(interval, last_attempt_at, now) <==> now.since(previous)
                >= interval
        },
        last_attempt_at is None ==> interval_due_spec(interval, last_attempt_at, now),
        max_interval() == 9_223_372_036_854_775_807_000_000,
{
}

/// An evaluated expression comes to its error, with its cause, or to whether it is due; and so
/// does a parsed interval.
pub proof fn law_verdicts(
    text: Seq<char>,
    cause: Seq<char>,
    matching: bool,
    interval: nat,
    last_attempt_at: Option<Instant>,
    now: Instant,
)
    ensures
        cron_verdict_spec(text, Err(cause), last_attempt_at, now) == Err::<bool, TriggerErrorView>(
            TriggerErrorView::CronSyntax { expression: text, cause },
        ),
        cron_verdict_spec(text, Ok(Err(cause)), last_attempt_at, now) == Err::<
            bool,
            TriggerErrorView,
        >(TriggerErrorView::CronEvaluation { expression: text, cause }),
        cron_verdict_spec(text, Ok(Ok(matching)), last_attempt_at, now) == Ok::<
            bool,
            TriggerErrorView,
        >(
            matching && match last_attempt_at {
                None => true,
                Some(previous) => previous.before(now),
            },
        ),
        interval_verdict_spec(text, Err(cause), last_attempt_at, now) == Err::<
            bool,
            TriggerErrorView,
        >(TriggerErrorView::IntervalSyntax { trigger: text, cause }),
        interval > 9_223_372_036_854_775_807_000_000 ==> interval_verdict_spec(
            text,
            Ok(interval),
            last_attempt_at,
            now,
        ) == Err::<bool, TriggerErrorView>(TriggerErrorView::IntervalTooLarge { trigger: text }),
        interval <= 9_223_372_036_854_775_807_000_000 ==> interval_verdict_spec(
            text,
            Ok(interval),
            last_attempt_at,
            now,
        ) == Ok::<bool, TriggerErrorView>(
            match last_attempt_at {
                None => true,
                Some(previous) => now.since(previous) >= interval,
            },
        ),
{
}

/// A trigger is in range unless it is an interval, of a target that is not terminal, whose
/// duration overflows; a timeout is in range unless it overflows.
pub proof fn law_triggers_in_range(t: StrategyTargetView, duration: Seq<char>)
    ensures
        t.target.status == Status::Achieved || t.target.status == Status::SetAside
            ==> t.trigger_in_range(),
        !(trigger_of(t.strategy.trigger) is Every) ==> t.trigger_in_range(),
        trigger_of(t.strategy.trigger) == Trigger::Every(duration) && duration_text_in_range(
            duration,
        ) ==> t.trigger_in_range(),
        t.strategy.timeout is None ==> t.timeout_in_range(),
        t.strategy.timeout == Some(duration) && duration_text_in_range(duration)
            ==> t.timeout_in_range(),
{
}

/// A timeout that is a duration is taken as it is, however long or short. The default of five
/// minutes stands in only where there is no timeout or where it is not a duration.
pub proof fn law_timeout(text: Seq<char>, nanos: nat, cause: Seq<char>)
    ensures
        duration_parse(text) == Ok::<nat, Seq<char>>(nanos) ==> timeout_of(Some(text)) == nanos,
        duration_parse(text) is Err ==> timeout_of(Some(text)) == 300_000_000_000,
        timeout_of(None) == 300_000_000_000,
        timeout_or_default_spec(Ok(nanos)) == nanos,
        timeout_or_default_spec(Err(cause)) == 300_000_000_000,
{
}

/// An attempt is a success just if it was not stopped and its exit code is zero.
pub proof fn law_success(outcome: AttemptOutcomeView)
    ensures
        outcome.timed_out ==> !outcome.succeeded(),
        outcome.exit_code is None ==> !outcome.succeeded(),
        outcome.exit_code matches Some(code) ==> (outcome.succeeded() <==> code == 0
            && !outcome.timed_out),
{
}

/// However an attempt ended, its times and all the output that was collected from it are kept,
/// and standard error only gains notes at its end: that the output did not come in time, that
/// the wait failed and why, that the command was killed and after how long.
pub proof fn law_outcome_keeps_output(
    started_at: Instant,
    finished_at: Instant,
    limit: Seq<char>,
    ending: EndingView,
    drained: DrainedView,
)
    ensures
        ({
            let outcome = concluded(started_at, finished_at, limit, ending, drained);
            let late = if drained.timed_out {
                "\ncrosshair: output drain timed out"@
            } else {
                Seq::empty()
            };
            let note = match ending {
                EndingView::Exited(_) => Seq::empty(),
                EndingView::WaitFailed(cause) => "\nwait failed: "@ + cause,
                EndingView::DeadlinePassed => "\ncrosshair: killed after "@ + limit,
            };
            &&& outcome.started_at == started_at
            &&& outcome.finished_at == finished_at
            &&& outcome.stdout == drained.stdout
            &&& drained.stderr.is_prefix_of(outcome.stderr)
            &&& outcome.stderr == drained.stderr + (late + note)
        }),
{
    let outcome = concluded(started_at, finished_at, limit, ending, drained);
    assert(outcome.stderr.subrange(0, drained.stderr.len() as int) =~= drained.stderr);
    let late = if drained.timed_out {
        "\ncrosshair: output drain timed out"@
    } else {
        Seq::empty()
    };
    let note = match ending {
        EndingView::Exited(_) => Seq::empty(),
        EndingView::WaitFailed(cause) => "\nwait failed: "@ + cause,
        EndingView::DeadlinePassed => "\ncrosshair: killed after "@ + limit,
    };
    assert(outcome.stderr =~= drained.stderr + (late + note));
}

/// The exit code is kept just if the shell exited and all output came in time, and is unknown
/// otherwise. An attempt counts as timed out just if its deadline passed or its output did not
/// come in time.
pub proof fn law_outcome_keeps_exit_code(
    started_at: Instant,
    finished_at: Instant,
    limit: Seq<char>,
    code: Option<i32>,
    cause: Seq<char>,
    drained: DrainedView,
)
    ensures
        ({
            let exited = concluded(
                started_at,
                finished_at,
                limit,
                EndingView::Exited(code),
                drained,
            );
            let failed = concluded(
                started_at,
                finished_at,
                limit,
                EndingView::WaitFailed(cause),
                drained,
            );
            let killed = concluded(
                started_at,
                finished_at,
                limit,
                EndingView::DeadlinePassed,
                drained,
            );
            &&& !drained.timed_out ==> exited.exit_code == code
            &&& drained.timed_out ==> exited.exit_code is None
            &&& exited.timed_out == drained.timed_out
            &&& failed.exit_code is None && failed.timed_out == drained.timed_out
            &&& killed.exit_code is None && killed.timed_out
        }),
{
}

/// After the wait the group is killed, then the shell is collected if the wait did not collect
/// it, then the output is drained; each is done once.
pub proof fn law_cleanup(ending: EndingView)
    ensures
        ending is Exited ==> cleanup_plan(ending) == seq![
            CleanupStep::KillGroup,
            CleanupStep::Drain,
        ],
        !(ending is Exited) ==> cleanup_plan(ending) == seq![
            CleanupStep::KillGroup,
            CleanupStep::Reap,
            CleanupStep::Drain,
        ],
{
}

/// What is kept of output is its beginning: all of it within the limit, and else just as much
/// as the limit allows. Taken in by pieces, it is the beginning of all of them joined.
pub proof fn law_kept_output(bytes: Seq<u8>, chunks: Seq<Seq<u8>>, limit: nat)
    ensures
        capped(bytes, limit).is_prefix_of(bytes),
        capped(bytes, limit).len() == if bytes.len() <= limit {
            bytes.len()
        } else {
            limit
        },
        gathered_chunks(chunks, limit).is_prefix_of(chunks.flatten()),
        gathered_chunks(chunks, limit).len() == if chunks.flatten().len() <= limit {
            chunks.flatten().len()
        } else {
            limit
        },
{
    assert(capped(bytes, limit) =~= bytes.subrange(0, capped(bytes, limit).len() as int));
    lemma_joined_chunks(chunks);
    law_output_is_capped(chunks, limit);
    let joined = chunks.flatten();
    assert(capped(joined, limit) =~= joined.subrange(0, capped(joined, limit).len() as int));
}

/// Joining pieces one by one joins them all.
proof fn lemma_joined_chunks(chunks: Seq<Seq<u8>>)
    ensures
        joined_chunks(chunks) == chunks.flatten(),
    decreases chunks.len(),
{
    chunks.lemma_flatten_and_flatten_alt_are_equivalent();
    if chunks.len() > 0 {
        lemma_joined_chunks(chunks.drop_last());
        chunks.drop_last().lemma_flatten_and_flatten_alt_are_equivalent();
    }
}

/// Outcomes, endings, collected output and verdicts are seen as they are, field by field.
pub proof fn law_runner_views(
    outcome: AttemptOutcome,
    drained: Drained,
    text: String,
    cause: String,
    code: Option<i32>,
    due: bool,
    error: TriggerError,
    at: Timestamp,
)
    ensures
        outcome@.started_at == outcome.started_at@,
        outcome@.finished_at == outcome.finished_at@,
        outcome@.exit_code == outcome.exit_code,
        outcome@.stdout == outcome.stdout@,
        outcome@.stderr == outcome.stderr@,
        outcome@.timed_out == outcome.timed_out,
        drained@.stdout == drained.stdout@,
        drained@.stderr == drained.stderr@,
        drained@.timed_out == drained.timed_out,
        Ending::Exited(code)@ == EndingView::Exited(code),
        Ending::WaitFailed(cause)@ == EndingView::WaitFailed(cause@),
        Ending::DeadlinePassed@ == EndingView::DeadlinePassed,
        text_or_empty(Some(text)) == text@,
        text_or_empty(None) == Seq::<char>::empty(),
        instant_opt(Some(at)) == Some(at@),
        instant_opt(None) is None,
        verdict(Ok(due)) == Ok::<bool, TriggerErrorView>(due),
        verdict(Err(error)) == Err::<bool, TriggerErrorView>(error@),
        evaluated_view(Ok(Ok(due))) == Ok::<Result<bool, Seq<char>>, Seq<char>>(Ok(due)),
        evaluated_view(Ok(Err(text))) == Ok::<Result<bool, Seq<char>>, Seq<char>>(Err(text@)),
        evaluated_view(Err(text)) == Err::<Result<bool, Seq<char>>, Seq<char>>(text@),
        (TriggerError::FieldCount { expression: text })@ == (TriggerErrorView::FieldCount {
            expression: text@,
        }),
        (TriggerError::CronSyntax { expression: text, cause })@ == (TriggerErrorView::CronSyntax {
            expression: text@,
            cause: cause@,
        }),
        (TriggerError::CronEvaluation { expression: text, cause })@ == (
        TriggerErrorView::CronEvaluation { expression: text@, cause: cause@ }),
        (TriggerError::IntervalSyntax { trigger: text, cause })@ == (
        TriggerErrorView::IntervalSyntax { trigger: text@, cause: cause@ }),
        (TriggerError::IntervalTooLarge { trigger: text })@ == (
        TriggerErrorView::IntervalTooLarge { trigger: text@ }),
        (TriggerError::Unsupported { trigger: text })@ == (TriggerErrorView::Unsupported {
            trigger: text@,
        }),
{
}

} // verus!
