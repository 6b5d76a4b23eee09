//! Per-target state: what an attempt leaves behind, and how it is kept.

use crate::instant::{Instant, Timestamp};
use crate::loader::{Key, StrategyTarget, StrategyTargetView};
use crate::outside::{
    from_rfc3339, parts_opt, rfc3339_instant, rfc3339_text, to_rfc3339, utf8_lossy,
    FIRST_RFC3339_SECS, LAST_RFC3339_SECS,
};
use crate::runner::{instant_opt, AttemptOutcome, AttemptOutcomeView};
use crate::schema::clone_text_opt;
use crate::text::{
    beginning, beginning_of, lemma_encode_concat, lemma_longest_beginning, text_opt, text_result,
};
use vstd::prelude::*;
use vstd::string::StringExecFns;
use vstd::utf8::encode_utf8;

verus! {

/// What is known of a target's attempts.
#[derive(Debug)]
pub struct TargetState {
    pub yaml_path: String,
    pub target_id: String,
    pub last_attempt_at: Option<Timestamp>,
    pub last_success_at: Option<Timestamp>,
    pub consecutive_failures: u32,
    pub cooldown_until: Option<Timestamp>,
    pub last_exit_code: Option<i32>,
    pub last_stdout: Option<String>,
    pub last_stderr: Option<String>,
    pub last_timed_out: bool,
}

/// The value of a [`TargetState`].
pub struct TargetStateView {
    pub yaml_path: Seq<char>,
    pub target_id: Seq<char>,
    pub last_attempt_at: Option<Instant>,
    pub last_success_at: Option<Instant>,
    pub consecutive_failures: int,
    pub cooldown_until: Option<Instant>,
    pub last_exit_code: Option<i32>,
    pub last_stdout: Option<Seq<char>>,
    pub last_stderr: Option<Seq<char>>,
    pub last_timed_out: bool,
}

impl View for TargetState {
    type V = TargetStateView;

    open spec fn view(&self) -> TargetStateView {
        TargetStateView {
            yaml_path: self.yaml_path@,
            target_id: self.target_id@,
            last_attempt_at: instant_opt(self.last_attempt_at),
            last_success_at: instant_opt(self.last_success_at),
            consecutive_failures: self.consecutive_failures as int,
            cooldown_until: instant_opt(self.cooldown_until),
            last_exit_code: self.last_exit_code,
            last_stdout: text_opt(self.last_stdout),
            last_stderr: text_opt(self.last_stderr),
            last_timed_out: self.last_timed_out,
        }
    }
}

impl Clone for TargetState {
    fn clone(&self) -> (r: TargetState)
        ensures
            r@ == self@,
    {
        TargetState {
            yaml_path: self.yaml_path.clone(),
            target_id: self.target_id.clone(),
            last_attempt_at: self.last_attempt_at,
            last_success_at: self.last_success_at,
            consecutive_failures: self.consecutive_failures,
            cooldown_until: self.cooldown_until,
            last_exit_code: self.last_exit_code,
            last_stdout: clone_text_opt(&self.last_stdout),
            last_stderr: clone_text_opt(&self.last_stderr),
            last_timed_out: self.last_timed_out,
        }
    }
}

impl TargetStateView {
    /// What the state is filed under.
    pub open spec fn key(self) -> Key {
        (self.yaml_path, self.target_id)
    }

    /// The state of a target that has never been attempted.
    pub open spec fn empty(key: Key) -> TargetStateView {
        TargetStateView {
            yaml_path: key.0,
            target_id: key.1,
            last_attempt_at: None,
            last_success_at: None,
            consecutive_failures: 0,
            cooldown_until: None,
            last_exit_code: None,
            last_stdout: None,
            last_stderr: None,
            last_timed_out: false,
        }
    }
}

impl TargetState {
    /// The state of a target that has never been attempted.
    pub fn empty(yaml_path: String, target_id: String) -> (r: TargetState)
        ensures
            r@ == TargetStateView::empty((yaml_path@, target_id@)),
    {
        TargetState {
            yaml_path,
            target_id,
            last_attempt_at: None,
            last_success_at: None,
            consecutive_failures: 0,
            cooldown_until: None,
            last_exit_code: None,
            last_stdout: None,
            last_stderr: None,
            last_timed_out: false,
        }
    }
}

/// The most bytes of each output stream that a state keeps.
pub const STORED_OUTPUT_BYTES: usize = 4096;

/// A text cut down to at most `max` bytes of whole characters, with a mark where it was cut.
pub open spec fn truncated(s: Seq<char>, max: int) -> Seq<char> {
    if encode_utf8(s).len() <= max {
        s
    } else {
        beginning(s, max) + "…[truncated]"@
    }
}

/// Cuts a text down to at most `max` bytes of whole characters, and marks where it was cut.
pub fn truncate(s: &str, max: usize) -> (r: String)
    ensures
        r@ == truncated(s@, max as int),
{
    if s.as_bytes().len() <= max {
        return s.to_owned();
    }
    let mut out: String = beginning_of(s, max);
    out.append("…[truncated]");
    out
}

/// The state of a target after an attempt.
///
/// A success clears the count of failures and is remembered; a failure raises the count and
/// leaves the last success as it was.
pub open spec fn state_after(
    t: StrategyTargetView,
    outcome: AttemptOutcomeView,
    cooldown_until: Option<Instant>,
    prior: TargetStateView,
) -> TargetStateView {
    TargetStateView {
        yaml_path: t.key().0,
        target_id: t.key().1,
        last_attempt_at: Some(outcome.finished_at),
        last_success_at: if outcome.succeeded() {
            Some(outcome.finished_at)
        } else {
            prior.last_success_at
        },
        consecutive_failures: if outcome.succeeded() {
            0
        } else {
            prior.consecutive_failures + 1
        },
        cooldown_until,
        last_exit_code: outcome.exit_code,
        last_stdout: Some(truncated(outcome.stdout, STORED_OUTPUT_BYTES as int)),
        last_stderr: Some(truncated(outcome.stderr, STORED_OUTPUT_BYTES as int)),
        last_timed_out: outcome.timed_out,
    }
}

/// The state of a target after an attempt.
pub fn state_after_attempt(
    t: &StrategyTarget,
    outcome: &AttemptOutcome,
    cooldown_until: Option<Timestamp>,
    prior: &TargetState,
) -> (r: TargetState)
    requires
        outcome@.succeeded() || prior.consecutive_failures < u32::MAX,
    ensures
        r@ == state_after(t@, outcome@, instant_opt(cooldown_until), prior@),
{
    let (path, id) = t.key();
    let succeeded = outcome.succeeded();
    let last_success_at = if succeeded {
        Some(outcome.finished_at)
    } else {
        prior.last_success_at
    };
    let consecutive_failures: u32 = if succeeded {
        0
    } else {
        prior.consecutive_failures + 1
    };
    TargetState {
        yaml_path: path,
        target_id: id.to_owned(),
        last_attempt_at: Some(outcome.finished_at),
        last_success_at,
        consecutive_failures,
        cooldown_until,
        last_exit_code: outcome.exit_code,
        last_stdout: Some(truncate(outcome.stdout.as_str(), STORED_OUTPUT_BYTES)),
        last_stderr: Some(truncate(outcome.stderr.as_str(), STORED_OUTPUT_BYTES)),
        last_timed_out: outcome.timed_out,
    }
}

/// A state as the columns of a database row.
#[derive(Debug)]
pub struct StateRow {
    pub yaml_path: String,
    pub target_id: String,
    pub last_attempt_at: Option<String>,
    pub last_success_at: Option<String>,
    pub consecutive_failures: i64,
    pub cooldown_until: Option<String>,
    pub last_exit_code: Option<i32>,
    pub last_stdout: Option<String>,
    pub last_stderr: Option<String>,
    pub last_timed_out: i64,
}

/// The value of a [`StateRow`].
pub struct StateRowView {
    pub yaml_path: Seq<char>,
    pub target_id: Seq<char>,
    pub last_attempt_at: Option<Seq<char>>,
    pub last_success_at: Option<Seq<char>>,
    pub consecutive_failures: i64,
    pub cooldown_until: Option<Seq<char>>,
    pub last_exit_code: Option<i32>,
    pub last_stdout: Option<Seq<char>>,
    pub last_stderr: Option<Seq<char>>,
    pub last_timed_out: i64,
}

impl View for StateRow {
    type V = StateRowView;

    open spec fn view(&self) -> StateRowView {
        StateRowView {
            yaml_path: self.yaml_path@,
            target_id: self.target_id@,
            last_attempt_at: text_opt(self.last_attempt_at),
            last_success_at: text_opt(self.last_success_at),
            consecutive_failures: self.consecutive_failures,
            cooldown_until: text_opt(self.cooldown_until),
            last_exit_code: self.last_exit_code,
            last_stdout: text_opt(self.last_stdout),
            last_stderr: text_opt(self.last_stderr),
            last_timed_out: self.last_timed_out,
        }
    }
}

/// A point in time as a column holds it.
pub open spec fn time_column(t: Option<Instant>) -> Option<Seq<char>> {
    match t {
        Some(t) => Some(rfc3339_text(t.secs, t.nanos)),
        None => None,
    }
}

/// The point in time that a column holds. A text that is not a point in time counts as none.
pub open spec fn column_time(s: Option<Seq<char>>) -> Option<Instant> {
    match s {
        Some(text) => match rfc3339_instant(text) {
            Some((secs, nanos)) => Some(Instant { secs, nanos }),
            None => None,
        },
        None => None,
    }
}

/// The row of a state.
pub open spec fn row_of(s: TargetStateView) -> StateRowView {
    StateRowView {
        yaml_path: s.yaml_path,
        target_id: s.target_id,
        last_attempt_at: time_column(s.last_attempt_at),
        last_success_at: time_column(s.last_success_at),
        consecutive_failures: s.consecutive_failures as i64,
        cooldown_until: time_column(s.cooldown_until),
        last_exit_code: s.last_exit_code,
        last_stdout: s.last_stdout,
        last_stderr: s.last_stderr,
        last_timed_out: if s.last_timed_out {
            1
        } else {
            0
        },
    }
}

/// The state of a row. The count of failures is the low 32 bits of its column.
pub open spec fn state_of(row: StateRowView) -> TargetStateView {
    TargetStateView {
        yaml_path: row.yaml_path,
        target_id: row.target_id,
        last_attempt_at: column_time(row.last_attempt_at),
        last_success_at: column_time(row.last_success_at),
        consecutive_failures: row.consecutive_failures as u32 as int,
        cooldown_until: column_time(row.cooldown_until),
        last_exit_code: row.last_exit_code,
        last_stdout: row.last_stdout,
        last_stderr: row.last_stderr,
        last_timed_out: row.last_timed_out != 0,
    }
}

/// The year of an optional point in time is written with four digits.
pub open spec fn four_digit_year(t: Option<Instant>) -> bool {
    t matches Some(t) ==> FIRST_RFC3339_SECS <= t.secs <= LAST_RFC3339_SECS
}

/// Every point in time in the state has a year of four digits.
pub open spec fn four_digit_years(s: TargetStateView) -> bool {
    four_digit_year(s.last_attempt_at) && four_digit_year(s.last_success_at) && four_digit_year(
        s.cooldown_until,
    )
}

/// A point in time as a column holds it.
fn time_to_column(t: Option<Timestamp>) -> (r: Option<String>)
    ensures
        text_opt(r) == time_column(instant_opt(t)),
        four_digit_year(instant_opt(t)) ==> column_time(text_opt(r)) == instant_opt(t),
{
    match t {
        Some(t) => Some(to_rfc3339(&t)),
        None => None,
    }
}

/// Reads a point in time from a column. A text that is not one counts as none.
pub fn parse_rfc3339(s: Option<String>) -> (r: Option<Timestamp>)
    ensures
        instant_opt(r) == column_time(text_opt(s)),
{
    match s {
        Some(text) => {
            let r = from_rfc3339(text.as_str());
            assert(parts_opt(r) == rfc3339_instant(text@));
            r
        },
        None => None,
    }
}

/// The row of a state, from which the state can be read back.
pub fn state_to_row(state: &TargetState) -> (r: StateRow)
    ensures
        r@ == row_of(state@),
        four_digit_years(state@) ==> state_of(r@) == state@,
{
    let last_timed_out: i64 = if state.last_timed_out {
        1
    } else {
        0
    };
    StateRow {
        yaml_path: state.yaml_path.clone(),
        target_id: state.target_id.clone(),
        last_attempt_at: time_to_column(state.last_attempt_at),
        last_success_at: time_to_column(state.last_success_at),
        consecutive_failures: state.consecutive_failures as i64,
        cooldown_until: time_to_column(state.cooldown_until),
        last_exit_code: state.last_exit_code,
        last_stdout: clone_text_opt(&state.last_stdout),
        last_stderr: clone_text_opt(&state.last_stderr),
        last_timed_out,
    }
}

/// The state of a row.
pub fn row_to_state(row: StateRow) -> (r: TargetState)
    ensures
        r@ == state_of(row@),
{
    TargetState {
        yaml_path: row.yaml_path,
        target_id: row.target_id,
        last_attempt_at: parse_rfc3339(row.last_attempt_at),
        last_success_at: parse_rfc3339(row.last_success_at),
        consecutive_failures: #[verifier::truncate]
        (row.consecutive_failures as u32),
        cooldown_until: parse_rfc3339(row.cooldown_until),
        last_exit_code: row.last_exit_code,
        last_stdout: row.last_stdout,
        last_stderr: row.last_stderr,
        last_timed_out: row.last_timed_out != 0,
    }
}

/// States by what they are filed under.
pub type States = Map<Key, TargetStateView>;

/// The states of a list as a map.
pub open spec fn states_map(s: Seq<TargetState>) -> States {
    Map::new(
        |k: Key| exists|i: int| filed_at(s, k, i),
        |k: Key| s[choose|i: int| filed_at(s, k, i)]@,
    )
}

/// The list has a state for the key at position `i`.
pub open spec fn filed_at(s: Seq<TargetState>, k: Key, i: int) -> bool {
    0 <= i < s.len() && s[i]@.key() == k
}

/// No two states of the list are filed under the same key.
pub open spec fn keys_distinct(s: Seq<TargetState>) -> bool {
    forall|i: int, j: int|
        0 <= i < j < s.len() ==> (#[trigger] s[i])@.key() != (#[trigger] s[j])@.key()
}

/// In a list with distinct keys, the map holds under a state's key that state.
proof fn lemma_filed_state(s: Seq<TargetState>, i: int)
    requires
        keys_distinct(s),
        0 <= i < s.len(),
    ensures
        states_map(s).contains_key(s[i]@.key()),
        states_map(s)[s[i]@.key()] == s[i]@,
{
    let k = s[i]@.key();
    assert(filed_at(s, k, i));
    let j = choose|j: int| filed_at(s, k, j);
    assert(j == i);
}

/// Removing a state from a list with distinct keys removes its key from the map.
proof fn lemma_remove_state(s: Seq<TargetState>, i: int)
    requires
        keys_distinct(s),
        0 <= i < s.len(),
    ensures
        keys_distinct(s.remove(i)),
        states_map(s.remove(i)) == states_map(s).remove(s[i]@.key()),
{
    let t = s.remove(i);
    let gone = s[i]@.key();
    assert forall|a: int, b: int| 0 <= a < b < t.len() implies (#[trigger] t[a])@.key() != (
    #[trigger] t[b])@.key() by {
        let x = if a < i {
            a
        } else {
            a + 1
        };
        let y = if b < i {
            b
        } else {
            b + 1
        };
        assert(s[x]@.key() != s[y]@.key());
    }
    assert forall|k: Key|
        states_map(t).contains_key(k) == #[trigger] states_map(s).remove(gone).contains_key(
            k,
        ) by {
        if exists|a: int| filed_at(t, k, a) {
            let a = choose|a: int| filed_at(t, k, a);
            let x = if a < i {
                a
            } else {
                a + 1
            };
            assert(filed_at(s, k, x));
            if x < i {
                assert(s[x]@.key() != s[i]@.key());
            } else {
                assert(s[i]@.key() != s[x]@.key());
            }
        }
        if k != gone && exists|x: int| filed_at(s, k, x) {
            let x = choose|x: int| filed_at(s, k, x);
            assert(filed_at(
                t,
                k,
                if x < i {
                    x
                } else {
                    x - 1
                },
            ));
        }
    }
    assert forall|k: Key| states_map(t).contains_key(k) implies #[trigger] states_map(t)[k]
        == states_map(s).remove(gone)[k] by {
        let a = choose|a: int| filed_at(t, k, a);
        let x = if a < i {
            a
        } else {
            a + 1
        };
        lemma_filed_state(t, a);
        lemma_filed_state(s, x);
    }
    assert(states_map(t) =~= states_map(s).remove(gone));
}

/// Appending a state under a new key to a list with distinct keys adds it to the map.
proof fn lemma_push_state(s: Seq<TargetState>, state: TargetState)
    requires
        keys_distinct(s),
        !states_map(s).contains_key(state@.key()),
    ensures
        keys_distinct(s.push(state)),
        states_map(s.push(state)) == states_map(s).insert(state@.key(), state@),
{
    let t = s.push(state);
    let added = state@.key();
    assert forall|a: int, b: int| 0 <= a < b < t.len() implies (#[trigger] t[a])@.key() != (
    #[trigger] t[b])@.key() by {
        assert(t[a] == s[a]);
        if b < s.len() {
            assert(s[a]@.key() != s[b]@.key());
        } else {
            if s[a]@.key() == added {
                assert(filed_at(s, added, a));
            }
        }
    }
    assert forall|k: Key|
        states_map(t).contains_key(k) == #[trigger] states_map(s).insert(
            added,
            state@,
        ).contains_key(k) by {
        if exists|a: int| filed_at(s, k, a) {
            let a = choose|a: int| filed_at(s, k, a);
            assert(filed_at(t, k, a));
        }
        assert(filed_at(t, added, s.len() as int));
        if exists|a: int| filed_at(t, k, a) {
            let a = choose|a: int| filed_at(t, k, a);
            if a < s.len() {
                assert(filed_at(s, k, a));
            }
        }
    }
    assert forall|k: Key| states_map(t).contains_key(k) implies #[trigger] states_map(t)[k]
        == states_map(s).insert(added, state@)[k] by {
        let a = choose|a: int| filed_at(t, k, a);
        lemma_filed_state(t, a);
        if a < s.len() {
            lemma_filed_state(s, a);
        }
    }
    assert(states_map(t) =~= states_map(s).insert(added, state@));
}

/// The states that could not be written to the database, which stand in for what it holds.
/// They preserve backoff for later ticks while the database is unavailable.
#[derive(Debug)]
pub struct Store {
    fallback: Vec<TargetState>,
}

impl View for Store {
    type V = States;

    closed spec fn view(&self) -> States {
        states_map(self.fallback@)
    }
}

/// The state that counts for a key: the one that could not be written, or else the one that
/// was read from the database, or else that of a target never attempted. What came of the
/// read is of no account where a state stands in.
pub open spec fn current_state(
    fallback: States,
    read: Result<Option<TargetStateView>, Seq<char>>,
    key: Key,
) -> Result<TargetStateView, Seq<char>> {
    if fallback.contains_key(key) {
        Ok(fallback[key])
    } else {
        match read {
            Ok(Some(state)) => Ok(state),
            Ok(None) => Ok(TargetStateView::empty(key)),
            Err(cause) => Err(cause),
        }
    }
}

/// The stand-in states after a state has been written to the database, or has not.
pub open spec fn fallback_after(
    fallback: States,
    key: Key,
    state: TargetStateView,
    persisted: bool,
) -> States {
    if persisted {
        fallback.remove(key)
    } else {
        fallback.insert(key, state)
    }
}

/// The view of an optional state.
pub open spec fn state_opt(s: Option<TargetState>) -> Option<TargetStateView> {
    match s {
        Some(s) => Some(s@),
        None => None,
    }
}

/// The view of what came of reading a state from the database.
pub open spec fn read_view(r: Result<Option<TargetState>, String>) -> Result<
    Option<TargetStateView>,
    Seq<char>,
> {
    match r {
        Ok(s) => Ok(state_opt(s)),
        Err(e) => Err(e@),
    }
}

/// The view of a state, or of the reason why there is none.
pub open spec fn state_result(r: Result<TargetState, String>) -> Result<
    TargetStateView,
    Seq<char>,
> {
    match r {
        Ok(s) => Ok(s@),
        Err(e) => Err(e@),
    }
}

impl Store {
    #[verifier::type_invariant]
    spec fn inv(self) -> bool {
        keys_distinct(self.fallback@)
    }

    /// Nothing stands in for the database.
    pub fn new() -> (r: Store)
        ensures
            r@ == States::empty(),
    {
        let r = Store { fallback: Vec::new() };
        assert(r@ =~= States::empty());
        r
    }

    /// The position of the state filed under a key, if there is one.
    fn position(&self, path: &String, id: &str) -> (r: Option<usize>)
        ensures
            keys_distinct(self.fallback@),
            r is Some <==> self@.contains_key((path@, id@)),
            r matches Some(i) ==> i < self.fallback@.len() && self.fallback@[i as int]@.key() == (
                path@,
                id@,
            ),
    {
        proof {
            use_type_invariant(&*self);
        }
        let wanted: String = id.to_owned();
        let mut i: usize = 0;
        while i < self.fallback.len()
            invariant
                keys_distinct(self.fallback@),
                wanted@ == id@,
                i <= self.fallback.len(),
                forall|k: int|
                    0 <= k < i ==> (#[trigger] self.fallback@[k])@.key() != (path@, id@),
            decreases self.fallback.len() - i,
        {
            if self.fallback[i].yaml_path == *path && self.fallback[i].target_id == wanted {
                assert(filed_at(self.fallback@, (path@, id@), i as int));
                return Some(i);
            }
            i += 1;
        }
        None
    }

    /// The state that stands in for the database's, if one does.
    pub fn fallback_state(&self, t: &StrategyTarget) -> (r: Option<TargetState>)
        ensures
            state_opt(r) == if self@.contains_key(t@.key()) {
                Some(self@[t@.key()])
            } else {
                None
            },
    {
        let (path, id) = t.key();
        match self.position(&path, id) {
            Some(i) => {
                proof {
                    lemma_filed_state(self.fallback@, i as int);
                }
                Some(self.fallback[i].clone())
            },
            None => None,
        }
    }

    /// The state that counts for a target, given what came of reading it from the database. The
    /// read may be left out where a state stands in.
    pub fn get_or_empty(&self, t: &StrategyTarget, read: Result<Option<TargetState>, String>) -> (r:
        Result<TargetState, String>)
        ensures
            state_result(r) == current_state(self@, read_view(read), t@.key()),
    {
        if let Some(state) = self.fallback_state(t) {
            return Ok(state);
        }
        match read {
            Ok(Some(state)) => Ok(state),
            Ok(None) => {
                let (path, id) = t.key();
                Ok(TargetState::empty(path, id.to_owned()))
            },
            Err(cause) => Err(cause),
        }
    }

    /// Records an attempt, given whether its state was written to the database. If it was, the
    /// database counts again; if not, the state stands in for it, and the failure is returned.
    pub fn record_attempt(
        &mut self,
        t: &StrategyTarget,
        outcome: &AttemptOutcome,
        cooldown_until: Option<Timestamp>,
        prior: &TargetState,
        written: Result<(), String>,
    ) -> (r: Result<(), String>)
        requires
            outcome@.succeeded() || prior.consecutive_failures < u32::MAX,
        ensures
            final(self)@ == fallback_after(
                old(self)@,
                t@.key(),
                state_after(t@, outcome@, instant_opt(cooldown_until), prior@),
                written is Ok,
            ),
            text_result(r) == text_result(written),
    {
        let state = state_after_attempt(t, outcome, cooldown_until, prior);
        let ghost before = self@;
        let (path, id) = t.key();
        let position = self.position(&path, id);
        let mut fallback: Vec<TargetState> = Vec::new();
        std::mem::swap(&mut fallback, &mut self.fallback);
        if let Some(i) = position {
            proof {
                lemma_remove_state(fallback@, i as int);
            }
            fallback.remove(i);
        } else {
            assert(before =~= before.remove(t@.key()));
        }
        assert(states_map(fallback@) == before.remove(t@.key()));
        if written.is_err() {
            proof {
                lemma_push_state(fallback@, state);
                assert(before.remove(t@.key()).insert(t@.key(), state@) =~= before.insert(
                    t@.key(),
                    state@,
                ));
            }
            fallback.push(state);
        }
        self.fallback = fallback;
        written
    }
}

/// A text within the limit is kept whole. Of a longer one the longest beginning is kept that
/// is made of whole characters and fits the limit, followed by the mark.
pub proof fn law_truncation_keeps_longest_beginning(s: Seq<char>, max: int)
    requires
        0 <= max,
    ensures
        encode_utf8(s).len() <= max ==> truncated(s, max) == s,
        encode_utf8(s).len() > max ==> exists|k: int|
            {
                &&& 0 <= k < s.len()
                &&& truncated(s, max) == #[trigger] s.take(k) + "…[truncated]"@
                &&& encode_utf8(s.take(k)).len() <= max
                &&& encode_utf8(s.take(k + 1)).len() > max
            },
{
    if encode_utf8(s).len() > max {
        let k = lemma_longest_beginning(s, max);
        assert(truncated(s, max) == s.take(k) + "…[truncated]"@);
    }
}

/// What a state keeps of an output stream is bounded: the limit, and the mark of fourteen bytes.
pub proof fn law_truncation_is_bounded(s: Seq<char>, max: int)
    requires
        0 <= max,
    ensures
        encode_utf8(truncated(s, max)).len() <= max + 14,
{
    if encode_utf8(s).len() > max {
        let k = lemma_longest_beginning(s, max);
        let mark = "…[truncated]"@;
        lemma_encode_concat(s.take(k), mark);
        reveal_strlit("…[truncated]");
        let ellipsis = seq!['…'];
        let ascii = mark.skip(1);
        assert(mark =~= ellipsis + ascii);
        lemma_encode_concat(ellipsis, ascii);
        vstd::utf8::is_ascii_chars_encode_utf8(ascii);
        reveal_with_fuel(encode_utf8, 2);
        assert(encode_utf8(ellipsis).len() == 3);
    }
}

/// Each output of an attempt is remembered, whether it succeeded or not and whatever was
/// remembered before: all of it if it is at most 4096 bytes, and else its longest beginning of
/// whole characters that fits them, with the mark.
pub proof fn law_output_is_remembered(
    t: StrategyTargetView,
    outcome: AttemptOutcomeView,
    cooldown_until: Option<Instant>,
    prior: TargetStateView,
)
    ensures
        ({
            let state = state_after(t, outcome, cooldown_until, prior);
            let out = outcome.stdout;
            let err = outcome.stderr;
            &&& encode_utf8(out).len() <= 4096 ==> state.last_stdout == Some(out)
            &&& encode_utf8(out).len() > 4096 ==> exists|k: int|
                0 <= k < out.len() && state.last_stdout == Some(
                    #[trigger] out.take(k) + "…[truncated]"@,
                ) && encode_utf8(out.take(k)).len() <= 4096 && encode_utf8(out.take(k + 1)).len()
                    > 4096
            &&& encode_utf8(err).len() <= 4096 ==> state.last_stderr == Some(err)
            &&& encode_utf8(err).len() > 4096 ==> exists|k: int|
                0 <= k < err.len() && state.last_stderr == Some(
                    #[trigger] err.take(k) + "…[truncated]"@,
                ) && encode_utf8(err.take(k)).len() <= 4096 && encode_utf8(err.take(k + 1)).len()
                    > 4096
        }),
{
    if encode_utf8(outcome.stdout).len() > 4096 {
        let k = lemma_longest_beginning(outcome.stdout, 4096);
    }
    if encode_utf8(outcome.stderr).len() > 4096 {
        let k = lemma_longest_beginning(outcome.stderr, 4096);
    }
}

/// An attempt is remembered under its target's path and id, with its finish, its exit code,
/// whether it timed out, and the cooldown that was set. A success is the last success and ends
/// the count of failures; a failure leaves the last success and adds one to the count.
pub proof fn law_attempt_is_remembered(
    t: StrategyTargetView,
    outcome: AttemptOutcomeView,
    cooldown_until: Option<Instant>,
    prior: TargetStateView,
)
    ensures
        ({
            let state = state_after(t, outcome, cooldown_until, prior);
            let good = outcome.exit_code == Some(0i32) && !outcome.timed_out;
            &&& state.yaml_path == utf8_lossy(t.yaml_path)
            &&& state.target_id == t.target_id
            &&& state.last_attempt_at == Some(outcome.finished_at)
            &&& state.last_exit_code == outcome.exit_code
            &&& state.last_timed_out == outcome.timed_out
            &&& state.cooldown_until == cooldown_until
            &&& good ==> state.last_success_at == Some(outcome.finished_at)
            &&& !good ==> state.last_success_at == prior.last_success_at
            &&& good ==> state.consecutive_failures == 0
            &&& !good ==> state.consecutive_failures == prior.consecutive_failures + 1
        }),
{
}

/// Of the state before an attempt only the count of failures and the last success count, and
/// after a success not even those.
pub proof fn law_prior_counts_for_little(
    t: StrategyTargetView,
    outcome: AttemptOutcomeView,
    cooldown_until: Option<Instant>,
    a: TargetStateView,
    b: TargetStateView,
)
    requires
        outcome.succeeded() || (a.consecutive_failures == b.consecutive_failures
            && a.last_success_at == b.last_success_at),
    ensures
        state_after(t, outcome, cooldown_until, a) == state_after(t, outcome, cooldown_until, b),
{
}

/// A target that has never been attempted is known by its key alone.
pub proof fn law_empty_state(key: Key)
    ensures
        ({
            let state = TargetStateView::empty(key);
            &&& state.yaml_path == key.0 && state.target_id == key.1
            &&& state.key() == key
            &&& state.last_attempt_at is None && state.last_success_at is None
            &&& state.cooldown_until is None && state.last_exit_code is None
            &&& state.last_stdout is None && state.last_stderr is None
            &&& state.consecutive_failures == 0 && !state.last_timed_out
        }),
{
}

/// A row holds a state column by column: texts and the exit code as they are, times as RFC 3339
/// texts, the count as it is, and a timeout as one.
pub proof fn law_row_columns(s: TargetStateView, t: Instant)
    requires
        0 <= s.consecutive_failures <= u32::MAX,
    ensures
        ({
            let row = row_of(s);
            &&& row.yaml_path == s.yaml_path && row.target_id == s.target_id
            &&& row.last_exit_code == s.last_exit_code
            &&& row.last_stdout == s.last_stdout && row.last_stderr == s.last_stderr
            &&& row.consecutive_failures == s.consecutive_failures
            &&& row.last_timed_out == if s.last_timed_out {
                1i64
            } else {
                0i64
            }
            &&& s.last_attempt_at == Some(t) ==> row.last_attempt_at == Some(
                rfc3339_text(t.secs, t.nanos),
            )
            &&& s.last_attempt_at is None ==> row.last_attempt_at is None
            &&& s.last_success_at == Some(t) ==> row.last_success_at == Some(
                rfc3339_text(t.secs, t.nanos),
            )
            &&& s.last_success_at is None ==> row.last_success_at is None
            &&& s.cooldown_until == Some(t) ==> row.cooldown_until == Some(
                rfc3339_text(t.secs, t.nanos),
            )
            &&& s.cooldown_until is None ==> row.cooldown_until is None
        }),
{
}

/// A state is read from a row column by column. A column that holds no time, or a text that is
/// none, is no time; a timeout is anything but zero; a count is read in 32 bits.
pub proof fn law_row_is_read(row: StateRowView, text: Seq<char>)
    ensures
        ({
            let s = state_of(row);
            let time = match rfc3339_instant(text) {
                Some((secs, nanos)) => Some(Instant { secs, nanos }),
                None => None,
            };
            &&& s.yaml_path == row.yaml_path && s.target_id == row.target_id
            &&& s.last_exit_code == row.last_exit_code
            &&& s.last_stdout == row.last_stdout && s.last_stderr == row.last_stderr
            &&& 0 <= row.consecutive_failures <= u32::MAX ==> s.consecutive_failures
                == row.consecutive_failures
            &&& s.consecutive_failures == row.consecutive_failures as u32
            &&& s.last_timed_out <==> row.last_timed_out != 0
            &&& row.last_attempt_at == Some(text) ==> s.last_attempt_at == time
            &&& row.last_attempt_at is None ==> s.last_attempt_at is None
            &&& row.last_success_at == Some(text) ==> s.last_success_at == time
            &&& row.last_success_at is None ==> s.last_success_at is None
            &&& row.cooldown_until == Some(text) ==> s.cooldown_until == time
            &&& row.cooldown_until is None ==> s.cooldown_until is None
        }),
{
}

/// Times from the year 0 to the year 9999, and no time at all, can be read back.
pub proof fn law_readable_times(t: Instant, s: TargetStateView)
    ensures
        -62_167_219_200 <= t.secs <= 253_402_300_799 ==> four_digit_year(Some(t)),
        four_digit_year(None),
        four_digit_year(s.last_attempt_at) && four_digit_year(s.last_success_at)
            && four_digit_year(s.cooldown_until) ==> four_digit_years(s),
{
}

/// A state that could not be written stands in, whatever came of the read; without one the
/// database counts, a target that it does not hold has never been attempted, and a failure to
/// read it is a failure.
pub proof fn law_current_state(
    fallback: States,
    key: Key,
    state: TargetStateView,
    cause: Seq<char>,
    read: Result<Option<TargetStateView>, Seq<char>>,
)
    ensures
        fallback.contains_key(key) ==> current_state(fallback, read, key) == Ok::<
            TargetStateView,
            Seq<char>,
        >(fallback[key]),
        !fallback.contains_key(key) ==> {
            &&& current_state(fallback, Ok(Some(state)), key) == Ok::<TargetStateView, Seq<char>>(
                state,
            )
            &&& current_state(fallback, Ok(None), key) == Ok::<TargetStateView, Seq<char>>(
                TargetStateView::empty(key),
            )
            &&& current_state(fallback, Err(cause), key) == Err::<TargetStateView, Seq<char>>(cause)
        },
{
}

/// A state that was written no longer stands in, one that was not does, and all others stay.
pub proof fn law_stand_ins(
    fallback: States,
    key: Key,
    state: TargetStateView,
    other: Key,
)
    requires
        other != key,
    ensures
        !fallback_after(fallback, key, state, true).contains_key(key),
        fallback_after(fallback, key, state, false).contains_key(key),
        fallback_after(fallback, key, state, false)[key] == state,
        forall|written: bool|
            {
                &&& #[trigger] fallback_after(fallback, key, state, written).contains_key(other)
                    <==> fallback.contains_key(other)
                &&& fallback.contains_key(other) ==> fallback_after(
                    fallback,
                    key,
                    state,
                    written,
                )[other] == fallback[other]
            },
{
}

/// States, rows and results of reads are seen as they are, field by field.
pub proof fn law_store_views(state: TargetState, row: StateRow, cause: String)
    ensures
        state@.yaml_path == state.yaml_path@,
        state@.target_id == state.target_id@,
        state@.last_attempt_at == instant_opt(state.last_attempt_at),
        state@.last_success_at == instant_opt(state.last_success_at),
        state@.consecutive_failures == state.consecutive_failures,
        state@.cooldown_until == instant_opt(state.cooldown_until),
        state@.last_exit_code == state.last_exit_code,
        state@.last_stdout == text_opt(state.last_stdout),
        state@.last_stderr == text_opt(state.last_stderr),
        state@.last_timed_out == state.last_timed_out,
        row@.yaml_path == row.yaml_path@,
        row@.target_id == row.target_id@,
        row@.last_attempt_at == text_opt(row.last_attempt_at),
        row@.last_success_at == text_opt(row.last_success_at),
        row@.consecutive_failures == row.consecutive_failures,
        row@.cooldown_until == text_opt(row.cooldown_until),
        row@.last_exit_code == row.last_exit_code,
        row@.last_stdout == text_opt(row.last_stdout),
        row@.last_stderr == text_opt(row.last_stderr),
        row@.last_timed_out == row.last_timed_out,
        state_opt(Some(state)) == Some(state@),
        state_opt(None) is None,
        read_view(Ok(Some(state))) == Ok::<Option<TargetStateView>, Seq<char>>(Some(state@)),
        read_view(Ok(None)) == Ok::<Option<TargetStateView>, Seq<char>>(None),
        read_view(Err(cause)) == Err::<Option<TargetStateView>, Seq<char>>(cause@),
        state_result(Ok(state)) == Ok::<TargetStateView, Seq<char>>(state@),
        state_result(Err(cause)) == Err::<TargetStateView, Seq<char>>(cause@),
{
}

} // verus!
