//! Points in time and lengths of time, as plain integers.

use vstd::prelude::*;

verus! {

/// Nanoseconds in one second.
pub const NANOS_PER_SEC: u32 = 1_000_000_000;

/// The earliest second a [`Timestamp`] can hold: the start of the year -262143.
pub const MIN_SECS: i64 = -8_334_601_228_800;

/// The latest second a [`Timestamp`] can hold: the end of the year 262142.
pub const MAX_SECS: i64 = 8_210_266_876_799;

/// The mathematical value of a [`Timestamp`].
///
/// `secs` counts non-leap seconds since 1970-01-01T00:00:00Z. `nanos` is the offset into
/// that second; it reaches beyond a full second only inside a leap second, which is the
/// second half of a doubly long last second of a minute.
pub struct Instant {
    pub secs: int,
    pub nanos: int,
}

impl Instant {
    /// The instant lies in the calendar's range, with a leap second only at the end of a minute.
    pub open spec fn in_range(self) -> bool {
        &&& MIN_SECS <= self.secs <= MAX_SECS
        &&& 0 <= self.nanos
        &&& self.nanos < NANOS_PER_SEC || (self.nanos < 2 * NANOS_PER_SEC && self.secs % 60 == 59)
    }

    /// `self` comes strictly before `other`.
    pub open spec fn before(self, other: Instant) -> bool {
        self.secs < other.secs || (self.secs == other.secs && self.nanos < other.nanos)
    }

    /// The first instant of the minute that holds `self`.
    pub open spec fn minute_start(self) -> Instant {
        Instant { secs: self.secs - self.secs % 60, nanos: 0 }
    }

    /// The second of the day that holds `self`.
    pub open spec fn second_of_day(self) -> int {
        self.secs % 86_400
    }

    /// The instant lies inside a leap second.
    pub open spec fn in_leap_second(self) -> bool {
        self.nanos >= NANOS_PER_SEC
    }

    /// The seconds that `since` adds for a leap second that one end lies in and the time of
    /// day of the other end is past.
    pub open spec fn leap_step(self, earlier: Instant) -> int {
        if self.second_of_day() > earlier.second_of_day() && earlier.in_leap_second() {
            1
        } else if self.second_of_day() < earlier.second_of_day() && self.in_leap_second() {
            -1
        } else {
            0
        }
    }

    /// The nanoseconds from `earlier` to `self`, negative if `self` comes first.
    pub open spec fn since(self, earlier: Instant) -> int {
        (self.secs - earlier.secs + self.leap_step(earlier)) * NANOS_PER_SEC + (self.nanos
            - earlier.nanos)
    }

    /// `self` moved forward by a positive number of whole seconds, out of any leap second.
    pub open spec fn plus(self, seconds: int) -> Instant {
        Instant {
            secs: self.secs + seconds,
            nanos: if self.in_leap_second() {
                self.nanos - NANOS_PER_SEC
            } else {
                self.nanos
            },
        }
    }
}

/// A point in time in UTC, to the nanosecond.
#[derive(Clone, Copy, Debug, PartialEq, Eq)]
pub struct Timestamp {
    secs: i64,
    nanos: u32,
}

impl View for Timestamp {
    type V = Instant;

    closed spec fn view(&self) -> Instant {
        Instant { secs: self.secs as int, nanos: self.nanos as int }
    }
}

impl Timestamp {
    #[verifier::type_invariant]
    spec fn inv(self) -> bool {
        self@.in_range()
    }

    /// The point `nanos` nanoseconds into the second `secs`, where the calendar has one.
    pub fn from_parts(secs: i64, nanos: u32) -> (r: Option<Timestamp>)
        ensures
            r is Some <==> (Instant { secs: secs as int, nanos: nanos as int }).in_range(),
            r matches Some(t) ==> t@ == (Instant { secs: secs as int, nanos: nanos as int }),
    {
        if secs < MIN_SECS || secs > MAX_SECS {
            return None;
        }
        if nanos < NANOS_PER_SEC {
            return Some(Timestamp { secs, nanos });
        }
        if nanos < 2 * NANOS_PER_SEC && second_of_minute(secs) == 59 {
            Some(Timestamp { secs, nanos })
        } else {
            None
        }
    }

    /// Whole seconds since 1970-01-01T00:00:00Z.
    pub fn secs(&self) -> (r: i64)
        ensures
            r == self@.secs,
            self@.in_range(),
    {
        proof {
            use_type_invariant(&*self);
        }
        self.secs
    }

    /// Nanoseconds into the second.
    pub fn nanos(&self) -> (r: u32)
        ensures
            r == self@.nanos,
            self@.in_range(),
    {
        proof {
            use_type_invariant(&*self);
        }
        self.nanos
    }

    /// Whether this point comes strictly before `other`.
    pub fn is_before(&self, other: &Timestamp) -> (r: bool)
        ensures
            r == self@.before(other@),
    {
        self.secs < other.secs || (self.secs == other.secs && self.nanos < other.nanos)
    }

    /// The first instant of this point's minute.
    pub fn minute_start(&self) -> (r: Timestamp)
        ensures
            r@ == self@.minute_start(),
    {
        proof {
            use_type_invariant(&*self);
        }
        Timestamp { secs: self.secs - second_of_minute(self.secs), nanos: 0 }
    }

    /// The nanoseconds from `earlier` to this point, negative if this point comes first.
    pub fn nanos_since(&self, earlier: &Timestamp) -> (r: i128)
        ensures
            r == self@.since(earlier@),
            -20_000_000_000_000 * NANOS_PER_SEC < r < 20_000_000_000_000 * NANOS_PER_SEC,
    {
        proof {
            use_type_invariant(&*self);
            use_type_invariant(&*earlier);
        }
        let mine: i64 = second_of_day(self.secs);
        let theirs: i64 = second_of_day(earlier.secs);
        let step: i64 = if mine > theirs && earlier.nanos >= NANOS_PER_SEC {
            1
        } else if mine < theirs && self.nanos >= NANOS_PER_SEC {
            -1
        } else {
            0
        };
        let secs: i64 = self.secs - earlier.secs + step;
        secs as i128 * 1_000_000_000 + (self.nanos as i128 - earlier.nanos as i128)
    }

    /// This point moved forward by `seconds`.
    pub fn plus_seconds(&self, seconds: u32) -> (r: Timestamp)
        requires
            seconds > 0,
            self@.secs + seconds <= MAX_SECS,
        ensures
            r@ == self@.plus(seconds as int),
            self@.in_range(),
    {
        proof {
            use_type_invariant(&*self);
        }
        let nanos: u32 = if self.nanos >= NANOS_PER_SEC {
            self.nanos - NANOS_PER_SEC
        } else {
            self.nanos
        };
        Timestamp { secs: self.secs + seconds as i64, nanos }
    }
}

/// The second of the minute that holds the second `secs`.
fn second_of_minute(secs: i64) -> (r: i64)
    requires
        MIN_SECS <= secs <= MAX_SECS,
    ensures
        r == secs % 60,
{
    ((secs - MIN_SECS) as u64 % 60) as i64
}

/// The second of the day that holds the second `secs`.
fn second_of_day(secs: i64) -> (r: i64)
    requires
        MIN_SECS <= secs <= MAX_SECS,
    ensures
        r == secs % 86_400,
{
    ((secs - MIN_SECS) as u64 % 86_400) as i64
}

/// A length of time, to the nanosecond.
#[derive(Clone, Copy, Debug, PartialEq, Eq)]
pub struct Span {
    secs: u64,
    nanos: u32,
}

impl View for Span {
    /// Nanoseconds.
    type V = nat;

    closed spec fn view(&self) -> nat {
        (self.secs * NANOS_PER_SEC + self.nanos) as nat
    }
}

impl Span {
    #[verifier::type_invariant]
    spec fn inv(self) -> bool {
        self.nanos < NANOS_PER_SEC
    }

    /// A span of whole seconds.
    pub fn from_secs(secs: u64) -> (r: Span)
        ensures
            r@ == secs * NANOS_PER_SEC,
    {
        Span { secs, nanos: 0 }
    }

    /// The span of `secs` seconds and `nanos` nanoseconds, where `nanos` is below a second.
    pub fn from_parts(secs: u64, nanos: u32) -> (r: Option<Span>)
        ensures
            r is Some <==> nanos < NANOS_PER_SEC,
            r matches Some(s) ==> s@ == secs * NANOS_PER_SEC + nanos,
    {
        if nanos < NANOS_PER_SEC {
            Some(Span { secs, nanos })
        } else {
            None
        }
    }

    /// Whole seconds.
    pub fn secs(&self) -> (r: u64)
        ensures
            r == self@ / NANOS_PER_SEC as nat,
    {
        proof {
            use_type_invariant(&*self);
            assert(self@ / 1_000_000_000nat == self.secs);
        }
        self.secs
    }

    /// Nanoseconds past the last whole second.
    pub fn nanos(&self) -> (r: u32)
        ensures
            r == self@ % NANOS_PER_SEC as nat,
    {
        proof {
            use_type_invariant(&*self);
        }
        self.nanos
    }
}

/// Instants are totally ordered.
pub proof fn law_before_is_a_total_order(a: Instant, b: Instant, c: Instant)
    ensures
        !a.before(a),
        a.before(b) && b.before(c) ==> a.before(c),
        a.before(b) || b.before(a) || a == b,
        !(a.before(b) && b.before(a)),
{
}

/// A minute's start is an instant of the calendar, does not come after the minute's other
/// instants, and is the start of its own minute.
pub proof fn law_minute_start(t: Instant)
    requires
        t.in_range(),
    ensures
        t.minute_start().in_range(),
        !t.before(t.minute_start()),
        t.before(t.minute_start().plus(60)),
        t.minute_start().minute_start() == t.minute_start(),
{
}

/// The time from one instant to another is the opposite of the time back.
pub proof fn law_since_is_antisymmetric(a: Instant, b: Instant)
    ensures
        a.since(b) == -b.since(a),
{
}

/// Outside leap seconds, moving forward by some seconds takes just that long.
pub proof fn law_plus_takes_that_long(t: Instant, seconds: int)
    requires
        t.in_range(),
        !t.in_leap_second(),
        seconds > 0,
    ensures
        t.before(t.plus(seconds)),
        t.plus(seconds).since(t) == seconds * NANOS_PER_SEC,
{
}

/// Instants are ordered by their seconds, and within a second by their nanoseconds.
pub proof fn law_before_goes_by_time(a: Instant, b: Instant)
    ensures
        a.secs < b.secs ==> a.before(b) && !b.before(a),
        a.secs == b.secs ==> (a.before(b) <==> a.nanos < b.nanos),
{
}

/// Every second of the calendar has all its nanoseconds, and the last second of every minute a
/// leap second; there are no others.
pub proof fn law_calendar(secs: int, nanos: int)
    ensures
        -8_334_601_228_800 <= secs <= 8_210_266_876_799 && 0 <= nanos < 1_000_000_000 ==> (Instant {
            secs,
            nanos,
        }).in_range(),
        -8_334_601_228_800 <= secs <= 8_210_266_876_799 && 1_000_000_000 <= nanos < 2_000_000_000
            ==> ((Instant { secs, nanos }).in_range() <==> secs % 60 == 59),
        secs < -8_334_601_228_800 || secs > 8_210_266_876_799 || nanos < 0 || nanos
            >= 2_000_000_000 ==> !(Instant { secs, nanos }).in_range(),
{
}

/// A minute starts at a multiple of sixty seconds, and its instants are those of the sixty
/// seconds from there.
pub proof fn law_minutes(t: Instant, u: Instant)
    ensures
        t.minute_start().secs % 60 == 0,
        t.minute_start().nanos == 0,
        t.minute_start().secs <= t.secs < t.minute_start().secs + 60,
        t.minute_start() == u.minute_start() <==> t.secs / 60 == u.secs / 60,
{
}

/// Outside leap seconds the time between two instants is the difference of their seconds and of
/// their nanoseconds, and goes with their order.
pub proof fn law_time_between(a: Instant, b: Instant)
    requires
        a.in_range(),
        b.in_range(),
        a.nanos < 1_000_000_000,
        b.nanos < 1_000_000_000,
    ensures
        a.since(b) == (a.secs - b.secs) * 1_000_000_000 + a.nanos - b.nanos,
        a.before(b) <==> a.since(b) < 0,
        a == b <==> a.since(b) == 0,
{
}

/// From inside a leap second, the rest of it counts towards a later time of day, and towards no
/// other.
pub proof fn law_time_since_leap_second(a: Instant, leap: Instant)
    requires
        a.nanos < 1_000_000_000,
        leap.nanos >= 1_000_000_000,
    ensures
        a.since(leap) == (a.secs - leap.secs) * 1_000_000_000 + a.nanos - leap.nanos + if a.secs
            % 86_400 > leap.secs % 86_400 {
            1_000_000_000int
        } else {
            0
        },
{
}

/// Moving forward adds the seconds and nothing else. Out of a leap second, the nanoseconds into
/// it are kept.
pub proof fn law_moving_forward(t: Instant, seconds: int, more: int)
    requires
        t.in_range(),
        seconds > 0,
        more > 0,
    ensures
        t.plus(seconds).secs == t.secs + seconds,
        t.nanos < 1_000_000_000 ==> t.plus(seconds).nanos == t.nanos,
        t.nanos >= 1_000_000_000 ==> t.plus(seconds).nanos == t.nanos - 1_000_000_000,
        t.plus(seconds).plus(more) == t.plus(seconds + more),
{
}

} // verus!
