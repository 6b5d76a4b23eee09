//! Which texts can be parsed as a duration without overflow.

use crate::instant::NANOS_PER_SEC;
use crate::text::{chars_of, is_white_space, white_space};
use vstd::prelude::*;

verus! {

/// The nanoseconds in 2^64 seconds, which is where durations overflow.
pub const LIMIT_NANOS: u128 = 18_446_744_073_709_551_616_000_000_000;

/// The nanoseconds in one minute.
pub const MINUTE_NANOS: u64 = 60_000_000_000;

/// The nanoseconds that a unit stands for, told by the letters that tell its name from those of
/// other units. Letters that begin no unit count for nothing.
pub open spec fn unit_nanos(unit: Seq<char>) -> u64 {
    if unit.len() == 0 {
        0
    } else if unit[0] == 'n' {
        1
    } else if unit[0] == 'u' || unit[0] == 'µ' {
        1_000
    } else if unit[0] == 's' {
        1_000_000_000
    } else if unit[0] == 'h' {
        3_600_000_000_000
    } else if unit[0] == 'd' {
        86_400_000_000_000
    } else if unit[0] == 'w' {
        604_800_000_000_000
    } else if unit[0] == 'M' {
        2_630_016_000_000_000
    } else if unit[0] == 'y' {
        31_557_600_000_000_000
    } else if unit[0] == 'm' {
        if unit.len() == 1 {
            MINUTE_NANOS
        } else if unit[1] == 's' {
            1_000_000
        } else if unit[1] == 'o' {
            2_630_016_000_000_000
        } else if unit.len() > 2 && unit[2] == 'l' {
            1_000_000
        } else {
            MINUTE_NANOS
        }
    } else {
        0
    }
}

/// The nanoseconds that a unit stands for.
fn nanos_of_unit(unit: &Vec<char>) -> (r: u64)
    ensures
        r == unit_nanos(unit@),
{
    if unit.len() == 0 {
        return 0;
    }
    match unit[0] {
        'n' => 1,
        'u' => 1_000,
        'µ' => 1_000,
        's' => 1_000_000_000,
        'h' => 3_600_000_000_000,
        'd' => 86_400_000_000_000,
        'w' => 604_800_000_000_000,
        'M' => 2_630_016_000_000_000,
        'y' => 31_557_600_000_000_000,
        'm' => if unit.len() == 1 {
            MINUTE_NANOS
        } else if unit[1] == 's' {
            1_000_000
        } else if unit[1] == 'o' {
            2_630_016_000_000_000
        } else if unit.len() > 2 && unit[2] == 'l' {
            1_000_000
        } else {
            MINUTE_NANOS
        },
        _ => 0,
    }
}

/// How far a text has been read as a duration.
pub struct Reading {
    /// The nanoseconds that the terms so far add up to.
    pub total: nat,
    /// A term has brought the sum to the limit in the way that overflows.
    pub overflows: bool,
    /// The text has been refused, or overflows: nothing more is read.
    pub stopped: bool,
    /// The whole number of the term that is being read.
    pub number: nat,
    /// What follows that number's decimal point, if it has one, and the power of ten to divide
    /// it by.
    pub fraction: Option<(nat, nat)>,
    /// The unit of the term that is being read.
    pub unit: Seq<char>,
}

impl Reading {
    /// Nothing has been read.
    pub open spec fn start() -> Reading {
        Reading {
            total: 0,
            overflows: false,
            stopped: false,
            number: 0,
            fraction: None,
            unit: Seq::empty(),
        }
    }

    /// Nothing more is read.
    pub open spec fn refused(self) -> Reading {
        Reading { stopped: true, ..self }
    }

    /// The term that is being read has ended. First its whole number is added to the sum, and
    /// then what follows the decimal point. Whole seconds that reach the limit are refused.
    /// Nanoseconds that fill up the last second before it overflow.
    pub open spec fn closed(self) -> Reading {
        let nanos = unit_nanos(self.unit) as nat;
        let (part, scale) = match self.fraction {
            Some(fraction) => fraction,
            None => (0nat, 1nat),
        };
        let whole = self.total + self.number * nanos;
        let all = whole + part * nanos / scale;
        let exact = part * nanos % scale == 0;
        let overflows = (nanos < NANOS_PER_SEC && whole == LIMIT_NANOS && fills_last_second(
            self.total,
        )) || (exact && self.fraction is Some && nanos <= MINUTE_NANOS && all == LIMIT_NANOS
            && whole < LIMIT_NANOS && fills_last_second(whole));
        if self.stopped {
            self
        } else {
            Reading {
                total: all,
                overflows,
                stopped: overflows || nanos == 0 || !exact || all >= LIMIT_NANOS,
                number: 0,
                fraction: None,
                unit: Seq::empty(),
            }
        }
    }

    /// One more character has been read. White space does not end a number, but ends a unit; so
    /// does a digit.
    pub open spec fn after(self, c: char) -> Reading {
        let digit = (c as u32 - '0' as u32) as nat;
        if self.stopped {
            self
        } else if '0' <= c <= '9' {
            if self.unit.len() > 0 {
                self.closed().with_digit(digit)
            } else {
                self.with_digit(digit)
            }
        } else if white_space(c) {
            if self.unit.len() > 0 {
                self.closed()
            } else {
                self
            }
        } else if c == '.' {
            if self.unit.len() > 0 || self.fraction is Some {
                self.refused()
            } else {
                Reading { fraction: Some((0nat, 1nat)), ..self }
            }
        } else {
            Reading { unit: self.unit.push(c), ..self }
        }
    }

    /// One more digit of a number has been read. Numbers of more than 64 bits are refused.
    pub open spec fn with_digit(self, digit: nat) -> Reading {
        if self.stopped {
            self
        } else {
            match self.fraction {
                Some((part, scale)) => if scale * 10 > u64::MAX {
                    self.refused()
                } else {
                    Reading { fraction: Some((part * 10 + digit, scale * 10)), ..self }
                },
                None => if self.number * 10 + digit > u64::MAX {
                    self.refused()
                } else {
                    Reading { number: self.number * 10 + digit, ..self }
                },
            }
        }
    }
}

/// The whole seconds of a sum are as many as a duration can hold.
pub open spec fn fills_last_second(total: nat) -> bool {
    total >= LIMIT_NANOS - NANOS_PER_SEC
}

/// How far a text has been read as a duration at its end.
pub open spec fn reading(s: Seq<char>) -> Reading
    decreases s.len(),
{
    if s.len() == 0 {
        Reading::start()
    } else {
        reading(s.drop_last()).after(s.last())
    }
}

/// The text can be parsed as a duration without overflow.
///
/// `humantime::parse_duration` adds up seconds and nanoseconds term by term. It refuses a sum
/// of 2^64 seconds or more, except for one that is made of 2^64 - 1 seconds and of exactly 10^9
/// nanoseconds: that sum overflows with a panic. Texts that it refuses earlier for another
/// reason are in range as far as they stop the reading here too.
pub open spec fn duration_text_in_range(text: Seq<char>) -> bool {
    !reading(text).closed().overflows
}

/// The character belongs to the name of a unit, if to anything.
pub open spec fn unit_letter(c: char) -> bool {
    !('0' <= c <= '9') && !white_space(c) && c != '.'
}

/// The text is one whole number followed by one unit, as far as it is a duration at all.
pub open spec fn one_whole_term(s: Seq<char>) -> bool {
    &&& !s.contains('.')
    &&& forall|i: int, j: int|
        0 <= i < j < s.len() && unit_letter(#[trigger] s[i]) ==> unit_letter(#[trigger] s[j])
}

/// While one term is being read nothing has been added up.
proof fn lemma_one_whole_term(s: Seq<char>)
    requires
        one_whole_term(s),
    ensures
        reading(s).total == 0,
        !reading(s).overflows,
        reading(s).fraction is None,
        reading(s).unit.len() > 0 ==> unit_letter(s.last()) && s.len() > 0,
    decreases s.len(),
{
    if s.len() > 0 {
        let head = s.drop_last();
        assert(one_whole_term(head)) by {
            assert forall|i: int, j: int|
                0 <= i < j < head.len() && unit_letter(#[trigger] head[i]) implies unit_letter(
                #[trigger] head[j],
            ) by {
                assert(head[i] == s[i] && head[j] == s[j]);
            }
            assert forall|i: int| 0 <= i < head.len() implies head[i] != '.' by {
                assert(s.contains(s[i]));
            }
        }
        lemma_one_whole_term(head);
        assert(s.contains(s[s.len() - 1]));
        if reading(head).unit.len() > 0 {
            assert(unit_letter(s[head.len() - 1]));
            assert(unit_letter(s[s.len() - 1]));
        }
    }
}

/// Every text of one whole number and one unit is in range, however many digits it has.
pub proof fn law_one_whole_term_is_in_range(s: Seq<char>)
    requires
        one_whole_term(s),
    ensures
        duration_text_in_range(s),
{
    lemma_one_whole_term(s);
}

/// The character is neither a decimal point nor one that a unit below the second, the minute or
/// the month begins with.
pub open spec fn coarse(c: char) -> bool {
    c != '.' && c != 'n' && c != 'u' && c != 'µ' && c != 'm'
}

/// While only whole seconds are added up, nothing overflows.
proof fn lemma_whole_seconds(s: Seq<char>)
    requires
        forall|i: int| 0 <= i < s.len() ==> coarse(#[trigger] s[i]),
    ensures
        !reading(s).overflows,
        reading(s).fraction is None,
        !reading(s).stopped ==> reading(s).total < LIMIT_NANOS,
        reading(s).unit.len() > 0 ==> coarse(reading(s).unit[0]),
    decreases s.len(),
{
    if s.len() > 0 {
        let head = s.drop_last();
        assert forall|i: int| 0 <= i < head.len() implies coarse(#[trigger] head[i]) by {
            assert(coarse(s[i]));
        }
        lemma_whole_seconds(head);
        assert(coarse(s[s.len() - 1]));
        lemma_whole_term(reading(head));
    }
}

/// A term of whole seconds does not overflow.
proof fn lemma_whole_term(r: Reading)
    requires
        !r.overflows,
        r.fraction is None,
        !r.stopped ==> r.total < LIMIT_NANOS,
        r.unit.len() > 0 ==> coarse(r.unit[0]),
    ensures
        !r.closed().overflows,
        r.closed().fraction is None,
        !r.closed().stopped ==> r.closed().total < LIMIT_NANOS,
{
    let nanos = unit_nanos(r.unit) as nat;
    if nanos == 0 {
        assert(r.number * nanos == 0) by (nonlinear_arith)
            requires
                nanos == 0,
        ;
    }
}

/// A text without decimal points, and without the letters that units below the second begin
/// with, is in range, whatever its numbers add up to: a sum that is too large is refused.
pub proof fn law_whole_seconds_are_in_range(s: Seq<char>)
    requires
        forall|i: int|
            0 <= i < s.len() ==> #[trigger] s[i] != '.' && s[i] != 'n' && s[i] != 'u' && s[i] != 'µ'
                && s[i] != 'm',
    ensures
        duration_text_in_range(s),
{
    assert forall|i: int| 0 <= i < s.len() implies coarse(#[trigger] s[i]) by {}
    lemma_whole_seconds(s);
    lemma_whole_term(reading(s));
}

/// A [`Reading`] in machine numbers.
struct Progress {
    total: u128,
    overflows: bool,
    stopped: bool,
    number: u64,
    fraction: Option<(u64, u64)>,
    unit: Vec<char>,
}

impl View for Progress {
    type V = Reading;

    closed spec fn view(&self) -> Reading {
        Reading {
            total: self.total as nat,
            overflows: self.overflows,
            stopped: self.stopped,
            number: self.number as nat,
            fraction: match self.fraction {
                Some((part, scale)) => Some((part as nat, scale as nat)),
                None => None,
            },
            unit: self.unit@,
        }
    }
}

impl Progress {
    /// Reading can go on: the sum is below the limit, and what follows a decimal point is less
    /// than one.
    spec fn inv(self) -> bool {
        &&& !self.stopped ==> self.total < LIMIT_NANOS
        &&& self.fraction matches Some((part, scale)) ==> part < scale
    }

    /// Ends the term that is being read.
    fn close(&mut self)
        requires
            old(self).inv(),
        ensures
            final(self).inv(),
            final(self)@ == old(self)@.closed(),
    {
        if self.stopped {
            return;
        }
        let nanos: u64 = nanos_of_unit(&self.unit);
        let (part, scale): (u64, u64) = match self.fraction {
            Some(fraction) => fraction,
            None => (0, 1),
        };
        assert(self.number * nanos <= u64::MAX * 31_557_600_000_000_000) by (nonlinear_arith)
            requires
                self.number <= u64::MAX,
                nanos <= 31_557_600_000_000_000,
        ;
        assert(part * nanos <= u64::MAX * 31_557_600_000_000_000) by (nonlinear_arith)
            requires
                part <= u64::MAX,
                nanos <= 31_557_600_000_000_000,
        ;
        let whole: u128 = self.total + self.number as u128 * nanos as u128;
        let product: u128 = part as u128 * nanos as u128;
        let quotient: u128 = product / scale as u128;
        let exact = product % scale as u128 == 0;
        assert(quotient <= product) by (nonlinear_arith)
            requires
                quotient == product / (scale as u128),
                scale >= 1,
        ;
        let all: u128 = whole + quotient;
        let last_second: u128 = LIMIT_NANOS - NANOS_PER_SEC as u128;
        let overflows = (nanos < NANOS_PER_SEC as u64 && whole == LIMIT_NANOS && self.total
            >= last_second) || (exact && self.fraction.is_some() && nanos <= MINUTE_NANOS && all
            == LIMIT_NANOS && whole < LIMIT_NANOS && whole >= last_second);
        self.total = all;
        self.overflows = overflows;
        self.stopped = overflows || nanos == 0 || !exact || all >= LIMIT_NANOS;
        self.number = 0;
        self.fraction = None;
        self.unit = Vec::new();
    }

    /// Reads one more character.
    fn read(&mut self, c: char)
        requires
            old(self).inv(),
        ensures
            final(self).inv(),
            final(self)@ == old(self)@.after(c),
    {
        if self.stopped {
            return;
        }
        if '0' <= c && c <= '9' {
            let digit: u64 = (c as u32 - '0' as u32) as u64;
            if self.unit.len() > 0 {
                self.close();
            }
            self.read_digit(digit);
        } else if is_white_space(c) {
            if self.unit.len() > 0 {
                self.close();
            }
        } else if c == '.' {
            if self.unit.len() > 0 || self.fraction.is_some() {
                self.stopped = true;
            } else {
                self.fraction = Some((0, 1));
            }
        } else {
            self.unit.push(c);
        }
    }

    /// Reads one more digit of a number.
    fn read_digit(&mut self, digit: u64)
        requires
            old(self).inv(),
            digit < 10,
        ensures
            final(self).inv(),
            final(self)@ == old(self)@.with_digit(digit as nat),
    {
        if self.stopped {
            return;
        }
        match self.fraction {
            Some((part, scale)) => {
                if scale > u64::MAX / 10 {
                    self.stopped = true;
                } else {
                    self.fraction = Some((part * 10 + digit, scale * 10));
                }
            },
            None => {
                let longer: u128 = self.number as u128 * 10 + digit as u128;
                if longer > u64::MAX as u128 {
                    self.stopped = true;
                } else {
                    self.number = longer as u64;
                }
            },
        }
    }
}

/// Whether the text can be parsed as a duration without overflow.
pub fn duration_in_range(text: &str) -> (r: bool)
    ensures
        r == duration_text_in_range(text@),
{
    let chars = chars_of(text);
    let mut progress = Progress {
        total: 0,
        overflows: false,
        stopped: false,
        number: 0,
        fraction: None,
        unit: Vec::new(),
    };
    assert(progress@ == reading(text@.take(0)));
    let mut i: usize = 0;
    while i < chars.len()
        invariant
            chars@ == text@,
            i <= chars.len(),
            progress.inv(),
            progress@ == reading(text@.take(i as int)),
        decreases chars.len() - i,
    {
        proof {
            assert(text@.take(i + 1).drop_last() =~= text@.take(i as int));
        }
        progress.read(chars[i]);
        i += 1;
    }
    proof {
        assert(text@.take(chars.len() as int) =~= text@);
    }
    progress.close();
    !progress.overflows
}

} // verus!
