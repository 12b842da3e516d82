//! Recurrence specifiers and the arithmetic of the next occurrence.
//!
//! A reminder repeats daily, weekly, or every given number of minutes. The
//! specifier arrives as text; [`Recurrence::parse`] reads it, and
//! [`Recurrence::next_after`] finds the first occurrence that lies strictly
//! after a given instant, skipping every occurrence that was missed.

use crate::text::{
    chars_of, decimal_i64, ends_with_keyword, is_keyword, parse_decimal_i64, spells_keyword, trim,
    trim_bounds,
};
use crate::time::Timestamp;
use vstd::arithmetic::div_mod::*;
use vstd::arithmetic::mul::*;
use vstd::prelude::*;

verus! {

/// How often a reminder repeats.
#[derive(Clone, Copy, Debug, PartialEq, Eq, Structural)]
pub enum Recurrence {
    /// Every 24 hours.
    Daily,
    /// Every 7 days.
    Weekly,
    /// Every given number of minutes; only a positive number repeats.
    EveryMinutes(i64),
}

/// Why a text is no recurrence specifier.
#[derive(Clone, Copy, Debug, PartialEq, Eq, Structural)]
pub enum RecurrenceError {
    /// The text spells a number of minutes that is zero or negative.
    NotPositive,
    /// The text is neither a keyword nor a number of minutes.
    Malformed,
}

/// The recurrence that a number of minutes stands for, where it is positive.
pub open spec fn minutes_recurrence(minutes: i64) -> Result<Recurrence, RecurrenceError> {
    if minutes > 0 {
        Ok(Recurrence::EveryMinutes(minutes))
    } else {
        Err(RecurrenceError::NotPositive)
    }
}

/// The meaning of a recurrence specifier.
///
/// `daily` and `weekly` are keywords, in any case. A signed decimal number
/// is a number of minutes. So is a number that is followed by the keyword
/// `minutes`, in any case, with any white space around the number. A
/// number has to fit in 64 signed bits and to be positive.
pub open spec fn recurrence_of(s: Seq<char>) -> Result<Recurrence, RecurrenceError> {
    if is_keyword(s, "daily"@) {
        Ok(Recurrence::Daily)
    } else if is_keyword(s, "weekly"@) {
        Ok(Recurrence::Weekly)
    } else if decimal_i64(s) is Some {
        minutes_recurrence(decimal_i64(s)->0)
    } else if ends_with_keyword(s, "minutes"@) {
        match decimal_i64(trim(s.subrange(0, s.len() - "minutes"@.len()))) {
            Some(minutes) => minutes_recurrence(minutes),
            None => Err(RecurrenceError::Malformed),
        }
    } else {
        Err(RecurrenceError::Malformed)
    }
}

/// The least number of whole seconds that `due` has to move forward to lie
/// strictly after `now`.
pub open spec fn seconds_to_pass(due: Timestamp, now: Timestamp) -> int {
    if due.nanos > now.nanos {
        now.secs - due.secs
    } else {
        now.secs - due.secs + 1
    }
}

/// The number of periods of `interval` seconds that lead from `due` to its
/// first occurrence strictly after `now`: at least one.
pub open spec fn periods_to_skip(due: Timestamp, now: Timestamp, interval: int) -> int {
    let gap = seconds_to_pass(due, now);
    if gap <= interval {
        1
    } else {
        (gap + interval - 1) / interval
    }
}

/// The instant `nanos` nanoseconds after the whole second `secs` lies
/// strictly later than `other`.
pub open spec fn lies_after(secs: int, nanos: u32, other: Timestamp) -> bool {
    secs > other.secs || (secs == other.secs && nanos > other.nanos)
}

impl Recurrence {
    /// The length of one period in seconds.
    pub open spec fn interval_seconds(self) -> int {
        match self {
            Recurrence::Daily => 86_400,
            Recurrence::Weekly => 604_800,
            Recurrence::EveryMinutes(minutes) => 60 * minutes,
        }
    }

    /// The first occurrence strictly after `now` of a reminder that was due
    /// at `due`: `due` moved forward by the least positive number of whole
    /// periods that brings it past `now`.
    ///
    /// `None` where the period is not positive, and where the occurrence lies
    /// beyond the last second that a [`Timestamp`] can hold.
    pub open spec fn next_occurrence(self, due: Timestamp, now: Timestamp) -> Option<Timestamp> {
        let interval = self.interval_seconds();
        let secs = due.secs + periods_to_skip(due, now, interval) * interval;
        if interval > 0 && secs <= i64::MAX {
            Some(Timestamp { secs: secs as i64, nanos: due.nanos })
        } else {
            None
        }
    }

    /// Reads a recurrence specifier.
    pub fn parse(text: &str) -> (r: Result<Recurrence, RecurrenceError>)
        ensures
            r == recurrence_of(text@),
    {
        let chars = chars_of(text);
        let len = chars.len();
        assert(chars@.subrange(0, len as int) == text@);
        if spells_keyword(&chars, 0, len, "daily") {
            return Ok(Recurrence::Daily);
        }
        if spells_keyword(&chars, 0, len, "weekly") {
            return Ok(Recurrence::Weekly);
        }
        if let Some(minutes) = parse_decimal_i64(&chars, 0, len) {
            return Recurrence::from_minutes(minutes);
        }
        let suffix = chars_of("minutes");
        if suffix.len() > len || !spells_keyword(&chars, len - suffix.len(), len, "minutes") {
            return Err(RecurrenceError::Malformed);
        }
        let (lo, hi) = trim_bounds(&chars, 0, len - suffix.len());
        match parse_decimal_i64(&chars, lo, hi) {
            Some(minutes) => Recurrence::from_minutes(minutes),
            None => Err(RecurrenceError::Malformed),
        }
    }

    /// Makes a number of minutes a recurrence, where the number is positive.
    pub fn from_minutes(minutes: i64) -> (r: Result<Recurrence, RecurrenceError>)
        ensures
            r == minutes_recurrence(minutes),
    {
        if minutes > 0 {
            Ok(Recurrence::EveryMinutes(minutes))
        } else {
            Err(RecurrenceError::NotPositive)
        }
    }

    /// Finds the first occurrence strictly after `now` of a reminder that
    /// was due at `due`.
    pub fn next_after(&self, due: &Timestamp, now: &Timestamp) -> (next: Option<Timestamp>)
        ensures
            next == self.next_occurrence(*due, *now),
    {
        let interval: i128 = match self {
            Recurrence::Daily => 86_400,
            Recurrence::Weekly => 604_800,
            Recurrence::EveryMinutes(minutes) => {
                if *minutes <= 0 {
                    return None;
                }
                60 * (*minutes as i128)
            },
        };
        let base: i128 = now.secs as i128 - due.secs as i128;
        let gap: i128 = if due.nanos > now.nanos {
            base
        } else {
            base + 1
        };
        let periods: i128 = if gap <= interval {
            1
        } else {
            let rounded: i128 = gap + interval - 1;
            proof {
                lemma_whole_periods(rounded as int, interval as int);
            }
            rounded / interval
        };
        assert(periods * interval == interval || 0 < periods * interval <= gap + interval - 1) by {
            if gap <= interval {
                assert(periods * interval == interval) by (nonlinear_arith)
                    requires
                        periods == 1,
                ;
            }
        }
        let secs: i128 = due.secs as i128 + periods * interval;
        if secs <= i64::MAX as i128 {
            Some(Timestamp { secs: secs as i64, nanos: due.nanos })
        } else {
            None
        }
    }
}

/// Dividing `x` by `d` and multiplying back loses less than `d`; where `x`
/// is at least `d`, the quotient is at least one.
pub proof fn lemma_whole_periods(x: int, d: int)
    requires
        0 < d <= x,
    ensures
        x / d >= 1,
        x - d < (x / d) * d <= x,
{
    lemma_fundamental_div_mod(x, d);
    lemma_mod_bound(x, d);
    lemma_mul_is_commutative(d, x / d);
    assert(x / d >= 1) by (nonlinear_arith)
        requires
            (x / d) * d > x - d,
            x >= d,
            d > 0,
    ;
}

/// The next occurrence lies strictly after `now`, one or more whole periods
/// after `due`, and no smaller positive number of periods reaches past `now`.
pub proof fn lemma_periods_to_skip_is_least(due: Timestamp, now: Timestamp, interval: int)
    requires
        interval > 0,
    ensures
        periods_to_skip(due, now, interval) >= 1,
        lies_after(due.secs + periods_to_skip(due, now, interval) * interval, due.nanos, now),
        forall|k: int|
            1 <= k < periods_to_skip(due, now, interval) ==> !lies_after(
                due.secs + #[trigger] (k * interval),
                due.nanos,
                now,
            ),
{
    let gap = seconds_to_pass(due, now);
    let periods = periods_to_skip(due, now, interval);
    if gap > interval {
        lemma_whole_periods(gap + interval - 1, interval);
        assert forall|k: int| 1 <= k < periods implies !lies_after(
            due.secs + #[trigger] (k * interval),
            due.nanos,
            now,
        ) by {
            assert(k * interval < gap) by (nonlinear_arith)
                requires
                    k <= periods - 1,
                    periods * interval < gap + interval,
                    interval > 0,
            ;
        }
    } else {
        assert(periods * interval == interval);
    }
}

} // verus!
