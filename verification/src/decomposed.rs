//! The calendar-style breakdown of a duration and the decomposer that
//! produces it from a signed count of seconds.

use vstd::prelude::*;
use crate::text::{dec_digits, pad2, pad3, push_dec, push_pad2, push_pad3, chars_to_string};

verus! {

/// Whole seconds in one minute.
pub const SECS_PER_MINUTE: u64 = 60;

/// Whole seconds in one hour.
pub const SECS_PER_HOUR: u64 = 3600;

/// Whole seconds in one day.
pub const SECS_PER_DAY: u64 = 86400;

/// Whole seconds in one year; a year is a fixed 365-day unit.
pub const SECS_PER_YEAR: u64 = 31536000;

/// Nanoseconds in one second.
pub const NANOS_PER_SEC: u32 = 1000000000;

/// A value that can report itself as a signed duration measured in seconds,
/// with the sub-second remainder kept in nanoseconds.
pub trait Decompose {
    type Error;

    /// Break the value into a calendar-style breakdown, or report that it
    /// cannot be expressed as a signed count of seconds.
    fn decompose(self) -> (r: Result<DecomposedTime, Self::Error>)
        ensures
            r matches Ok(t) ==> t.wf(),
    ;
}

/// A duration broken into years, days, hours, minutes, seconds and base-1000
/// sub-second fields, together with the direction of the original duration.
#[derive(Clone, Copy, Debug, PartialEq, Eq, Structural)]
pub struct DecomposedTime {
    sign_num: i8,
    years: u64,
    days: u32,
    hours: u32,
    minutes: u32,
    seconds: u32,
    milliseconds: u32,
    microseconds: u32,
    nanoseconds: u32,
}

impl DecomposedTime {
    /// The recorded direction: `1` for positive, `-1` for negative, `0` for
    /// an unsigned value.
    pub closed spec fn spec_signum(self) -> i8 {
        self.sign_num
    }

    pub closed spec fn spec_years(self) -> u64 {
        self.years
    }

    pub closed spec fn spec_days(self) -> u32 {
        self.days
    }

    pub closed spec fn spec_hours(self) -> u32 {
        self.hours
    }

    pub closed spec fn spec_minutes(self) -> u32 {
        self.minutes
    }

    pub closed spec fn spec_seconds(self) -> u32 {
        self.seconds
    }

    pub closed spec fn spec_milliseconds(self) -> u32 {
        self.milliseconds
    }

    pub closed spec fn spec_microseconds(self) -> u32 {
        self.microseconds
    }

    pub closed spec fn spec_nanoseconds(self) -> u32 {
        self.nanoseconds
    }

    /// The sub-second remainder, folded back into one nanosecond count.
    pub open spec fn spec_frac_nanos(self) -> int {
        self.spec_milliseconds() * 1000000 + self.spec_microseconds() * 1000
            + self.spec_nanoseconds()
    }

    /// The whole-second magnitude, folded back into one second count.
    pub open spec fn spec_whole_seconds(self) -> int {
        self.spec_years() * 31536000 + self.spec_days() * 86400 + self.spec_hours() * 3600
            + self.spec_minutes() * 60 + self.spec_seconds()
    }

    /// Every field is within its range: days below 365, hours below 24,
    /// minutes and seconds below 60, each sub-second field below 1000, and
    /// the sign is one of `-1`, `0`, `1`.
    pub open spec fn wf(self) -> bool {
        &&& (self.spec_signum() == 1 || self.spec_signum() == 0 || self.spec_signum() == -1)
        &&& self.spec_days() < 365
        &&& self.spec_hours() < 24
        &&& self.spec_minutes() < 60
        &&& self.spec_seconds() < 60
        &&& self.spec_milliseconds() < 1000
        &&& self.spec_microseconds() < 1000
        &&& self.spec_nanoseconds() < 1000
    }
    /// Build a breakdown from already-split fields. The sub-second remainder
    /// is given as one nanosecond count and is split into its base-1000
    /// fields here. A positive direction is recorded as `1`; any other is
    /// recorded as the unsigned state `0`.
    pub fn new(
        years: u64,
        days: u32,
        hours: u32,
        minutes: u32,
        seconds: u32,
        fractional_nanoseconds: u32,
        is_positive: bool,
    ) -> (r: DecomposedTime)
        requires
            days < 365,
            hours < 24,
            minutes < 60,
            seconds < 60,
            fractional_nanoseconds < NANOS_PER_SEC,
        ensures
            r.wf(),
            r.spec_years() == years,
            r.spec_days() == days,
            r.spec_hours() == hours,
            r.spec_minutes() == minutes,
            r.spec_seconds() == seconds,
            r.spec_frac_nanos() == fractional_nanoseconds,
            r.spec_milliseconds() == fractional_nanoseconds / 1000000,
            r.spec_microseconds() == (fractional_nanoseconds / 1000) % 1000,
            r.spec_nanoseconds() == fractional_nanoseconds % 1000,
            r.spec_signum() == (if is_positive { 1i8 } else { 0i8 }),
    {
        let sign_num: i8 = if is_positive { 1 } else { 0 };
        let (milliseconds, microseconds, nanoseconds) = split_subsec_nanos(
            fractional_nanoseconds,
        );
        DecomposedTime {
            sign_num,
            years,
            days,
            hours,
            minutes,
            seconds,
            milliseconds,
            microseconds,
            nanoseconds,
        }
    }

    /// The all-zero breakdown with positive direction.
    pub fn zero() -> (r: DecomposedTime)
        ensures
            r.wf(),
            r.spec_signum() == 1,
            r.spec_years() == 0,
            r.spec_days() == 0,
            r.spec_hours() == 0,
            r.spec_minutes() == 0,
            r.spec_seconds() == 0,
            r.spec_milliseconds() == 0,
            r.spec_microseconds() == 0,
            r.spec_nanoseconds() == 0,
    {
        DecomposedTime {
            sign_num: 1,
            years: 0,
            days: 0,
            hours: 0,
            minutes: 0,
            seconds: 0,
            milliseconds: 0,
            microseconds: 0,
            nanoseconds: 0,
        }
    }

    pub fn years(&self) -> (r: u64)
        ensures
            r == self.spec_years(),
    {
        self.years
    }

    pub fn days(&self) -> (r: u32)
        ensures
            r == self.spec_days(),
    {
        self.days
    }

    pub fn hours(&self) -> (r: u32)
        ensures
            r == self.spec_hours(),
    {
        self.hours
    }

    pub fn minutes(&self) -> (r: u32)
        ensures
            r == self.spec_minutes(),
    {
        self.minutes
    }

    pub fn seconds(&self) -> (r: u32)
        ensures
            r == self.spec_seconds(),
    {
        self.seconds
    }

    pub fn milliseconds(&self) -> (r: u32)
        ensures
            r == self.spec_milliseconds(),
    {
        self.milliseconds
    }

    pub fn microseconds(&self) -> (r: u32)
        ensures
            r == self.spec_microseconds(),
    {
        self.microseconds
    }

    pub fn nanoseconds(&self) -> (r: u32)
        ensures
            r == self.spec_nanoseconds(),
    {
        self.nanoseconds
    }

    /// The sub-second remainder, folded back into one nanosecond count.
    pub fn fractional_nanoseconds(&self) -> (r: u32)
        requires
            self.wf(),
        ensures
            r == self.spec_frac_nanos(),
    {
        self.milliseconds * 1000000 + self.microseconds * 1000 + self.nanoseconds
    }

    /// Replace the year count; every other field keeps its value.
    pub fn with_years(self, years: u64) -> (r: DecomposedTime)
        ensures
            r.spec_years() == years,
            r.spec_signum() == self.spec_signum(),
            r.spec_days() == self.spec_days(),
            r.spec_hours() == self.spec_hours(),
            r.spec_minutes() == self.spec_minutes(),
            r.spec_seconds() == self.spec_seconds(),
            r.spec_milliseconds() == self.spec_milliseconds(),
            r.spec_microseconds() == self.spec_microseconds(),
            r.spec_nanoseconds() == self.spec_nanoseconds(),
            self.wf() ==> r.wf(),
    {
        DecomposedTime { years, ..self }
    }

    /// Replace the day count; every other field keeps its value.
    pub fn with_days(self, days: u32) -> (r: DecomposedTime)
        requires
            days < 365,
        ensures
            r.spec_days() == days,
            r.spec_signum() == self.spec_signum(),
            r.spec_years() == self.spec_years(),
            r.spec_hours() == self.spec_hours(),
            r.spec_minutes() == self.spec_minutes(),
            r.spec_seconds() == self.spec_seconds(),
            r.spec_milliseconds() == self.spec_milliseconds(),
            r.spec_microseconds() == self.spec_microseconds(),
            r.spec_nanoseconds() == self.spec_nanoseconds(),
            self.wf() ==> r.wf(),
    {
        DecomposedTime { days, ..self }
    }

    /// Replace the hour count; every other field keeps its value.
    pub fn with_hours(self, hours: u32) -> (r: DecomposedTime)
        requires
            hours < 24,
        ensures
            r.spec_hours() == hours,
            r.spec_signum() == self.spec_signum(),
            r.spec_years() == self.spec_years(),
            r.spec_days() == self.spec_days(),
            r.spec_minutes() == self.spec_minutes(),
            r.spec_seconds() == self.spec_seconds(),
            r.spec_milliseconds() == self.spec_milliseconds(),
            r.spec_microseconds() == self.spec_microseconds(),
            r.spec_nanoseconds() == self.spec_nanoseconds(),
            self.wf() ==> r.wf(),
    {
        DecomposedTime { hours, ..self }
    }

    /// Replace the minute count; every other field keeps its value.
    pub fn with_minutes(self, mins: u32) -> (r: DecomposedTime)
        requires
            mins < 60,
        ensures
            r.spec_minutes() == mins,
            r.spec_signum() == self.spec_signum(),
            r.spec_years() == self.spec_years(),
            r.spec_days() == self.spec_days(),
            r.spec_hours() == self.spec_hours(),
            r.spec_seconds() == self.spec_seconds(),
            r.spec_milliseconds() == self.spec_milliseconds(),
            r.spec_microseconds() == self.spec_microseconds(),
            r.spec_nanoseconds() == self.spec_nanoseconds(),
            self.wf() ==> r.wf(),
    {
        DecomposedTime { minutes: mins, ..self }
    }

    /// Replace the second count; every other field keeps its value.
    pub fn with_seconds(self, secs: u32) -> (r: DecomposedTime)
        requires
            secs < 60,
        ensures
            r.spec_seconds() == secs,
            r.spec_signum() == self.spec_signum(),
            r.spec_years() == self.spec_years(),
            r.spec_days() == self.spec_days(),
            r.spec_hours() == self.spec_hours(),
            r.spec_minutes() == self.spec_minutes(),
            r.spec_milliseconds() == self.spec_milliseconds(),
            r.spec_microseconds() == self.spec_microseconds(),
            r.spec_nanoseconds() == self.spec_nanoseconds(),
            self.wf() ==> r.wf(),
    {
        DecomposedTime { seconds: secs, ..self }
    }

    /// Replace the sub-second remainder, given as one nanosecond count; the
    /// three base-1000 fields are re-derived from it by truncation, exactly
    /// as the decomposer derives them. Every other field keeps its value.
    pub fn with_fractional_nanoseconds(self, nanos: u32) -> (r: DecomposedTime)
        requires
            nanos < NANOS_PER_SEC,
        ensures
            r.spec_frac_nanos() == nanos,
            r.spec_milliseconds() == nanos / 1000000,
            r.spec_microseconds() == (nanos / 1000) % 1000,
            r.spec_nanoseconds() == nanos % 1000,
            r.spec_signum() == self.spec_signum(),
            r.spec_years() == self.spec_years(),
            r.spec_days() == self.spec_days(),
            r.spec_hours() == self.spec_hours(),
            r.spec_minutes() == self.spec_minutes(),
            r.spec_seconds() == self.spec_seconds(),
            self.wf() ==> r.wf(),
    {
        let (milliseconds, microseconds, nanoseconds) = split_subsec_nanos(nanos);
        DecomposedTime { milliseconds, microseconds, nanoseconds, ..self }
    }

    /// The whole hours of the entire duration, years and days folded in.
    pub open spec fn spec_total_hours(self) -> int {
        self.spec_years() * 8760 + self.spec_days() * 24 + self.spec_hours()
    }

    /// The whole days of the entire duration, years folded in.
    pub open spec fn spec_total_days(self) -> int {
        self.spec_years() * 365 + self.spec_days()
    }

    /// Fold years, days and hours into one hour count, or report that the
    /// count does not fit in 64 bits.
    pub fn total_hours(&self) -> (r: Option<u64>)
        ensures
            match r {
                Some(h) => h == self.spec_total_hours() && self.spec_total_hours() <= u64::MAX,
                None => self.spec_total_hours() > u64::MAX,
            },
    {
        let total: u128 = (self.years as u128) * 8760 + (self.days as u128) * 24
            + (self.hours as u128);
        if total <= u64::MAX as u128 {
            Some(total as u64)
        } else {
            None
        }
    }

    /// Fold years and days into one day count, or report that the count does
    /// not fit in 64 bits.
    pub fn total_days(&self) -> (r: Option<u64>)
        ensures
            match r {
                Some(d) => d == self.spec_total_days() && self.spec_total_days() <= u64::MAX,
                None => self.spec_total_days() > u64::MAX,
            },
    {
        let total: u128 = (self.years as u128) * 365 + (self.days as u128);
        if total <= u64::MAX as u128 {
            Some(total as u64)
        } else {
            None
        }
    }

    /// The default human-readable rendering: years and days only when
    /// nonzero, hours only when some larger unit or the hours themselves are
    /// nonzero, then minutes and seconds, then only as many base-1000
    /// sub-second groups as are needed to reach the finest nonzero one.
    pub open spec fn spec_display(self) -> Seq<char> {
        (if self.spec_years() > 0 {
            dec_digits(self.spec_years() as nat) + seq!['y', 'r', ' ']
        } else {
            Seq::empty()
        }) + (if self.spec_days() > 0 {
            dec_digits(self.spec_days() as nat) + seq!['d', ' ']
        } else {
            Seq::empty()
        }) + (if self.spec_hours() > 0 || self.spec_days() > 0 || self.spec_years() > 0 {
            pad2(self.spec_hours() as nat) + seq![':']
        } else {
            Seq::empty()
        }) + pad2(self.spec_minutes() as nat) + seq![':'] + pad2(self.spec_seconds() as nat)
            + (if self.spec_nanoseconds() > 0 {
            seq!['.'] + pad3(self.spec_milliseconds() as nat) + seq!['\'']
                + pad3(self.spec_microseconds() as nat) + seq!['\'']
                + pad3(self.spec_nanoseconds() as nat)
        } else if self.spec_microseconds() > 0 {
            seq!['.'] + pad3(self.spec_milliseconds() as nat) + seq!['\'']
                + pad3(self.spec_microseconds() as nat)
        } else if self.spec_milliseconds() > 0 {
            seq!['.'] + pad3(self.spec_milliseconds() as nat)
        } else {
            Seq::empty()
        })
    }

    /// Render the breakdown in the default human-readable style.
    #[verifier::rlimit(60)]
    pub fn display_string(&self) -> (r: String)
        ensures
            r@ == self.spec_display(),
    {
        let mut out: Vec<char> = Vec::new();
        if self.years > 0 {
            push_dec(&mut out, self.years);
            out.push('y');
            out.push('r');
            out.push(' ');
        }
        if self.days > 0 {
            push_dec(&mut out, self.days as u64);
            out.push('d');
            out.push(' ');
        }
        if self.hours > 0 || self.days > 0 || self.years > 0 {
            push_pad2(&mut out, self.hours as u64);
            out.push(':');
        }
        push_pad2(&mut out, self.minutes as u64);
        out.push(':');
        push_pad2(&mut out, self.seconds as u64);
        if self.nanoseconds > 0 {
            out.push('.');
            push_pad3(&mut out, self.milliseconds as u64);
            out.push('\'');
            push_pad3(&mut out, self.microseconds as u64);
            out.push('\'');
            push_pad3(&mut out, self.nanoseconds as u64);
        } else if self.microseconds > 0 {
            out.push('.');
            push_pad3(&mut out, self.milliseconds as u64);
            out.push('\'');
            push_pad3(&mut out, self.microseconds as u64);
        } else if self.milliseconds > 0 {
            out.push('.');
            push_pad3(&mut out, self.milliseconds as u64);
        }
        assert(out@ =~= self.spec_display());
        chars_to_string(&out)
    }

    /// Whether the recorded direction is positive.
    pub fn is_positive(&self) -> (r: bool)
        ensures
            r == (self.spec_signum() > 0),
    {
        self.sign_num > 0
    }

    /// Whether the recorded direction is negative.
    pub fn is_negative(&self) -> (r: bool)
        ensures
            r == (self.spec_signum() < 0),
    {
        self.sign_num < 0
    }

    /// The recorded direction as a number.
    pub fn signum(&self) -> (r: i8)
        ensures
            r == self.spec_signum(),
    {
        self.sign_num
    }
}

impl Default for DecomposedTime {
    /// The all-zero breakdown with positive direction.
    fn default() -> (r: DecomposedTime)
        ensures
            r.wf(),
            r.spec_signum() == 1,
            r.spec_years() == 0,
            r.spec_days() == 0,
            r.spec_hours() == 0,
            r.spec_minutes() == 0,
            r.spec_seconds() == 0,
            r.spec_milliseconds() == 0,
            r.spec_microseconds() == 0,
            r.spec_nanoseconds() == 0,
    {
        DecomposedTime::zero()
    }
}

/// Split a sub-second nanosecond count into whole milliseconds, remaining
/// whole microseconds, and remaining nanoseconds, each by truncation.
fn split_subsec_nanos(nanos: u32) -> (r: (u32, u32, u32))
    requires
        nanos < NANOS_PER_SEC,
    ensures
        r.0 == nanos / 1000000,
        r.1 == (nanos / 1000) % 1000,
        r.2 == nanos % 1000,
        r.0 < 1000,
        r.1 < 1000,
        r.2 < 1000,
        r.0 * 1000000 + r.1 * 1000 + r.2 == nanos,
{
    let milliseconds = nanos / 1000000;
    let microseconds = (nanos / 1000) % 1000;
    let nanoseconds = nanos % 1000;
    proof {
        lemma_split_subsec(nanos as int);
    }
    (milliseconds, microseconds, nanoseconds)
}

/// A signed duration held as plain values: a direction, a count of whole
/// seconds, and a sub-second remainder in nanoseconds. Adapters for richer
/// duration representations reduce them to this form before decomposition.
#[derive(Clone, Copy, Debug, PartialEq, Eq, Structural)]
pub struct RawDuration {
    negative: bool,
    whole_seconds: u64,
    subsec_nanos: u32,
}

impl RawDuration {
    pub closed spec fn spec_negative(self) -> bool {
        self.negative
    }

    pub closed spec fn spec_whole_seconds(self) -> u64 {
        self.whole_seconds
    }

    pub closed spec fn spec_subsec_nanos(self) -> u32 {
        self.subsec_nanos
    }

    /// The sub-second remainder is below one second.
    #[verifier::type_invariant]
    pub open spec fn wf(self) -> bool {
        self.spec_subsec_nanos() < 1000000000
    }

    /// A duration of `whole_seconds` plus `subsec_nanos` nanoseconds,
    /// directed backwards when `negative` is set.
    pub fn new(negative: bool, whole_seconds: u64, subsec_nanos: u32) -> (r: RawDuration)
        requires
            subsec_nanos < NANOS_PER_SEC,
        ensures
            r.spec_negative() == negative,
            r.spec_whole_seconds() == whole_seconds,
            r.spec_subsec_nanos() == subsec_nanos,
    {
        RawDuration { negative, whole_seconds, subsec_nanos }
    }
}

impl Decompose for RawDuration {
    type Error = ();

    /// Decomposition of a plain signed duration never fails, and the
    /// breakdown reconstructs the duration exactly.
    fn decompose(self) -> (r: Result<DecomposedTime, ()>)
        ensures
            r is Ok,
            r matches Ok(t) ==> t.wf(),
            r matches Ok(t) ==> t.spec_whole_seconds() == self.spec_whole_seconds(),
            r matches Ok(t) ==> t.spec_frac_nanos() == self.spec_subsec_nanos(),
            r matches Ok(t) ==> t.spec_signum() == (if self.spec_whole_seconds() == 0
                && self.spec_subsec_nanos() == 0 {
                1i8
            } else if self.spec_negative() {
                -1i8
            } else {
                1i8
            }),
    {
        proof {
            use_type_invariant(&self);
        }
        Ok(decomposed_from_seconds(self.negative, self.whole_seconds, self.subsec_nanos))
    }
}

/// Decompose a signed duration, given as a magnitude of whole seconds plus a
/// sub-second remainder in nanoseconds, into a breakdown. The magnitude is
/// divided by each unit size from years down to seconds, truncating at every
/// step; the remainder is split into its base-1000 fields the same way. The
/// reconstruction clauses state that nothing is lost: folding the fields
/// back together yields the inputs exactly. A magnitude of exactly zero is
/// recorded as positive.
pub fn decomposed_from_seconds(negative: bool, whole_seconds: u64, subsec_nanos: u32) -> (r:
    DecomposedTime)
    requires
        subsec_nanos < NANOS_PER_SEC,
    ensures
        r.wf(),
        r.spec_whole_seconds() == whole_seconds,
        r.spec_frac_nanos() == subsec_nanos,
        r.spec_signum() == (if whole_seconds == 0 && subsec_nanos == 0 {
            1i8
        } else if negative {
            -1i8
        } else {
            1i8
        }),
{
    let sign_num: i8 = if whole_seconds == 0 && subsec_nanos == 0 {
        1
    } else if negative {
        -1
    } else {
        1
    };
    let years = whole_seconds / SECS_PER_YEAR;
    let rem_after_years = whole_seconds % SECS_PER_YEAR;
    let days = (rem_after_years / SECS_PER_DAY) as u32;
    let rem_after_days = rem_after_years % SECS_PER_DAY;
    let hours = (rem_after_days / SECS_PER_HOUR) as u32;
    let rem_after_hours = rem_after_days % SECS_PER_HOUR;
    let minutes = (rem_after_hours / SECS_PER_MINUTE) as u32;
    let seconds = (rem_after_hours % SECS_PER_MINUTE) as u32;
    let (milliseconds, microseconds, nanoseconds) = split_subsec_nanos(subsec_nanos);
    DecomposedTime {
        sign_num,
        years,
        days,
        hours,
        minutes,
        seconds,
        milliseconds,
        microseconds,
        nanoseconds,
    }
}

proof fn lemma_split_subsec(n: int)
    requires
        0 <= n < 1000000000,
    ensures
        (n / 1000000) * 1000000 + ((n / 1000) % 1000) * 1000 + n % 1000 == n,
        n / 1000000 < 1000,
{
    assert(n / 1000 / 1000 == n / 1000000) by (nonlinear_arith)
        requires
            0 <= n < 1000000000,
    ;
}

} // verus!

