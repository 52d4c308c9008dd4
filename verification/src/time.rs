//! The time gate: year validation and the per-day unlock instant.
//!
//! A puzzle for December `day` of `year` unlocks at 05:00:00 UTC on that
//! day. Whether access is allowed is decided from an explicit instant, so
//! the decision is a pure function of its inputs; the clock-driven entry
//! point reads the time through one trusted accessor and hands it in.

use crate::error::Error;
use crate::text::spec_dec;
use crate::text::u64_to_string;
use vstd::arithmetic::div_mod::lemma_fundamental_div_mod;
use vstd::prelude::*;
use vstd::string::StringExecFns;

verus! {

/// An instant on the absolute timeline: seconds since the Unix epoch plus a
/// non-negative fraction in nanoseconds. The bounds of `wf` comfortably
/// cover every instant the calendar below can name.
pub struct Instant {
    pub seconds: i64,
    pub nanos: u32,
}

impl Instant {
    pub open spec fn wf(self) -> bool {
        &&& -500_000_000_000 <= self.seconds <= 500_000_000_000
        &&& self.nanos < 1_000_000_000
    }

    /// The instant as a total count of nanoseconds since the epoch.
    pub open spec fn total_ns(self) -> int {
        self.seconds * 1_000_000_000 + self.nanos
    }

    /// Normalizes a second/fraction pair whose fraction may be negative
    /// (both parts counted away from the epoch, as clock libraries report
    /// them) into an instant with a non-negative fraction.
    pub fn from_parts(seconds: i64, nanos: i32) -> (r: Instant)
        requires
            -400_000_000_000 <= seconds <= 400_000_000_000,
            -999_999_999 <= nanos <= 999_999_999,
            seconds > 0 ==> nanos >= 0,
            seconds < 0 ==> nanos <= 0,
        ensures
            r.wf(),
            r.total_ns() == seconds * 1_000_000_000 + nanos,
    {
        if nanos < 0 {
            Instant { seconds: seconds - 1, nanos: (nanos + 1_000_000_000) as u32 }
        } else {
            Instant { seconds, nanos: nanos as u32 }
        }
    }
}

/// Whether `y` is a leap year in the Gregorian calendar.
pub open spec fn spec_is_leap(y: int) -> bool {
    y % 4 == 0 && (y % 100 != 0 || y % 400 == 0)
}

pub open spec fn spec_days_in_year(y: int) -> int {
    if spec_is_leap(y) {
        366
    } else {
        365
    }
}

/// Days from the epoch (1970-01-01) to January 1 of `y`.
pub open spec fn spec_days_to_year(y: int) -> int
    decreases y,
{
    if y <= 1970 {
        0
    } else {
        spec_days_to_year(y - 1) + spec_days_in_year(y - 1)
    }
}

/// Seconds from the epoch to the unlock instant of December `day` of
/// `year`: 05:00:00 UTC on that day. The 334 days are January through
/// November of a common year.
pub open spec fn spec_unlock_secs(year: int, day: int) -> int {
    (spec_days_to_year(year) + 334 + (if spec_is_leap(year) {
        1int
    } else {
        0int
    }) + (day - 1)) * 86400 + 18000
}

/// The unlock instant in nanoseconds since the epoch.
pub open spec fn spec_unlock_ns(year: int, day: int) -> int {
    spec_unlock_secs(year, day) * 1_000_000_000
}

fn is_leap(y: u32) -> (r: bool)
    ensures
        r == spec_is_leap(y as int),
{
    y % 4 == 0 && (y % 100 != 0 || y % 400 == 0)
}

fn days_to_year(year: u32) -> (r: u64)
    requires
        1970 <= year <= 9999,
    ensures
        r as int == spec_days_to_year(year as int),
        r <= 3_000_000,
{
    let mut y: u32 = 1970;
    let mut d: u64 = 0;
    while y < year
        invariant
            1970 <= y <= year,
            year <= 9999,
            d as int == spec_days_to_year(y as int),
            d <= 366 * (y - 1970),
        decreases year - y,
    {
        if is_leap(y) {
            d = d + 366;
        } else {
            d = d + 365;
        }
        y = y + 1;
    }
    d
}

fn unlock_secs(year: u32, day: u32) -> (r: u64)
    requires
        2015 <= year <= 9999,
        1 <= day <= 25,
    ensures
        r as int == spec_unlock_secs(year as int, day as int),
        r <= 300_000_000_000,
{
    let days_past = days_to_year(year);
    let in_year: u64 = if is_leap(year) {
        335
    } else {
        334
    };
    (days_past + in_year + (day - 1) as u64) * 86400 + 18000
}

/// The accepted year for a requested year, given the current year: 0 means
/// "use the current year", a year in [2015, current] is taken unchanged,
/// anything else is rejected.
pub open spec fn spec_validate_year(year: int, current_year: int) -> Option<int> {
    if year == 0 {
        Some(current_year)
    } else if 2015 <= year <= current_year {
        Some(year)
    } else {
        None
    }
}

/// The message reported when a year is rejected.
pub open spec fn spec_year_error_message(current_year: int) -> Seq<char> {
    "You must choose a year between 2015 and "@ + spec_dec(current_year)
}

/// Checks a requested year against an explicitly supplied current year.
pub fn validate_year_with(year: u32, current_year: u32) -> (r: Result<u32, Error>)
    ensures
        r matches Ok(y) ==> spec_validate_year(year as int, current_year as int) == Some(
            y as int,
        ),
        r is Err ==> spec_validate_year(year as int, current_year as int) is None,
        r matches Err(e) ==> e is Configuration && e.spec_message() == spec_year_error_message(
            current_year as int,
        ),
{
    if year == 0 {
        return Ok(current_year);
    }
    if 2015 <= year && year <= current_year {
        return Ok(year);
    }
    let msg = String::from_str("You must choose a year between 2015 and ").concat(
        u64_to_string(current_year as u64).as_str(),
    );
    Err(Error::Configuration { message: msg })
}

/// Relies on `jiff::Zoned::now` and `jiff::Zoned::year`: the current year
/// of the system clock in the system time zone, as a `u32` the way the
/// pipeline counts years. Nothing is assumed about the value, since it
/// depends on the clock.
#[verifier::external_body]
pub(crate) fn clock_year() -> u32 {
    jiff::Zoned::now().year() as u32
}

/// Relies on `jiff::Zoned::now` and `jiff::Timestamp`: the current instant
/// as whole seconds since the Unix epoch plus a fractional-second
/// nanosecond count. jiff documents that timestamps lie between the years
/// -9999 and 9999 (so well within 4e11 seconds of the epoch), that the
/// fraction is strictly less than one second in magnitude, and that the
/// fraction carries the sign of the timestamp.
#[verifier::external_body]
fn clock_now_parts() -> (r: (i64, i32))
    ensures
        -400_000_000_000 <= r.0 <= 400_000_000_000,
        -999_999_999 <= r.1 <= 999_999_999,
        r.0 > 0 ==> r.1 >= 0,
        r.0 < 0 ==> r.1 <= 0,
{
    let ts = jiff::Zoned::now().timestamp();
    (ts.as_second(), ts.subsec_nanosecond())
}

/// The current instant from the system clock, as a normalized `Instant`.
pub(crate) fn now_instant() -> (r: Instant)
    ensures
        r.wf(),
{
    let (secs, nanos) = clock_now_parts();
    Instant::from_parts(secs, nanos)
}

/// Checks a requested year against the system clock's current year. A
/// requested 0 always succeeds (with whatever year the clock reports);
/// a non-zero year below 2015 always fails; any other outcome depends on
/// the clock.
pub fn validate_year(year: u32) -> (r: Result<u32, Error>)
    ensures
        year == 0 ==> r is Ok,
        r matches Ok(y) ==> (year == 0 || y == year),
        1 <= year < 2015 ==> r is Err,
        r matches Err(e) ==> e is Configuration,
{
    let current_year = clock_year();
    validate_year_with(year, current_year)
}

/// Nanoseconds from `now` until the unlock instant (negative once it has
/// passed).
pub open spec fn spec_remaining_ns(now: Instant, year: int, day: int) -> int {
    spec_unlock_ns(year, day) - now.total_ns()
}

/// The remaining duration in whole seconds, rounded up.
pub open spec fn spec_reported_secs(now: Instant, year: int, day: int) -> int {
    (spec_remaining_ns(now, year, day) + 999_999_999) / 1_000_000_000
}

pub open spec fn spec_join_sp(a: Seq<char>, b: Seq<char>) -> Seq<char> {
    if a.len() == 0 {
        b
    } else if b.len() == 0 {
        a
    } else {
        a + seq![' '] + b
    }
}

/// A duration of `total` seconds in compact form: hours, minutes and
/// seconds, zero components omitted, single spaces between the rest.
pub open spec fn spec_duration_text(total: int) -> Seq<char> {
    spec_join_sp(
        spec_join_sp(
            if total / 3600 > 0 {
                spec_dec(total / 3600) + seq!['h']
            } else {
                Seq::empty()
            },
            if (total % 3600) / 60 > 0 {
                spec_dec((total % 3600) / 60) + seq!['m']
            } else {
                Seq::empty()
            },
        ),
        if total % 60 > 0 {
            spec_dec(total % 60) + seq!['s']
        } else {
            Seq::empty()
        },
    )
}

/// The message reported while the puzzle is still locked.
pub open spec fn spec_locked_message(now: Instant, year: int, day: int) -> Seq<char> {
    "Problem hasn't unlocked yet. Try again in "@ + spec_duration_text(
        spec_reported_secs(now, year, day),
    )
}

fn duration_text(total: u64) -> (r: String)
    requires
        total >= 1,
    ensures
        r@ == spec_duration_text(total as int),
{
    let h: u64 = total / 3600;
    let m: u64 = (total % 3600) / 60;
    let s: u64 = total % 60;
    let mut out = String::new();
    if h > 0 {
        out.append(u64_to_string(h).as_str());
        out.push('h');
    }
    if m > 0 {
        if h > 0 {
            out.push(' ');
        }
        out.append(u64_to_string(m).as_str());
        out.push('m');
    }
    if s > 0 {
        if h > 0 || m > 0 {
            out.push(' ');
        }
        out.append(u64_to_string(s).as_str());
        out.push('s');
    }
    proof {
        let t = total as int;
        let hp: Seq<char> = if t / 3600 > 0 {
            spec_dec(t / 3600) + seq!['h']
        } else {
            Seq::empty()
        };
        let mp: Seq<char> = if (t % 3600) / 60 > 0 {
            spec_dec((t % 3600) / 60) + seq!['m']
        } else {
            Seq::empty()
        };
        let sp: Seq<char> = if t % 60 > 0 {
            spec_dec(t % 60) + seq!['s']
        } else {
            Seq::empty()
        };
        assert(spec_dec(t / 3600).len() > 0);
        assert(spec_dec((t % 3600) / 60).len() > 0);
        assert(spec_dec(t % 60).len() > 0);
        assert(out@ =~= spec_join_sp(spec_join_sp(hp, mp), sp));
    }
    out
}

/// The time gate itself: succeeds exactly when `now` is at or after the
/// unlock instant of December `day` of `year`; otherwise fails with a
/// `Locked` error whose message reports the remaining duration rounded up
/// to whole seconds.
pub fn error_if_time_before_problem_unlock(now: Instant, year: u32, day: u32) -> (r: Result<
    (),
    Error,
>)
    requires
        now.wf(),
        2015 <= year <= 9999,
        1 <= day <= 25,
    ensures
        r is Ok <==> now.total_ns() >= spec_unlock_ns(year as int, day as int),
        r matches Err(e) ==> e is Locked && e.spec_message() == spec_locked_message(
            now,
            year as int,
            day as int,
        ),
{
    let us = unlock_secs(year, day);
    let shifted_now_secs: u64 = (now.seconds + 600_000_000_000) as u64;
    let shifted_now: u128 = (shifted_now_secs as u128) * 1_000_000_000 + (now.nanos as u128);
    let shifted_unlock: u128 = ((us as u128) + 600_000_000_000) * 1_000_000_000;
    if shifted_now >= shifted_unlock {
        Ok(())
    } else {
        let rem: u128 = shifted_unlock - shifted_now;
        assert(rem as int == spec_remaining_ns(now, year as int, day as int));
        let total: u64 = ((rem + 999_999_999) / 1_000_000_000) as u64;
        assert(total as int == spec_reported_secs(now, year as int, day as int));
        assert(total >= 1);
        let msg = String::from_str("Problem hasn't unlocked yet. Try again in ").concat(
            duration_text(total).as_str(),
        );
        Err(Error::Locked { message: msg })
    }
}

/// Applies the unlock check to the instant the system clock reports.
pub fn error_if_problem_locked(year: u32, day: u32) -> (r: Result<(), Error>)
    requires
        2015 <= year <= 9999,
        1 <= day <= 25,
    ensures
        r matches Err(e) ==> e is Locked,
{
    let now = now_instant();
    error_if_time_before_problem_unlock(now, year, day)
}

/// The year gate returns the current year for a requested 0, rejects a
/// non-zero year below 2015 or above the current year, accepts any other
/// unchanged, and is idempotent: feeding an accepted year back in accepts
/// it again.
pub proof fn lemma_validate_year_rules(year: int, current_year: int)
    requires
        2015 <= current_year,
    ensures
        spec_validate_year(0, current_year) == Some(current_year),
        (0 < year < 2015 || year > current_year) ==> spec_validate_year(year, current_year)
            is None,
        2015 <= year <= current_year ==> spec_validate_year(year, current_year) == Some(year),
        spec_validate_year(year, current_year) matches Some(y) ==> spec_validate_year(
            y,
            current_year,
        ) == Some(y),
{
}

/// Before the unlock instant, the remaining duration is rounded up to
/// whole seconds with no slack: `k` seconds are announced exactly when the
/// remaining nanoseconds lie in `((k-1)s, ks]`.
pub proof fn lemma_reported_is_ceiling(now: Instant, year: int, day: int)
    requires
        now.total_ns() < spec_unlock_ns(year, day),
    ensures
        spec_reported_secs(now, year, day) >= 1,
        (spec_reported_secs(now, year, day) - 1) * 1_000_000_000 < spec_remaining_ns(
            now,
            year,
            day,
        ),
        spec_remaining_ns(now, year, day) <= spec_reported_secs(now, year, day) * 1_000_000_000,
{
    let rem = spec_remaining_ns(now, year, day);
    let k = spec_reported_secs(now, year, day);
    lemma_fundamental_div_mod(rem + 999_999_999, 1_000_000_000);
    assert(rem + 999_999_999 == 1_000_000_000 * k + (rem + 999_999_999) % 1_000_000_000);
    assert(0 <= (rem + 999_999_999) % 1_000_000_000 < 1_000_000_000);
}

} // verus!
