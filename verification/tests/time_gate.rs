use puzzle_prep::time::Instant;
use puzzle_prep::time::error_if_time_before_problem_unlock;
use puzzle_prep::time::validate_year_with;

fn instant_of(text: &str) -> Instant {
    let ts = match text.parse::<jiff::Zoned>() {
        Ok(zdt) => zdt.timestamp(),
        Err(_) => text.parse::<jiff::Timestamp>().expect("datetime should parse"),
    };
    Instant::from_parts(ts.as_second(), ts.subsec_nanosecond())
}

#[test]
fn test_exit() {
    let test_cases = [
        (
            "2024-11-30T16:27:29.999999999-08:00[America/Los_Angeles]",
            "4h 32m 31s",
        ),
        (
            "2024-11-29T16:27:29.1-05:00[America/New_York]",
            "31h 32m 31s",
        ),
        ("2024-12-01T04:59:58.999999999+00:00[UTC]", "2s"),
        ("2024-12-01T12:58:59.999+08:00[Asia/Singapore]", "1m 1s"),
        ("2024-12-01T16:59:00+13:00[Pacific/Auckland]", "1h 1m"),
    ];

    for (zdt_str, expected_unlock_time) in test_cases {
        let zdt = instant_of(zdt_str);
        match error_if_time_before_problem_unlock(zdt, 2024, 1) {
            Ok(_) => unreachable!("Expected error"),
            Err(err) => assert_eq!(
                err.message(),
                format!("Problem hasn't unlocked yet. Try again in {expected_unlock_time}")
            ),
        }
    }
}

#[test]
fn test_successful_unlock() {
    let test_cases = [
        ("2024-12-30T21:00:00.000000001-08:00[America/Los_Angeles]"),
        ("2024-12-01T00:00:00-05:00[America/New_York]"),
        ("2024-12-01T05:00:01+00:00[UTC]"),
        ("2024-12-01T13:00:10+08:00[Asia/Singapore]"),
        ("2024-12-01T18:01:00+13:00[Pacific/Auckland]"),
    ];

    for zdt_str in test_cases {
        let zdt = instant_of(zdt_str);
        error_if_time_before_problem_unlock(zdt, 2024, 1).expect("should be unlocked");
    }
}

#[test]
fn gate_reports_two_seconds_just_before_unlock() {
    let now = instant_of("2024-12-01T04:59:58.999999999+00:00");
    let err = error_if_time_before_problem_unlock(now, 2024, 1).unwrap_err();
    assert!(err.message().contains("2s"));
}

#[test]
fn gate_succeeds_just_after_unlock() {
    let now = instant_of("2024-12-01T05:00:01+00:00");
    assert!(error_if_time_before_problem_unlock(now, 2024, 1).is_ok());
}

#[test]
fn gate_succeeds_exactly_at_unlock() {
    let now = instant_of("2024-12-01T05:00:00+00:00");
    assert!(error_if_time_before_problem_unlock(now, 2024, 1).is_ok());
}

#[test]
fn gate_reports_one_second_at_a_nanosecond_before() {
    let now = instant_of("2024-12-01T04:59:59.999999999+00:00");
    let err = error_if_time_before_problem_unlock(now, 2024, 1).unwrap_err();
    assert_eq!(
        err.message(),
        "Problem hasn't unlocked yet. Try again in 1s"
    );
}

#[test]
fn gate_omits_zero_components() {
    // Exactly one hour remaining: minutes and seconds are left out.
    let now = instant_of("2024-12-01T04:00:00+00:00");
    let err = error_if_time_before_problem_unlock(now, 2024, 1).unwrap_err();
    assert_eq!(
        err.message(),
        "Problem hasn't unlocked yet. Try again in 1h"
    );
}

#[test]
fn gate_handles_leap_year_calendar() {
    // 2024 is a leap year; a day before December 25's unlock.
    let now = instant_of("2024-12-24T05:00:00+00:00");
    let err = error_if_time_before_problem_unlock(now, 2024, 25).unwrap_err();
    assert_eq!(
        err.message(),
        "Problem hasn't unlocked yet. Try again in 24h"
    );
    // 2015 is a common year.
    let now = instant_of("2015-12-01T04:59:30+00:00[UTC]");
    let err = error_if_time_before_problem_unlock(now, 2015, 1).unwrap_err();
    assert_eq!(
        err.message(),
        "Problem hasn't unlocked yet. Try again in 30s"
    );
}

#[test]
fn validate_year_zero_returns_current_year() {
    assert_eq!(validate_year_with(0, 2024).unwrap(), 2024);
}

#[test]
fn validate_year_accepts_in_range_unchanged() {
    assert_eq!(validate_year_with(2015, 2024).unwrap(), 2015);
    assert_eq!(validate_year_with(2024, 2024).unwrap(), 2024);
    // Idempotence: feeding an accepted year back in accepts it again.
    let accepted = validate_year_with(0, 2024).unwrap();
    assert_eq!(validate_year_with(accepted, 2024).unwrap(), accepted);
}

#[test]
fn validate_year_rejects_out_of_range() {
    let err = validate_year_with(2014, 2024).unwrap_err();
    assert_eq!(err.message(), "You must choose a year between 2015 and 2024");
    let err = validate_year_with(2025, 2024).unwrap_err();
    assert_eq!(err.message(), "You must choose a year between 2015 and 2024");
    assert!(validate_year_with(1999, 2024).is_err());
}

#[test]
fn validate_year_against_clock_rejects_old_years() {
    assert!(puzzle_prep::time::validate_year(2014).is_err());
    assert!(puzzle_prep::time::validate_year(1).is_err());
}

#[test]
fn gate_against_clock_accepts_past_years() {
    // The 2015 day-1 puzzle unlocked long ago on any sane clock.
    assert!(puzzle_prep::time::error_if_problem_locked(2015, 1).is_ok());
}
