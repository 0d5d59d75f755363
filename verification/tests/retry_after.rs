use std::time::{Duration as StdDuration, SystemTime as StdSystemTime};

use async_acme::acme::{AcmeError, HeaderValue};
use async_acme::jose::jose_response;
use async_acme::retry_after::{parse_retry_after, resolve_retry_after};
use async_acme::time::{duration_until, Duration, SystemTime};

#[test]
fn delta_seconds_parses() {
    assert_eq!(parse_retry_after("120"), Some(Duration::from_secs(120)));
    assert_eq!(parse_retry_after("0"), Some(Duration::zero()));
}

#[test]
fn http_date_in_future_yields_positive_duration() {
    // A date that is made here, since the weekday has to match the date.
    let target = StdSystemTime::now() + StdDuration::from_secs(3600);
    let header = httpdate::fmt_http_date(target);
    let parsed = parse_retry_after(&header).expect("formatted future HTTP-date should parse");
    // The exact value depends on the clock.
    assert!(parsed > Duration::from_secs(60 * 30));
    assert!(parsed <= Duration::from_secs(3600));
}

#[test]
fn http_date_in_past_resolves_to_zero() {
    let past = StdSystemTime::now() - StdDuration::from_secs(3600);
    let header = httpdate::fmt_http_date(past);
    assert_eq!(parse_retry_after(&header), Some(Duration::zero()));
}

#[test]
fn unparseable_returns_none() {
    assert_eq!(parse_retry_after("not a date"), None);
    assert_eq!(parse_retry_after(""), None);
    // Negative integers are not delta-seconds (which is non-negative) and aren't HTTP-dates
    // either.
    assert_eq!(parse_retry_after("-1"), None);
}

#[test]
fn all_forms_of_a_date_are_read() {
    // All three stand for the same moment, which has passed.
    for text in [
        "Sun, 06 Nov 1994 08:49:37 GMT",
        "Sunday, 06-Nov-94 08:49:37 GMT",
        "Sun Nov  6 08:49:37 1994",
    ] {
        assert_eq!(parse_retry_after(text), Some(Duration::zero()), "{text}");
    }
    // 1994-11-07 was a Monday.
    assert_eq!(parse_retry_after("Sun, 07 Nov 1994 08:49:37 GMT"), None);
}

#[test]
fn seconds_do_not_depend_on_the_clock() {
    for now in [
        SystemTime::SinceEpoch(Duration::zero()),
        SystemTime::SinceEpoch(Duration::from_secs(u64::MAX)),
        SystemTime::BeforeEpoch(Duration::from_secs(77)),
    ] {
        assert_eq!(
            resolve_retry_after("17", Some(3), now),
            Some(Duration::from_secs(17))
        );
    }
}

#[test]
fn a_date_is_resolved_against_the_clock() {
    let now = SystemTime::SinceEpoch(Duration::new(100, 250_000_000));
    assert_eq!(
        resolve_retry_after("a date", Some(103), now),
        Some(Duration::new(2, 750_000_000))
    );
    assert_eq!(
        resolve_retry_after("a date", Some(100), now),
        Some(Duration::zero())
    );
    assert_eq!(resolve_retry_after("a date", None, now), None);
    let early = SystemTime::BeforeEpoch(Duration::new(1, 500_000_000));
    assert_eq!(
        resolve_retry_after("a date", Some(2), early),
        Some(Duration::new(3, 500_000_000))
    );
}

#[test]
fn what_is_left_shrinks_as_time_goes_by() {
    let at = |secs: u64| duration_until(50, SystemTime::SinceEpoch(Duration::from_secs(secs)));
    assert_eq!(at(10), Duration::from_secs(40));
    assert_eq!(at(49), Duration::from_secs(1));
    assert_eq!(at(50), Duration::zero());
    assert_eq!(at(51), Duration::zero());
}

#[test]
fn status_up_to_299_is_no_error() {
    assert!(jose_response(200, None).is_ok());
    assert!(jose_response(204, Some(HeaderValue::Text("7".to_string()))).is_ok());
    assert!(jose_response(299, None).is_ok());
}

#[test]
fn other_status_is_an_error() {
    for status in [300, 400, 409, 428, 430, 500] {
        let header = Some(HeaderValue::Text("7".to_string()));
        assert!(
            matches!(jose_response(status, header), Err(AcmeError::HttpStatus(s)) if s == status),
            "{status}"
        );
    }
}

fn cooldown(header: Option<HeaderValue>) -> Option<Duration> {
    match jose_response(429, header) {
        Err(AcmeError::RateLimited { retry_after }) => retry_after,
        other => panic!("{other:?}"),
    }
}

#[test]
fn too_many_requests_carry_the_cooldown() {
    let text = |s: &str| Some(HeaderValue::Text(s.to_string()));
    assert_eq!(cooldown(text("30")), Some(Duration::from_secs(30)));
    assert_eq!(cooldown(text(" \t30\u{a0}\n")), Some(Duration::from_secs(30)));
    assert_eq!(
        cooldown(text("Sun, 06 Nov 1994 08:49:37 GMT")),
        Some(Duration::zero())
    );
    assert_eq!(cooldown(text("soon")), None);
    assert_eq!(cooldown(Some(HeaderValue::Opaque)), None);
    assert_eq!(cooldown(None), None);
}
