//! The header `Retry-After` (RFC 7231, section 7.1.3).

use crate::text::{decimal_number, parse_decimal};
use crate::time::{
    duration_until, is_clock_reading, longest, nanos_until, now, Duration, SystemTime,
    NANOS_PER_SEC,
};
use vstd::prelude::*;

verus! {

/// The moment that `text` gives as an HTTP date, in seconds since the start of 1970.
pub uninterp spec fn http_date(text: Seq<char>) -> Option<u64>;

/// `httpdate::parse_http_date`: reads an HTTP date in any of its three forms. The moment, which
/// is a whole number of seconds and not before 1970, is given in seconds since the start of 1970;
/// there is none where the text is no such date.
#[verifier::external_body]
fn parse_http_date(text: &str) -> (r: Option<u64>)
    ensures
        r == http_date(text@),
{
    let when = httpdate::parse_http_date(text).ok()?;
    when.duration_since(std::time::UNIX_EPOCH).ok().map(|d| d.as_secs())
}

/// The nanoseconds of a span, where there is one.
pub open spec fn nanos_of(duration: Option<Duration>) -> Option<nat> {
    match duration {
        Some(d) => Some(d@),
        None => None,
    }
}

/// How many nanoseconds the value `text` of the header asks to wait from the moment `now` on,
/// where `date` is the moment that it gives as an HTTP date: the number of seconds that it writes,
/// or else the time until that date.
pub open spec fn wait(text: Seq<char>, date: Option<u64>, now: int) -> Option<nat> {
    match (decimal_number(text), date) {
        (Some(secs), _) => Some((secs * NANOS_PER_SEC) as nat),
        (None, Some(secs)) => Some(nanos_until(secs as nat, now)),
        (None, None) => None,
    }
}

/// How long the value `text` of the header asks to wait from the moment `now` on, where `date` is
/// the moment that it gives as an HTTP date.
pub fn resolve_retry_after(text: &str, date: Option<u64>, now: SystemTime) -> (r: Option<Duration>)
    ensures
        nanos_of(r) == wait(text@, date, now@),
{
    if let Some(secs) = parse_decimal(text) {
        return Some(Duration::from_secs(secs));
    }
    match date {
        Some(secs) => Some(duration_until(secs, now)),
        None => None,
    }
}

/// How long the value of the header asks to wait from now on.
///
/// Both forms are accepted:
///
///   * `delta-seconds`: a non-negative number of seconds.
///   * `HTTP-date`: a moment in time. What is left until then, or no time at all where that
///     moment has passed, which means that the request can be sent again at once.
///
/// Anything else gives `None`, which means that the server does not say how long to wait.
pub fn parse_retry_after(text: &str) -> (r: Option<Duration>)
    ensures
        exists|now: int|
            is_clock_reading(now) && nanos_of(r) == #[trigger] wait(text@, http_date(text@), now),
{
    resolve_retry_after(text, parse_http_date(text), now())
}

/// A number of seconds means that long, whatever the clock says.
pub proof fn law_seconds(text: Seq<char>, date: Option<u64>, now: int)
    requires
        decimal_number(text) is Some,
    ensures
        wait(text, date, now) == Some((decimal_number(text)->0 * 1_000_000_000) as nat),
{
}

/// A date that has passed means that there is nothing to wait for, which is not the same as a
/// server that does not say how long to wait.
pub proof fn law_past_date(text: Seq<char>, secs: u64, now: int)
    requires
        decimal_number(text) is None,
        secs * NANOS_PER_SEC <= now,
    ensures
        wait(text, Some(secs), now) == Some(0nat),
        wait(text, Some(secs), now) != wait(text, None, now),
{
}

/// A date that is still to come, and that a [`Duration`] reaches, means what is left until then,
/// which is more than nothing and shrinks as time goes by.
pub proof fn law_future_date(text: Seq<char>, secs: u64, now: int, later: int)
    requires
        decimal_number(text) is None,
        now <= later < secs * NANOS_PER_SEC,
        secs * NANOS_PER_SEC - now <= longest(),
    ensures
        wait(text, Some(secs), now) == Some((secs * NANOS_PER_SEC - now) as nat),
        wait(text, Some(secs), now)->0 > 0,
        wait(text, Some(secs), now)->0 == wait(text, Some(secs), later)->0 + (later - now),
{
}

/// A date is waited for exactly: who waits for as long as the header asks, from any moment on, stops
/// at the date, or at once where it has passed. Only from a moment that is further from the date than
/// a [`Duration`] reaches, the wait is the longest there is.
pub proof fn law_waits_until_the_date(text: Seq<char>, secs: u64, now: int)
    requires
        decimal_number(text) is None,
    ensures
        wait(text, Some(secs), now) is Some,
        secs * 1_000_000_000 - now < 18_446_744_073_709_551_616_000_000_000int ==> now + wait(
            text,
            Some(secs),
            now,
        )->0 == if now < secs * 1_000_000_000 {
            secs * 1_000_000_000
        } else {
            now
        },
        secs * 1_000_000_000 - now >= 18_446_744_073_709_551_616_000_000_000int ==> wait(
            text,
            Some(secs),
            now,
        )->0 == 18_446_744_073_709_551_615_999_999_999int,
{
}

/// A span is told by its nanoseconds, and the lack of one by the lack of these.
pub proof fn law_nanos_of(d: Duration)
    ensures
        nanos_of(Some(d)) == Some(d@),
        nanos_of(None) == None::<nat>,
{
}

/// Only a value that is neither a number of seconds nor a date says nothing.
pub proof fn law_unreadable(text: Seq<char>, date: Option<u64>, now: int)
    ensures
        wait(text, date, now) is None <==> decimal_number(text) is None && date is None,
{
}

} // verus!
