//! When a certificate is to be renewed.

use super::certified_key::CertifiedKey;
use crate::time::{Duration, NANOS_PER_SEC};
use vstd::arithmetic::power2::{lemma_pow2_strictly_increases, lemma_pow2_unfold, pow2};
use vstd::prelude::*;

verus! {

/// How many nanoseconds the first certificate of `cert_key` is still valid for, where `left` is
/// what is known of that. Without a certificate, and where nothing is known, it is none.
pub open spec fn nanos_left(cert_key: Option<&CertifiedKey>, left: Option<Duration>) -> nat {
    match (cert_key, left) {
        (Some(cert_key), Some(left)) => if cert_key.cert@.len() > 0 {
            left@
        } else {
            0
        },
        _ => 0,
    }
}

/// How many nanoseconds to wait for before a certificate is renewed that is still valid for
/// `valid` nanoseconds, when renewing has failed `err_cnt` times in a row: half of that time, but
/// after a failure no less than a time that doubles with each one.
pub open spec fn renewal_wait(valid: nat, err_cnt: nat) -> nat {
    let half = valid / 2;
    let backoff = pow2(err_cnt) * NANOS_PER_SEC as nat;
    if err_cnt == 0 || backoff < half {
        half
    } else {
        backoff
    }
}

/// How long to wait before the certificate is renewed, when renewing has failed `err_cnt` times in
/// a row. `left` says how long the first certificate is still valid for, where that can be read.
pub fn duration_until_renewal_attempt(
    cert_key: Option<&CertifiedKey>,
    left: Option<Duration>,
    err_cnt: usize,
) -> (r: Duration)
    requires
        err_cnt < 64,
    ensures
        r@ == renewal_wait(nanos_left(cert_key, left), err_cnt as nat),
{
    let valid_until = match (cert_key, left) {
        (Some(cert_key), Some(left)) => if cert_key.cert.len() > 0 {
            left
        } else {
            Duration::zero()
        },
        _ => Duration::zero(),
    };
    let wait = valid_until.half();
    if err_cnt == 0 {
        return wait;
    }
    proof {
        vstd::bits::lemma_u64_pow2_no_overflow(err_cnt as nat);
        vstd::bits::lemma_u64_shl_is_mul(1, err_cnt as u64);
    }
    wait.max(Duration::from_secs(1u64 << (err_cnt as u64)))
}

/// What the wait is made of: half of the time `left` that the first certificate is still valid for,
/// and after failures no less than a second that is doubled for each of them. Without a certificate,
/// and where it is not known how long it is valid for, no time is left.
pub proof fn law_wait(cert_key: &CertifiedKey, left: Duration, err_cnt: nat)
    ensures
        cert_key.cert@.len() > 0 ==> renewal_wait(nanos_left(Some(cert_key), Some(left)), 0)
            == left@ / 2,
        cert_key.cert@.len() > 0 && err_cnt > 0 ==> renewal_wait(
            nanos_left(Some(cert_key), Some(left)),
            err_cnt,
        ) == if left@ / 2 > pow2(err_cnt) * 1_000_000_000 {
            left@ / 2
        } else {
            pow2(err_cnt) * 1_000_000_000
        },
        cert_key.cert@.len() == 0 ==> nanos_left(Some(cert_key), Some(left)) == 0,
        nanos_left(Some(cert_key), None) == 0,
        nanos_left(None, Some(left)) == 0,
        nanos_left(None, None) == 0,
        err_cnt > 0 ==> renewal_wait(0, err_cnt) == pow2(err_cnt) * 1_000_000_000,
        renewal_wait(0, 0) == 0,
{
}

/// Without a failure the wait is half of the time that is left, and none where nothing is left.
pub proof fn law_half_time(valid: nat)
    ensures
        renewal_wait(valid, 0) == valid / 2,
        renewal_wait(0, 0) == 0,
{
}

/// Further failures never shorten the wait, and with each one the least time to wait doubles.
pub proof fn law_backoff(valid: nat, err_cnt: nat, more: nat)
    requires
        err_cnt <= more,
    ensures
        renewal_wait(valid, err_cnt) <= renewal_wait(valid, more),
        err_cnt > 0 ==> renewal_wait(valid, err_cnt) >= pow2(err_cnt) * NANOS_PER_SEC,
        pow2(err_cnt + 1) == 2 * pow2(err_cnt),
{
    lemma_pow2_unfold(err_cnt + 1);
    if err_cnt < more {
        lemma_pow2_strictly_increases(err_cnt, more);
    }
}

/// The longer a certificate is still valid for, the longer the wait.
pub proof fn law_monotone(valid: nat, longer: nat, err_cnt: nat)
    requires
        valid <= longer,
    ensures
        renewal_wait(valid, err_cnt) <= renewal_wait(longer, err_cnt),
{
}

} // verus!
