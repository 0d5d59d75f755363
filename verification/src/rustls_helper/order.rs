//! How a certificate is obtained with the help of a cache.

use super::certified_key::{
    law_loads_agree, load_certified_key, loads_as, signing_algorithm, CertifiedKey, KeyAlgorithm,
};
use super::error::OrderError;
use super::renewal::{duration_until_renewal_attempt, nanos_left, renewal_wait};
use crate::acme::{AcmeError, Directory};
use crate::time::Duration;
use vstd::prelude::*;

verus! {

/// Where a certificate comes from.
pub enum Acquired {
    /// From the cache.
    Cached(CertifiedKey),
    /// From the server.
    Issued {
        /// The key, as PEM.
        key_pem: String,
        /// The certificate, as PEM.
        cert_pem: String,
    },
}

/// How far obtaining a certificate has come, which also says what is to be done next. What comes
/// of that is an [`AcquisitionEvent`].
pub enum Acquisition {
    /// The cache is to be asked for a certificate.
    ReadCache,
    /// How long the first certificate is still valid for is to be found out.
    Inspect {
        /// The certificate with its key.
        key: CertifiedKey,
    },
    /// The directory of the server is to be fetched.
    Discover {
        /// Whether there is a cache.
        cached: bool,
    },
    /// The account is to be taken from the cache or made.
    LoadAccount {
        /// The directory of the server.
        directory: Directory,
        /// Whether there is a cache.
        cached: bool,
    },
    /// The certificate is to be obtained from the server, which is what
    /// [`drive_order`](super::drive_order) does.
    Drive {
        /// Whether there is a cache.
        cached: bool,
    },
    /// The key and the certificate are to be put into the cache.
    WriteCache {
        /// The key, as PEM.
        key_pem: String,
        /// The certificate, as PEM.
        cert_pem: String,
    },
    /// Nothing is left to be done.
    Done(Result<Acquired, OrderError>),
}

/// What came of the next thing to be done for an [`Acquisition`].
pub enum AcquisitionEvent {
    /// The key and the certificate that the cache holds, both as PEM. An error is given by its
    /// message.
    CacheRead(Result<Option<(String, String)>, String>),
    /// How long the first certificate is still valid for, where that can be read.
    Inspected(Option<Duration>),
    /// The directory of the server.
    Discovered(Result<Directory, AcmeError>),
    /// Whether there is an account.
    AccountLoaded(Result<(), AcmeError>),
    /// The key and the certificate from the server, both as PEM.
    Driven(Result<(String, String), OrderError>),
    /// Whether the cache took the key and the certificate. An error is given by its message.
    CacheWritten(Result<(), String>),
}

impl Acquisition {
    /// The start, with a cache or without.
    pub open spec fn at_start(cached: bool) -> Acquisition {
        if cached {
            Acquisition::ReadCache
        } else {
            Acquisition::Discover { cached }
        }
    }

    /// Starts to obtain a certificate, with a cache or without.
    pub fn start(cached: bool) -> (r: Self)
        ensures
            r == Acquisition::at_start(cached),
    {
        if cached {
            Acquisition::ReadCache
        } else {
            Acquisition::Discover { cached }
        }
    }

    /// The state after the certificate with its key was read from what the cache holds.
    pub open spec fn after_loading(loaded: Result<CertifiedKey, AcmeError>) -> Acquisition {
        match loaded {
            Ok(key) => Acquisition::Inspect { key },
            Err(e) => failed(e),
        }
    }

    /// Goes on with the certificate and its key as they were read from what the cache holds.
    pub fn loaded(loaded: Result<CertifiedKey, AcmeError>) -> (r: Self)
        ensures
            r == Acquisition::after_loading(loaded),
    {
        match loaded {
            Ok(key) => Acquisition::Inspect { key },
            Err(e) => fail(e),
        }
    }

    /// Whether `next` is the state after what the cache holds, `key_pem` and `cert_pem`, was read.
    pub open spec fn follows_loading(key_pem: String, cert_pem: String, next: Acquisition) -> bool {
        match next {
            Acquisition::Inspect { key } => loads_as(key_pem@, cert_pem@, Ok(key)),
            Acquisition::Done(Err(OrderError::Acme(e))) => loads_as(
                key_pem@,
                cert_pem@,
                Err(e),
            ),
            _ => false,
        }
    }

    /// Whether `next` is the state after `event`.
    ///
    /// Any failure ends it. A certificate that the cache holds is read at once, and taken as long
    /// as it is not yet time to renew it. An event that this state does not wait for changes
    /// nothing.
    pub open spec fn leads_to(self, event: AcquisitionEvent, next: Acquisition) -> bool {
        match (self, event) {
            (Acquisition::ReadCache, AcquisitionEvent::CacheRead(read)) => match read {
                Ok(Some((key_pem, cert_pem))) => Acquisition::follows_loading(
                    key_pem,
                    cert_pem,
                    next,
                ),
                Ok(None) => next == (Acquisition::Discover { cached: true }),
                Err(e) => next == failed(AcmeError::Cache(e)),
            },
            (
                Acquisition::Inspect { key },
                AcquisitionEvent::Inspected(left),
            ) => if renewal_wait(nanos_left(Some(&key), left), 0) > 0 {
                next == Acquisition::Done(Ok(Acquired::Cached(key)))
            } else {
                next == (Acquisition::Discover { cached: true })
            },
            (
                Acquisition::Discover { cached },
                AcquisitionEvent::Discovered(discovered),
            ) => match discovered {
                Ok(directory) => next == (Acquisition::LoadAccount { directory, cached }),
                Err(e) => next == failed(e),
            },
            (
                Acquisition::LoadAccount { cached, .. },
                AcquisitionEvent::AccountLoaded(loaded),
            ) => match loaded {
                Ok(_) => next == (Acquisition::Drive { cached }),
                Err(e) => next == failed(e),
            },
            (Acquisition::Drive { cached }, AcquisitionEvent::Driven(driven)) => match driven {
                Ok((key_pem, cert_pem)) => if cached {
                    next == (Acquisition::WriteCache { key_pem, cert_pem })
                } else {
                    next == Acquisition::Done(Ok(Acquired::Issued { key_pem, cert_pem }))
                },
                Err(e) => next == Acquisition::Done(Err(e)),
            },
            (
                Acquisition::WriteCache { key_pem, cert_pem },
                AcquisitionEvent::CacheWritten(written),
            ) => match written {
                Ok(_) => next == Acquisition::Done(Ok(Acquired::Issued { key_pem, cert_pem })),
                Err(e) => next == failed(AcmeError::Cache(e)),
            },
            _ => next == self,
        }
    }
}

/// The end of an acquisition that talking to the server or to the cache failed for.
pub open spec fn failed(e: AcmeError) -> Acquisition {
    Acquisition::Done(Err(OrderError::Acme(e)))
}

fn fail(e: AcmeError) -> (r: Acquisition)
    ensures
        r == failed(e),
{
    Acquisition::Done(Err(OrderError::from(e)))
}

/// Takes obtaining a certificate one step further.
///
/// It starts with [`Acquisition::start`].
pub fn order(state: Acquisition, event: AcquisitionEvent) -> (r: Acquisition)
    ensures
        state.leads_to(event, r),
{
    match (state, event) {
        (Acquisition::ReadCache, AcquisitionEvent::CacheRead(read)) => match read {
            Ok(Some((key_pem, cert_pem))) => Acquisition::loaded(
                load_certified_key(key_pem.as_str(), cert_pem.as_str()),
            ),
            Ok(None) => Acquisition::Discover { cached: true },
            Err(e) => fail(AcmeError::cache(e)),
        },
        (Acquisition::Inspect { key }, AcquisitionEvent::Inspected(left)) => {
            if duration_until_renewal_attempt(Some(&key), left, 0).is_zero() {
                Acquisition::Discover { cached: true }
            } else {
                Acquisition::Done(Ok(Acquired::Cached(key)))
            }
        },
        (
            Acquisition::Discover { cached },
            AcquisitionEvent::Discovered(discovered),
        ) => match discovered {
            Ok(directory) => Acquisition::LoadAccount { directory, cached },
            Err(e) => fail(e),
        },
        (
            Acquisition::LoadAccount { cached, .. },
            AcquisitionEvent::AccountLoaded(loaded),
        ) => match loaded {
            Ok(_) => Acquisition::Drive { cached },
            Err(e) => fail(e),
        },
        (Acquisition::Drive { cached }, AcquisitionEvent::Driven(driven)) => match driven {
            Ok((key_pem, cert_pem)) => if cached {
                Acquisition::WriteCache { key_pem, cert_pem }
            } else {
                Acquisition::Done(Ok(Acquired::Issued { key_pem, cert_pem }))
            },
            Err(e) => Acquisition::Done(Err(e)),
        },
        (
            Acquisition::WriteCache { key_pem, cert_pem },
            AcquisitionEvent::CacheWritten(written),
        ) => match written {
            Ok(_) => Acquisition::Done(Ok(Acquired::Issued { key_pem, cert_pem })),
            Err(e) => fail(AcmeError::cache(e)),
        },
        (state, _) => state,
    }
}

/// Whether `states` is a course that obtaining a certificate can take with `events`, with a cache
/// or without.
pub open spec fn is_course(
    cached: bool,
    states: Seq<Acquisition>,
    events: Seq<AcquisitionEvent>,
) -> bool {
    &&& states.len() == events.len() + 1
    &&& states[0] == Acquisition::at_start(cached)
    &&& forall|i: int|
        0 <= i < events.len() ==> (#[trigger] states[i]).leads_to(events[i], states[i + 1])
}

/// Without a cache, none is asked and none is written to, at any time.
pub proof fn law_no_cache(states: Seq<Acquisition>, events: Seq<AcquisitionEvent>, n: int)
    requires
        is_course(false, states, events),
        0 <= n < states.len(),
    ensures
        match states[n] {
            Acquisition::ReadCache => false,
            Acquisition::Inspect { .. } => false,
            Acquisition::WriteCache { .. } => false,
            Acquisition::Discover { cached } => !cached,
            Acquisition::LoadAccount { cached, .. } => !cached,
            Acquisition::Drive { cached } => !cached,
            Acquisition::Done(Ok(Acquired::Cached(_))) => false,
            Acquisition::Done(_) => true,
        },
    decreases n,
{
    if n > 0 {
        law_no_cache(states, events, n - 1);
        assert(states[n - 1].leads_to(events[n - 1], states[n]));
    }
}

/// Whether step `i` of a course put `key_pem` and `cert_pem` into the cache.
pub open spec fn writes(
    states: Seq<Acquisition>,
    events: Seq<AcquisitionEvent>,
    i: int,
    key_pem: String,
    cert_pem: String,
) -> bool {
    &&& states[i] == (Acquisition::WriteCache { key_pem, cert_pem })
    &&& events[i] matches AcquisitionEvent::CacheWritten(Ok(_))
}

/// With a cache, a certificate from the server is handed out only once the cache has taken it: what
/// is handed out is what the server gave, and that is what was put into the cache.
pub proof fn law_issued_is_cached(
    states: Seq<Acquisition>,
    events: Seq<AcquisitionEvent>,
    key_pem: String,
    cert_pem: String,
)
    requires
        is_course(true, states, events),
        states.last() == Acquisition::Done(Ok(Acquired::Issued { key_pem, cert_pem })),
    ensures
        exists|i: int|
            0 <= i < events.len() && #[trigger] writes(states, events, i, key_pem, cert_pem),
        events.contains(AcquisitionEvent::Driven(Ok((key_pem, cert_pem)))),
{
    lemma_happened(states, events, events.len() as int);
}

/// Whether step `i` of a course read `key` from the very texts that the cache gave.
pub open spec fn reads(
    states: Seq<Acquisition>,
    events: Seq<AcquisitionEvent>,
    i: int,
    key: CertifiedKey,
) -> bool {
    &&& states[i] is ReadCache
    &&& events[i] matches AcquisitionEvent::CacheRead(Ok(Some((key_pem, cert_pem))))
    &&& loads_as(key_pem@, cert_pem@, Ok(key))
}

/// A certificate that is handed out from the cache, with its key, is what the texts that the cache
/// gave read as.
pub proof fn law_cached_is_the_caches(
    states: Seq<Acquisition>,
    events: Seq<AcquisitionEvent>,
    key: CertifiedKey,
)
    requires
        is_course(true, states, events),
        states.last() == Acquisition::Done(Ok(Acquired::Cached(key))),
    ensures
        exists|i: int| 0 <= i < events.len() && #[trigger] reads(states, events, i, key),
{
    lemma_happened(states, events, events.len() as int);
}

/// What has happened by the time that a state is reached with a cache.
spec fn has_happened(
    state: Acquisition,
    states: Seq<Acquisition>,
    events: Seq<AcquisitionEvent>,
) -> bool {
    match state {
        Acquisition::Inspect { key } => exists|i: int|
            0 <= i < events.len() && #[trigger] reads(states, events, i, key),
        Acquisition::Discover { cached } => cached,
        Acquisition::LoadAccount { cached, .. } => cached,
        Acquisition::Drive { cached } => cached,
        Acquisition::WriteCache { key_pem, cert_pem } => events.contains(
            AcquisitionEvent::Driven(Ok((key_pem, cert_pem))),
        ),
        Acquisition::Done(Ok(Acquired::Cached(key))) => exists|i: int|
            0 <= i < events.len() && #[trigger] reads(states, events, i, key),
        Acquisition::Done(Ok(Acquired::Issued { key_pem, cert_pem })) => {
            &&& exists|i: int|
                0 <= i < events.len() && #[trigger] writes(states, events, i, key_pem, cert_pem)
            &&& events.contains(AcquisitionEvent::Driven(Ok((key_pem, cert_pem))))
        },
        _ => true,
    }
}

proof fn lemma_happened(states: Seq<Acquisition>, events: Seq<AcquisitionEvent>, n: int)
    requires
        is_course(true, states, events),
        0 <= n <= events.len(),
    ensures
        has_happened(states[n], states, events),
    decreases n,
{
    if n > 0 {
        lemma_happened(states, events, n - 1);
        let before = states[n - 1];
        let event = events[n - 1];
        assert(before.leads_to(event, states[n]));
        if let Acquisition::Inspect { key } = states[n] {
            if before is ReadCache {
                assert(reads(states, events, n - 1, key));
            }
        }
        if let Acquisition::Done(Ok(Acquired::Issued { key_pem, cert_pem })) = states[n] {
            if before is WriteCache {
                assert(writes(states, events, n - 1, key_pem, cert_pem));
            }
        }
    }
}

/// A certificate from the cache is handed out exactly where there is one and where half of the
/// time that it is still valid for is more than nothing; otherwise a new one is ordered.
pub proof fn law_cached_is_fresh(key: CertifiedKey, left: Option<Duration>, next: Acquisition)
    requires
        (Acquisition::Inspect { key }).leads_to(AcquisitionEvent::Inspected(left), next),
    ensures
        next == if key.cert@.len() > 0 && left is Some && left->0@ >= 2 {
            Acquisition::Done(Ok(Acquired::Cached(key)))
        } else {
            Acquisition::Discover { cached: true }
        },
{
}

/// What has come to an end stays as it is.
pub proof fn law_end_is_final(
    end: Result<Acquired, OrderError>,
    event: AcquisitionEvent,
    next: Acquisition,
)
    requires
        Acquisition::Done(end).leads_to(event, next),
    ensures
        next == Acquisition::Done(end),
{
}

/// Whether `state` asks for something of the server, or for something to be put into the cache.
pub open spec fn is_beyond_the_cache(state: Acquisition) -> bool {
    match state {
        Acquisition::Discover { .. } => true,
        Acquisition::LoadAccount { .. } => true,
        Acquisition::Drive { .. } => true,
        Acquisition::WriteCache { .. } => true,
        _ => false,
    }
}

/// What one run obtains, the next one is given from the cache.
///
/// The first run ended with a certificate from the server, whose texts read as `first`, and put
/// these texts into the cache. Where the cache gives the same texts to a second run, and the first
/// certificate has time left, the second run hands out the same certificates and the same key, and
/// asks nothing of the server. The one thing that can come between is that the key is
/// refused for want of random numbers to try it with, which then is the error; that is so of a key
/// for ECDSA alone.
pub proof fn law_second_run_gives_back_the_first(
    states: Seq<Acquisition>,
    events: Seq<AcquisitionEvent>,
    key_pem: String,
    cert_pem: String,
    first: CertifiedKey,
    states2: Seq<Acquisition>,
    events2: Seq<AcquisitionEvent>,
    key_pem2: String,
    cert_pem2: String,
    left: Duration,
)
    requires
        is_course(true, states, events),
        states.last() == Acquisition::Done(Ok(Acquired::Issued { key_pem, cert_pem })),
        loads_as(key_pem@, cert_pem@, Ok(first)),
        first.cert@.len() > 0,
        is_course(true, states2, events2),
        events2.len() >= 2,
        events2[0] == AcquisitionEvent::CacheRead(Ok(Some((key_pem2, cert_pem2)))),
        key_pem2@ == key_pem@,
        cert_pem2@ == cert_pem@,
        events2[1] == AcquisitionEvent::Inspected(Some(left)),
        left@ >= 2,
    ensures
        exists|i: int|
            0 <= i < events.len() && #[trigger] writes(states, events, i, key_pem, cert_pem),
        forall|n: int|
            0 <= n < states2.len() ==> !is_beyond_the_cache(#[trigger] states2[n]),
        match states2.last() {
            Acquisition::Done(Ok(Acquired::Cached(second))) => second@ == first@,
            Acquisition::Done(Err(OrderError::Acme(e))) => {
                &&& signing_algorithm(first.key.encoding, first.key.der@) == Some(
                    KeyAlgorithm::Ecdsa,
                )
                &&& loads_as(key_pem@, cert_pem@, Err(e))
            },
            _ => false,
        },
{
    law_issued_is_cached(states, events, key_pem, cert_pem);
    assert(states2[0].leads_to(events2[0], states2[1]));
    assert(states2[1].leads_to(events2[1], states2[2]));
    if let Acquisition::Inspect { key } = states2[1] {
        law_loads_agree(key_pem@, cert_pem@, first, key);
        assert(first@.0.len() == key@.0.len());
        law_cached_is_fresh(key, Some(left), states2[2]);
    }
    assert forall|n: int| 0 <= n < states2.len() implies !is_beyond_the_cache(
        #[trigger] states2[n],
    ) by {
        if n >= 2 {
            lemma_stays(states2, events2, 2, n);
        }
    }
    lemma_stays(states2, events2, 2, states2.len() - 1);
}

proof fn lemma_stays(
    states: Seq<Acquisition>,
    events: Seq<AcquisitionEvent>,
    start: int,
    n: int,
)
    requires
        is_course(true, states, events),
        0 <= start <= n < states.len(),
        states[start] is Done,
    ensures
        states[n] == states[start],
    decreases n,
{
    if n > start {
        lemma_stays(states, events, start, n - 1);
        assert(states[n - 1].leads_to(events[n - 1], states[n]));
    }
}

} // verus!
