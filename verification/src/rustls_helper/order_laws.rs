//! What each answer leads to in obtaining a certificate with the help of a cache.

use super::certified_key::{loads_as, CertifiedKey};
use super::error::OrderError;
use super::order::{is_course, Acquired, Acquisition, AcquisitionEvent};
use crate::acme::{AcmeError, Directory};
use vstd::prelude::*;

verus! {

/// It starts with the cache where there is one, and else with the server.
pub proof fn law_start()
    ensures
        Acquisition::at_start(true) == Acquisition::ReadCache,
        Acquisition::at_start(false) == (Acquisition::Discover { cached: false }),
{
}

/// What the cache holds is read, and where that fails it ends with that failure as the error. Where
/// the cache holds nothing, the server is asked. Where the cache fails, that is the end.
pub proof fn law_cache_is_asked(
    key_pem: String,
    cert_pem: String,
    message: String,
    next: Acquisition,
)
    ensures
        Acquisition::ReadCache.leads_to(
            AcquisitionEvent::CacheRead(Ok(Some((key_pem, cert_pem)))),
            next,
        ) ==> (next is Inspect || next is Done),
        Acquisition::ReadCache.leads_to(
            AcquisitionEvent::CacheRead(Ok(Some((key_pem, cert_pem)))),
            next,
        ) && next is Inspect ==> loads_as(key_pem@, cert_pem@, Ok(next->key)),
        Acquisition::ReadCache.leads_to(
            AcquisitionEvent::CacheRead(Ok(Some((key_pem, cert_pem)))),
            next,
        ) && next is Done ==> {
            &&& next->Done_0 is Err
            &&& next->Done_0->Err_0 is Acme
            &&& loads_as(key_pem@, cert_pem@, Err(next->Done_0->Err_0->Acme_0))
        },
        Acquisition::ReadCache.leads_to(AcquisitionEvent::CacheRead(Ok(None)), next) ==> next == (
        Acquisition::Discover { cached: true }),
        Acquisition::ReadCache.leads_to(AcquisitionEvent::CacheRead(Err(message)), next) ==> next
            == Acquisition::Done(Err(OrderError::Acme(AcmeError::Cache(message)))),
{
}

/// What came of reading what the cache holds is gone on with.
pub proof fn law_loaded(key: CertifiedKey, e: AcmeError)
    ensures
        Acquisition::after_loading(Ok(key)) == (Acquisition::Inspect { key }),
        Acquisition::after_loading(Err(e)) == Acquisition::Done(Err(OrderError::Acme(e))),
{
}

/// The directory is handed on as the server gave it, with all its URLs in their places.
pub proof fn law_directory_is_handed_on(cached: bool, directory: Directory, next: Acquisition)
    requires
        (Acquisition::Discover { cached }).leads_to(
            AcquisitionEvent::Discovered(Ok(directory)),
            next,
        ),
    ensures
        next == (Acquisition::LoadAccount { directory, cached }),
        next->directory.new_nonce == directory.new_nonce,
        next->directory.new_account == directory.new_account,
        next->directory.new_order == directory.new_order,
{
}

/// An account is loaded only with a directory that the server gave.
pub proof fn law_account_has_the_servers_directory(
    with_cache: bool,
    states: Seq<Acquisition>,
    events: Seq<AcquisitionEvent>,
    n: int,
    directory: Directory,
    cached: bool,
)
    requires
        is_course(with_cache, states, events),
        0 <= n < states.len(),
        states[n] == (Acquisition::LoadAccount { directory, cached }),
    ensures
        events.contains(AcquisitionEvent::Discovered(Ok(directory))),
        cached == with_cache,
{
    lemma_directory(with_cache, states, events, n);
}

proof fn lemma_directory(
    with_cache: bool,
    states: Seq<Acquisition>,
    events: Seq<AcquisitionEvent>,
    n: int,
)
    requires
        is_course(with_cache, states, events),
        0 <= n < states.len(),
    ensures
        match states[n] {
            Acquisition::ReadCache => with_cache,
            Acquisition::Inspect { .. } => with_cache,
            Acquisition::Discover { cached } => cached == with_cache,
            Acquisition::LoadAccount { directory, cached } => cached == with_cache
                && events.contains(AcquisitionEvent::Discovered(Ok(directory))),
            _ => true,
        },
    decreases n,
{
    if n > 0 {
        lemma_directory(with_cache, states, events, n - 1);
        assert(states[n - 1].leads_to(events[n - 1], states[n]));
    }
}

/// Each thing that is done leads to the next: with the account the certificate is obtained; what is
/// obtained goes into the cache where there is one, and is handed out, the key and the certificate
/// each as they came.
pub proof fn law_success_leads_on(
    directory: Directory,
    cached: bool,
    key_pem: String,
    cert_pem: String,
    next: Acquisition,
)
    ensures
        (Acquisition::LoadAccount { directory, cached }).leads_to(
            AcquisitionEvent::AccountLoaded(Ok(())),
            next,
        ) ==> next == (Acquisition::Drive { cached }),
        (Acquisition::Drive { cached: true }).leads_to(
            AcquisitionEvent::Driven(Ok((key_pem, cert_pem))),
            next,
        ) ==> next == (Acquisition::WriteCache { key_pem, cert_pem }),
        (Acquisition::Drive { cached: false }).leads_to(
            AcquisitionEvent::Driven(Ok((key_pem, cert_pem))),
            next,
        ) ==> next == Acquisition::Done(Ok(Acquired::Issued { key_pem, cert_pem })),
        (Acquisition::WriteCache { key_pem, cert_pem }).leads_to(
            AcquisitionEvent::CacheWritten(Ok(())),
            next,
        ) ==> next == Acquisition::Done(Ok(Acquired::Issued { key_pem, cert_pem })),
{
}

/// Each failure ends it, with that failure as the error.
pub proof fn law_failures_end(
    directory: Directory,
    cached: bool,
    key_pem: String,
    cert_pem: String,
    e: AcmeError,
    order_error: OrderError,
    message: String,
    next: Acquisition,
)
    ensures
        (Acquisition::Discover { cached }).leads_to(AcquisitionEvent::Discovered(Err(e)), next)
            ==> next == Acquisition::Done(Err(OrderError::Acme(e))),
        (Acquisition::LoadAccount { directory, cached }).leads_to(
            AcquisitionEvent::AccountLoaded(Err(e)),
            next,
        ) ==> next == Acquisition::Done(Err(OrderError::Acme(e))),
        (Acquisition::Drive { cached }).leads_to(AcquisitionEvent::Driven(Err(order_error)), next)
            ==> next == Acquisition::Done(Err(order_error)),
        (Acquisition::WriteCache { key_pem, cert_pem }).leads_to(
            AcquisitionEvent::CacheWritten(Err(message)),
            next,
        ) ==> next == Acquisition::Done(Err(OrderError::Acme(AcmeError::Cache(message)))),
{
}

/// What is not an answer to what was to be done changes nothing.
pub proof fn law_other_events_change_nothing(
    state: Acquisition,
    event: AcquisitionEvent,
    next: Acquisition,
)
    requires
        match state {
            Acquisition::ReadCache => event !is CacheRead,
            Acquisition::Inspect { .. } => event !is Inspected,
            Acquisition::Discover { .. } => event !is Discovered,
            Acquisition::LoadAccount { .. } => event !is AccountLoaded,
            Acquisition::Drive { .. } => event !is Driven,
            Acquisition::WriteCache { .. } => event !is CacheWritten,
            Acquisition::Done(_) => true,
        },
        state.leads_to(event, next),
    ensures
        next == state,
{
}

} // verus!
