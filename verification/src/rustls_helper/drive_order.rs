//! How a certificate is obtained for an account.

use super::error::OrderError;
use crate::acme::{AcmeError, Identifier, Order};
use vstd::prelude::*;

verus! {

/// How far obtaining a certificate has come, which also says what is to be done next. What comes
/// of that is an [`IssuanceEvent`].
pub enum Issuance {
    /// A key is to be made for a certificate for `identifiers`.
    Generate {
        /// What the certificate is for.
        identifiers: Vec<Identifier>,
    },
    /// The certificate is to be ordered.
    NewOrder {
        /// What the certificate is for.
        identifiers: Vec<Identifier>,
    },
    /// All the authorizations are to be obtained.
    Authorize {
        /// The URLs of the authorizations.
        authorizations: Vec<String>,
        /// The URL that takes the certificate signing request.
        finalize: String,
    },
    /// The state of the order is to be fetched.
    CheckStatus {
        /// The URL to fetch it from.
        finalize: String,
    },
    /// The certificate signing request is to be made.
    BuildCsr {
        /// The URL that takes the request.
        finalize: String,
    },
    /// The certificate signing request is to be sent.
    SendCsr {
        /// The URL that takes the request.
        finalize: String,
        /// The request.
        csr: Vec<u8>,
    },
    /// The certificate is to be downloaded.
    Download {
        /// The URL of the certificate.
        certificate: String,
    },
    /// The certificate is to be put together with its key.
    Assemble {
        /// The certificate, as PEM.
        cert_pem: String,
    },
    /// Nothing is left to be done. Holds the key and the certificate, both as PEM.
    Done(Result<(String, String), OrderError>),
}

/// What came of the next thing to be done for an [`Issuance`].
pub enum IssuanceEvent {
    /// Whether the key was made. An error is given by its message.
    Generated(Result<(), String>),
    /// What the server says of the order.
    Ordered(Result<Order, AcmeError>),
    /// Whether all the authorizations were obtained, or the first error.
    Authorized(Result<(), OrderError>),
    /// The certificate signing request. An error is given by its message.
    CsrBuilt(Result<Vec<u8>, String>),
    /// The certificate, as PEM.
    Downloaded(Result<String, AcmeError>),
    /// The key, as PEM, or that the certificate could not be read.
    Assembled(Result<String, ()>),
}

/// What a state of the order asks for.
pub open spec fn asked_for(order: Order) -> Issuance {
    match order {
        Order::Pending { authorizations, finalize } => Issuance::Authorize {
            authorizations,
            finalize,
        },
        Order::Processing { finalize, .. } => Issuance::CheckStatus { finalize },
        Order::Ready { finalize } => Issuance::BuildCsr { finalize },
        Order::Valid { certificate } => Issuance::Download { certificate },
        Order::Invalid => Issuance::Done(Err(OrderError::BadOrder(Order::Invalid))),
    }
}

fn ask_for(order: Order) -> (r: Issuance)
    ensures
        r == asked_for(order),
{
    match order {
        Order::Pending { authorizations, finalize } => Issuance::Authorize {
            authorizations,
            finalize,
        },
        Order::Processing { finalize, .. } => Issuance::CheckStatus { finalize },
        Order::Ready { finalize } => Issuance::BuildCsr { finalize },
        Order::Valid { certificate } => Issuance::Download { certificate },
        Order::Invalid => Issuance::Done(Err(OrderError::BadOrder(Order::Invalid))),
    }
}

/// The end of an issuance that talking to the server failed for.
pub open spec fn failed(e: AcmeError) -> Issuance {
    Issuance::Done(Err(OrderError::Acme(e)))
}

fn fail(e: AcmeError) -> (r: Issuance)
    ensures
        r == failed(e),
{
    Issuance::Done(Err(OrderError::from(e)))
}

impl Issuance {
    /// Whether `event` is what this state waits for.
    pub open spec fn awaits(&self, event: IssuanceEvent) -> bool {
        match *self {
            Issuance::Generate { .. } => event is Generated,
            Issuance::NewOrder { .. } => event is Ordered,
            Issuance::Authorize { .. } => event is Authorized,
            Issuance::CheckStatus { .. } => event is Ordered,
            Issuance::BuildCsr { .. } => event is CsrBuilt,
            Issuance::SendCsr { .. } => event is Ordered,
            Issuance::Download { .. } => event is Downloaded,
            Issuance::Assemble { .. } => event is Assembled,
            Issuance::Done(_) => false,
        }
    }

    /// Whether this state says that the certificate could not be read.
    pub open spec fn is_unreadable(&self) -> bool {
        *self matches Issuance::Done(Err(OrderError::Acme(e))) && e.is_invalid_data(
            "could not parse certificate"@,
        )
    }

    /// Whether `next` is the state after `event`.
    ///
    /// Any failure ends it. An event that this state does not wait for changes nothing.
    pub open spec fn leads_to(self, event: IssuanceEvent, next: Issuance) -> bool {
        match (self, event) {
            (Issuance::Generate { identifiers }, IssuanceEvent::Generated(made)) => match made {
                Ok(_) => next == (Issuance::NewOrder { identifiers }),
                Err(e) => next == Issuance::Done(Err(OrderError::Rcgen(e))),
            },
            (Issuance::Authorize { finalize, .. }, IssuanceEvent::Authorized(done)) => match done {
                Ok(_) => next == (Issuance::BuildCsr { finalize }),
                Err(e) => next == Issuance::Done(Err(e)),
            },
            (Issuance::BuildCsr { finalize }, IssuanceEvent::CsrBuilt(csr)) => match csr {
                Ok(csr) => next == (Issuance::SendCsr { finalize, csr }),
                Err(e) => next == Issuance::Done(Err(OrderError::Rcgen(e))),
            },
            (Issuance::Download { .. }, IssuanceEvent::Downloaded(pem)) => match pem {
                Ok(cert_pem) => next == (Issuance::Assemble { cert_pem }),
                Err(e) => next == failed(e),
            },
            (Issuance::Assemble { cert_pem }, IssuanceEvent::Assembled(key)) => match key {
                Ok(key_pem) => next == Issuance::Done(Ok((key_pem, cert_pem))),
                Err(_) => next.is_unreadable(),
            },
            (_, IssuanceEvent::Ordered(order)) => if self.awaits(event) {
                match order {
                    Ok(order) => next == asked_for(order),
                    Err(e) => next == failed(e),
                }
            } else {
                next == self
            },
            _ => next == self,
        }
    }
}

/// Takes obtaining a certificate one step further.
///
/// It starts with [`Issuance::Generate`]. What the server says of the order decides what is done
/// next, but for an order whose authorizations have just been obtained: that is taken to be ready.
pub fn drive_order(state: Issuance, event: IssuanceEvent) -> (r: Issuance)
    ensures
        state.leads_to(event, r),
{
    match (state, event) {
        (Issuance::Generate { identifiers }, IssuanceEvent::Generated(made)) => match made {
            Ok(_) => Issuance::NewOrder { identifiers },
            Err(e) => Issuance::Done(Err(OrderError::Rcgen(e))),
        },
        (Issuance::NewOrder { .. }, IssuanceEvent::Ordered(order)) => match order {
            Ok(order) => ask_for(order),
            Err(e) => fail(e),
        },
        (Issuance::CheckStatus { .. }, IssuanceEvent::Ordered(order)) => match order {
            Ok(order) => ask_for(order),
            Err(e) => fail(e),
        },
        (Issuance::SendCsr { .. }, IssuanceEvent::Ordered(order)) => match order {
            Ok(order) => ask_for(order),
            Err(e) => fail(e),
        },
        (Issuance::Authorize { finalize, .. }, IssuanceEvent::Authorized(done)) => match done {
            Ok(_) => ask_for(Order::Ready { finalize }),
            Err(e) => Issuance::Done(Err(e)),
        },
        (Issuance::BuildCsr { finalize }, IssuanceEvent::CsrBuilt(csr)) => match csr {
            Ok(csr) => Issuance::SendCsr { finalize, csr },
            Err(e) => Issuance::Done(Err(OrderError::Rcgen(e))),
        },
        (Issuance::Download { .. }, IssuanceEvent::Downloaded(pem)) => match pem {
            Ok(cert_pem) => Issuance::Assemble { cert_pem },
            Err(e) => fail(e),
        },
        (Issuance::Assemble { cert_pem }, IssuanceEvent::Assembled(key)) => match key {
            Ok(key_pem) => Issuance::Done(Ok((key_pem, cert_pem))),
            Err(_) => fail(AcmeError::invalid_data("could not parse certificate")),
        },
        (state, _) => state,
    }
}

/// Whether `states` is a course that obtaining a certificate for `identifiers` can take with
/// `events`.
pub open spec fn is_course(
    identifiers: Vec<Identifier>,
    states: Seq<Issuance>,
    events: Seq<IssuanceEvent>,
) -> bool {
    &&& states.len() == events.len() + 1
    &&& states[0] == (Issuance::Generate { identifiers })
    &&& forall|i: int|
        0 <= i < events.len() ==> (#[trigger] states[i]).leads_to(events[i], states[i + 1])
}

/// A certificate is obtained only where the server handed it out, and the one that is obtained is
/// the one that the server handed out, with the key that it was put together with.
pub proof fn law_certificate_is_the_servers(
    identifiers: Vec<Identifier>,
    states: Seq<Issuance>,
    events: Seq<IssuanceEvent>,
    key_pem: String,
    cert_pem: String,
)
    requires
        is_course(identifiers, states, events),
        states.last() == Issuance::Done(Ok((key_pem, cert_pem))),
    ensures
        events.contains(IssuanceEvent::Downloaded(Ok(cert_pem))),
        events.contains(IssuanceEvent::Assembled(Ok(key_pem))),
{
    lemma_certificate(identifiers, states, events, events.len() as int);
}

/// What has happened by the time that a state is reached.
spec fn has_happened(state: Issuance, events: Seq<IssuanceEvent>) -> bool {
    match state {
        Issuance::Assemble { cert_pem } => events.contains(
            IssuanceEvent::Downloaded(Ok(cert_pem)),
        ),
        Issuance::Done(Ok((key_pem, cert_pem))) => {
            &&& events.contains(IssuanceEvent::Downloaded(Ok(cert_pem)))
            &&& events.contains(IssuanceEvent::Assembled(Ok(key_pem)))
        },
        _ => true,
    }
}

proof fn lemma_certificate(
    identifiers: Vec<Identifier>,
    states: Seq<Issuance>,
    events: Seq<IssuanceEvent>,
    n: int,
)
    requires
        is_course(identifiers, states, events),
        0 <= n <= events.len(),
    ensures
        has_happened(states[n], events),
    decreases n,
{
    if n > 0 {
        lemma_certificate(identifiers, states, events, n - 1);
        assert(states[n - 1].leads_to(events[n - 1], states[n]));
    }
}

/// Whether step `i` of a course obtained all the authorizations of the order that takes its
/// certificate signing request at `finalize`.
pub open spec fn authorizes(
    states: Seq<Issuance>,
    events: Seq<IssuanceEvent>,
    i: int,
    finalize: String,
) -> bool {
    &&& states[i] matches Issuance::Authorize { finalize: of_order, .. }
    &&& of_order == finalize
    &&& events[i] matches IssuanceEvent::Authorized(Ok(_))
}

/// A certificate signing request is sent only for an order that the server calls ready, or whose
/// authorizations have all been obtained; and what is sent is what was made.
pub proof fn law_request_follows_authorization(
    identifiers: Vec<Identifier>,
    states: Seq<Issuance>,
    events: Seq<IssuanceEvent>,
    finalize: String,
    csr: Vec<u8>,
)
    requires
        is_course(identifiers, states, events),
        states.last() == (Issuance::SendCsr { finalize, csr }),
    ensures
        events.contains(IssuanceEvent::Ordered(Ok(Order::Ready { finalize }))) || exists|i: int|
            0 <= i < events.len() && #[trigger] authorizes(states, events, i, finalize),
        events.contains(IssuanceEvent::CsrBuilt(Ok(csr))),
{
    lemma_request(identifiers, states, events, events.len() as int);
}

/// Whether the way is free for a certificate signing request to `finalize`.
spec fn is_free(states: Seq<Issuance>, events: Seq<IssuanceEvent>, finalize: String) -> bool {
    events.contains(IssuanceEvent::Ordered(Ok(Order::Ready { finalize }))) || exists|i: int|
        0 <= i < events.len() && #[trigger] authorizes(states, events, i, finalize)
}

proof fn lemma_request(
    identifiers: Vec<Identifier>,
    states: Seq<Issuance>,
    events: Seq<IssuanceEvent>,
    n: int,
)
    requires
        is_course(identifiers, states, events),
        0 <= n <= events.len(),
    ensures
        states[n] matches Issuance::BuildCsr { finalize } ==> is_free(states, events, finalize),
        states[n] matches Issuance::SendCsr { finalize, csr } ==> is_free(states, events, finalize)
            && events.contains(IssuanceEvent::CsrBuilt(Ok(csr))),
    decreases n,
{
    if n > 0 {
        lemma_request(identifiers, states, events, n - 1);
        let before = states[n - 1];
        let event = events[n - 1];
        assert(before.leads_to(event, states[n]));
        if let Issuance::BuildCsr { finalize } = states[n] {
            if before is Authorize {
                assert(authorizes(states, events, n - 1, finalize));
            } else if before !is BuildCsr {
                assert(event == IssuanceEvent::Ordered(Ok(Order::Ready { finalize })));
            }
        }
    }
}

/// What is ordered is what was asked for.
pub proof fn law_orders_what_was_asked_for(
    identifiers: Vec<Identifier>,
    states: Seq<Issuance>,
    events: Seq<IssuanceEvent>,
    ordered: Vec<Identifier>,
)
    requires
        is_course(identifiers, states, events),
        states.last() == (Issuance::NewOrder { identifiers: ordered }),
    ensures
        ordered == identifiers,
{
    lemma_named(identifiers, states, events, events.len() as int);
}

/// Authorizations are asked for only once the server has said that the order is pending and named
/// them.
pub proof fn law_authorizes_what_is_pending(
    identifiers: Vec<Identifier>,
    states: Seq<Issuance>,
    events: Seq<IssuanceEvent>,
    authorizations: Vec<String>,
    finalize: String,
)
    requires
        is_course(identifiers, states, events),
        states.last() == (Issuance::Authorize { authorizations, finalize }),
    ensures
        events.contains(IssuanceEvent::Ordered(Ok(Order::Pending { authorizations, finalize }))),
{
    lemma_named(identifiers, states, events, events.len() as int);
    assert(events.take(events.len() as int) =~= events);
}

/// A certificate is downloaded only once the server has said that the order is valid and named it.
pub proof fn law_downloads_what_is_valid(
    identifiers: Vec<Identifier>,
    states: Seq<Issuance>,
    events: Seq<IssuanceEvent>,
    certificate: String,
)
    requires
        is_course(identifiers, states, events),
        states.last() == (Issuance::Download { certificate }),
    ensures
        events.contains(IssuanceEvent::Ordered(Ok(Order::Valid { certificate }))),
{
    lemma_named(identifiers, states, events, events.len() as int);
    assert(events.take(events.len() as int) =~= events);
}

/// Whether step `i` of a course downloaded the certificate `cert_pem`, after the server had said
/// that the order is valid and named that certificate.
pub open spec fn downloads(
    states: Seq<Issuance>,
    events: Seq<IssuanceEvent>,
    i: int,
    cert_pem: String,
) -> bool {
    &&& states[i] matches Issuance::Download { certificate }
    &&& events[i] == IssuanceEvent::Downloaded(Ok(cert_pem))
    &&& events.take(i).contains(IssuanceEvent::Ordered(Ok(Order::Valid { certificate })))
}

/// A certificate is obtained only after the server has said that the order is valid: it is what was
/// downloaded from where that answer says.
pub proof fn law_certificate_follows_valid(
    identifiers: Vec<Identifier>,
    states: Seq<Issuance>,
    events: Seq<IssuanceEvent>,
    key_pem: String,
    cert_pem: String,
)
    requires
        is_course(identifiers, states, events),
        states.last() == Issuance::Done(Ok((key_pem, cert_pem))),
    ensures
        exists|i: int| 0 <= i < events.len() && #[trigger] downloads(states, events, i, cert_pem),
{
    lemma_downloaded(identifiers, states, events, events.len() as int);
}

spec fn is_downloaded(
    states: Seq<Issuance>,
    events: Seq<IssuanceEvent>,
    cert_pem: String,
) -> bool {
    exists|i: int| 0 <= i < events.len() && #[trigger] downloads(states, events, i, cert_pem)
}

proof fn lemma_downloaded(
    identifiers: Vec<Identifier>,
    states: Seq<Issuance>,
    events: Seq<IssuanceEvent>,
    n: int,
)
    requires
        is_course(identifiers, states, events),
        0 <= n <= events.len(),
    ensures
        match states[n] {
            Issuance::Assemble { cert_pem } => is_downloaded(states, events, cert_pem),
            Issuance::Done(Ok((_, cert_pem))) => is_downloaded(states, events, cert_pem),
            _ => true,
        },
    decreases n,
{
    if n > 0 {
        lemma_downloaded(identifiers, states, events, n - 1);
        lemma_named(identifiers, states, events, n - 1);
        assert(states[n - 1].leads_to(events[n - 1], states[n]));
        if let Issuance::Assemble { cert_pem } = states[n] {
            if states[n - 1] is Download {
                assert(downloads(states, events, n - 1, cert_pem));
            }
        }
    }
}

/// What states name is what was asked for, or what the server has named before.
proof fn lemma_named(
    identifiers: Vec<Identifier>,
    states: Seq<Issuance>,
    events: Seq<IssuanceEvent>,
    n: int,
)
    requires
        is_course(identifiers, states, events),
        0 <= n <= events.len(),
    ensures
        match states[n] {
            Issuance::Generate { identifiers: asked } => asked == identifiers,
            Issuance::NewOrder { identifiers: ordered } => ordered == identifiers,
            Issuance::Authorize { authorizations, finalize } => events.take(n).contains(
                IssuanceEvent::Ordered(Ok(Order::Pending { authorizations, finalize })),
            ),
            Issuance::Download { certificate } => events.take(n).contains(
                IssuanceEvent::Ordered(Ok(Order::Valid { certificate })),
            ),
            _ => true,
        },
    decreases n,
{
    if n > 0 {
        lemma_named(identifiers, states, events, n - 1);
        let before = events.take(n - 1);
        let upto = events.take(n);
        assert(states[n - 1].leads_to(events[n - 1], states[n]));
        assert(upto[n - 1] == events[n - 1]);
        assert forall|e: IssuanceEvent| before.contains(e) implies upto.contains(e) by {
            let i = choose|i: int| 0 <= i < before.len() && before[i] == e;
            assert(upto[i] == e);
        }
    }
}

/// An order that has failed ends it, with the order as the error.
pub proof fn law_invalid_order_ends(state: Issuance, next: Issuance)
    requires
        state.awaits(IssuanceEvent::Ordered(Ok(Order::Invalid))),
        state.leads_to(IssuanceEvent::Ordered(Ok(Order::Invalid)), next),
    ensures
        next == Issuance::Done(Err(OrderError::BadOrder(Order::Invalid))),
{
}

/// What has come to an end stays as it is.
pub proof fn law_end_is_final(
    end: Result<(String, String), OrderError>,
    event: IssuanceEvent,
    next: Issuance,
)
    requires
        Issuance::Done(end).leads_to(event, next),
    ensures
        next == Issuance::Done(end),
{
}

} // verus!
