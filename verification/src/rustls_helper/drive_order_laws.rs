//! What each answer leads to in obtaining a certificate for an account.

use super::drive_order::{Issuance, IssuanceEvent};
use super::error::OrderError;
use crate::acme::{AcmeError, ErrorKind, Identifier, Order};
use vstd::prelude::*;

verus! {

/// Whether the server is to be asked for the state of the order: by ordering, by fetching it, or by
/// sending the certificate signing request.
pub open spec fn is_asking(state: Issuance) -> bool {
    match state {
        Issuance::NewOrder { .. } => true,
        Issuance::CheckStatus { .. } => true,
        Issuance::SendCsr { .. } => true,
        _ => false,
    }
}

/// Where the server says that the order is pending, all the authorizations that it names are
/// obtained next.
pub proof fn law_pending_order_is_authorized(
    state: Issuance,
    authorizations: Vec<String>,
    finalize: String,
    next: Issuance,
)
    requires
        is_asking(state),
        state.leads_to(
            IssuanceEvent::Ordered(Ok(Order::Pending { authorizations, finalize })),
            next,
        ),
    ensures
        next == (Issuance::Authorize { authorizations, finalize }),
{
}

/// Where the server says that the order is ready, the certificate signing request is made next, for
/// the URL that it names; and so it is where all the authorizations have been obtained.
pub proof fn law_ready_order_is_finalized(
    state: Issuance,
    authorizations: Vec<String>,
    finalize: String,
    next: Issuance,
)
    requires
        (is_asking(state) && state.leads_to(
            IssuanceEvent::Ordered(Ok(Order::Ready { finalize })),
            next,
        )) || (Issuance::Authorize { authorizations, finalize }).leads_to(
            IssuanceEvent::Authorized(Ok(())),
            next,
        ),
    ensures
        next == (Issuance::BuildCsr { finalize }),
{
}

/// Where the server says that the order is being processed, its state is fetched again, from the URL
/// that the answer names.
pub proof fn law_processing_order_is_checked(
    state: Issuance,
    authorizations: Vec<String>,
    finalize: String,
    next: Issuance,
)
    requires
        is_asking(state),
        state.leads_to(
            IssuanceEvent::Ordered(Ok(Order::Processing { authorizations, finalize })),
            next,
        ),
    ensures
        next == (Issuance::CheckStatus { finalize }),
{
}

/// Where the server says that the order is valid, the certificate that it names is downloaded next.
pub proof fn law_valid_order_is_downloaded(
    state: Issuance,
    certificate: String,
    next: Issuance,
)
    requires
        is_asking(state),
        state.leads_to(IssuanceEvent::Ordered(Ok(Order::Valid { certificate })), next),
    ensures
        next == (Issuance::Download { certificate }),
{
}

/// Where the server says that the order is invalid, or where asking it fails, that is the end, with
/// the order or the failure as the error.
pub proof fn law_failed_order_ends(state: Issuance, e: AcmeError, next: Issuance)
    requires
        is_asking(state),
    ensures
        state.leads_to(IssuanceEvent::Ordered(Ok(Order::Invalid)), next) ==> next
            == Issuance::Done(Err(OrderError::BadOrder(Order::Invalid))),
        state.leads_to(IssuanceEvent::Ordered(Err(e)), next) ==> next == Issuance::Done(
            Err(OrderError::Acme(e)),
        ),
{
}

/// Each other thing that is done leads to the next: the order for the same identifiers, the request
/// to the same URL, and the certificate as it was downloaded, which is handed out with its key.
pub proof fn law_success_leads_on(
    identifiers: Vec<Identifier>,
    finalize: String,
    csr: Vec<u8>,
    certificate: String,
    cert_pem: String,
    key_pem: String,
    next: Issuance,
)
    ensures
        (Issuance::Generate { identifiers }).leads_to(IssuanceEvent::Generated(Ok(())), next)
            ==> next == (Issuance::NewOrder { identifiers }),
        (Issuance::BuildCsr { finalize }).leads_to(IssuanceEvent::CsrBuilt(Ok(csr)), next)
            ==> next == (Issuance::SendCsr { finalize, csr }),
        (Issuance::Download { certificate }).leads_to(
            IssuanceEvent::Downloaded(Ok(cert_pem)),
            next,
        ) ==> next == (Issuance::Assemble { cert_pem }),
        (Issuance::Assemble { cert_pem }).leads_to(IssuanceEvent::Assembled(Ok(key_pem)), next)
            ==> next == Issuance::Done(Ok((key_pem, cert_pem))),
{
}

/// Each other failure ends it, with that failure as the error.
pub proof fn law_failures_end(
    identifiers: Vec<Identifier>,
    authorizations: Vec<String>,
    finalize: String,
    certificate: String,
    cert_pem: String,
    message: String,
    e: AcmeError,
    order_error: OrderError,
    next: Issuance,
)
    ensures
        (Issuance::Generate { identifiers }).leads_to(IssuanceEvent::Generated(Err(message)), next)
            ==> next == Issuance::Done(Err(OrderError::Rcgen(message))),
        (Issuance::Authorize { authorizations, finalize }).leads_to(
            IssuanceEvent::Authorized(Err(order_error)),
            next,
        ) ==> next == Issuance::Done(Err(order_error)),
        (Issuance::BuildCsr { finalize }).leads_to(IssuanceEvent::CsrBuilt(Err(message)), next)
            ==> next == Issuance::Done(Err(OrderError::Rcgen(message))),
        (Issuance::Download { certificate }).leads_to(IssuanceEvent::Downloaded(Err(e)), next)
            ==> next == Issuance::Done(Err(OrderError::Acme(e))),
        (Issuance::Assemble { cert_pem }).leads_to(IssuanceEvent::Assembled(Err(())), next)
            ==> is_parse_error(next),
{
}

/// Whether it has ended because the certificate could not be parsed.
pub open spec fn is_parse_error(state: Issuance) -> bool {
    match state {
        Issuance::Done(Err(OrderError::Acme(AcmeError::Io(e)))) => e.kind == ErrorKind::InvalidData
            && e.message@ == "could not parse certificate"@,
        _ => false,
    }
}

/// What is not an answer to what was to be done changes nothing.
pub proof fn law_other_events_change_nothing(
    state: Issuance,
    event: IssuanceEvent,
    next: Issuance,
)
    requires
        match state {
            Issuance::Generate { .. } => event !is Generated,
            Issuance::NewOrder { .. } => event !is Ordered,
            Issuance::Authorize { .. } => event !is Authorized,
            Issuance::CheckStatus { .. } => event !is Ordered,
            Issuance::BuildCsr { .. } => event !is CsrBuilt,
            Issuance::SendCsr { .. } => event !is Ordered,
            Issuance::Download { .. } => event !is Downloaded,
            Issuance::Assemble { .. } => event !is Assembled,
            Issuance::Done(_) => true,
        },
        state.leads_to(event, next),
    ensures
        next == state,
{
}

} // verus!
