//! What the texts of errors and of what the server says are made of.

use crate::acme::{
    first_problem, header_text, shown, shown_list, AcmeError, Auth, Challenge, HeaderValue,
    Identifier, IoError, Order, Problem,
};
use crate::ip::IpAddr;
use crate::rustls_helper::OrderError;
use crate::text::decimal;
use crate::time::Duration;
use vstd::prelude::*;

verus! {

/// A header that is text is taken as it is. One that is not there, or that is no text, is an error
/// that names it.
pub proof fn law_headers(text: String, header: &'static str)
    ensures
        header_text(Some(HeaderValue::Text(text)), header) == Ok::<String, AcmeError>(text),
        header_text(Some(HeaderValue::Opaque), header) == Err::<String, AcmeError>(
            AcmeError::MissingHeader(header),
        ),
        header_text(None, header) == Err::<String, AcmeError>(AcmeError::MissingHeader(header)),
{
}

/// A host name is written as it is, and an address as addresses are.
pub proof fn law_identifiers(name: String, address: IpAddr)
    ensures
        Identifier::Dns(name).text() == name@,
        Identifier::Ip(address).text() == address.text(),
{
}

/// A problem is put in words by its detail; without one by its type; and without either by saying
/// so.
pub proof fn law_problems(problem: Problem, detail: String)
    ensures
        problem.detail == Some(detail) ==> problem.text() == detail@,
        problem.detail is None && problem.typ@.len() > 0 ==> problem.text() == problem.typ@,
        problem.detail is None && problem.typ@.len() == 0 ==> problem.text() == "no detail given"@,
{
}

/// The problem that counts is that of the first challenge that has one.
pub proof fn law_first_problem(challenges: Seq<Challenge>, challenge: Challenge)
    ensures
        first_problem(seq![]) == None::<Problem>,
        challenge.error is Some ==> first_problem(seq![challenge] + challenges) == challenge.error,
        challenge.error is None ==> first_problem(seq![challenge] + challenges) == first_problem(
            challenges,
        ),
{
    assert((seq![challenge] + challenges).skip(1) =~= challenges);
}

/// An authorization is put in words by its state, and by the identifier where the state names one. A
/// failed one gives the reason where one is known: that of a challenge, or else the server's own.
pub proof fn law_authorizations(
    identifier: Identifier,
    challenges: Vec<Challenge>,
    error: String,
)
    ensures
        (Auth::Pending { identifier, challenges }).text() == "authorization for "@
            + identifier.text() + " is pending"@,
        Auth::Valid.text() == "authorization is valid"@,
        Auth::Revoked.text() == "authorization was revoked"@,
        Auth::Expired.text() == "authorization has expired"@,
        (forall|i: int| 0 <= i < challenges@.len() ==> (#[trigger] challenges@[i]).error is None)
            ==> (Auth::Invalid { identifier, challenges, error: Some(error) }).text()
            == "authorization for "@ + identifier.text() + " failed"@ + (": "@ + error@),
        (forall|i: int| 0 <= i < challenges@.len() ==> (#[trigger] challenges@[i]).error is None)
            ==> (Auth::Invalid { identifier, challenges, error: None }).text()
            == "authorization for "@ + identifier.text() + " failed"@,
{
    if forall|i: int| 0 <= i < challenges@.len() ==> (#[trigger] challenges@[i]).error is None {
        lemma_no_problem(challenges@);
        assert("authorization for "@ + identifier.text() + " failed"@ + Seq::<char>::empty()
            =~= "authorization for "@ + identifier.text() + " failed"@);
    }
}

proof fn lemma_no_problem(challenges: Seq<Challenge>)
    requires
        forall|i: int| 0 <= i < challenges.len() ==> (#[trigger] challenges[i]).error is None,
    ensures
        first_problem(challenges) is None,
    decreases challenges.len(),
{
    if challenges.len() > 0 {
        let rest = challenges.skip(1);
        assert forall|i: int| 0 <= i < rest.len() implies (#[trigger] rest[i]).error is None by {
            assert(rest[i] == challenges[i + 1]);
        }
        lemma_no_problem(rest);
    }
}

/// Lists of texts are shown one by one, with a comma and a space before each but the first.
pub proof fn law_lists(texts: Seq<String>, text: String)
    ensures
        shown_list(seq![]) == Seq::<char>::empty(),
        shown_list(seq![text]) == shown(text@),
        texts.len() > 0 ==> shown_list(texts.push(text)) == shown_list(texts) + ", "@ + shown(
            text@,
        ),
{
    assert(texts.push(text).drop_last() =~= texts);
}

/// An order is shown by the name of its state and by all that the state holds.
pub proof fn law_orders(authorizations: Vec<String>, finalize: String, certificate: String)
    ensures
        (Order::Pending { authorizations, finalize }).debug_text()
            == "Pending { authorizations: ["@ + shown_list(authorizations@) + "], finalize: "@
            + shown(finalize@) + " }"@,
        (Order::Processing { authorizations, finalize }).debug_text()
            == "Processing { authorizations: ["@ + shown_list(authorizations@) + "], finalize: "@
            + shown(finalize@) + " }"@,
        (Order::Ready { finalize }).debug_text() == "Ready { finalize: "@ + shown(finalize@)
            + " }"@,
        (Order::Valid { certificate }).debug_text() == "Valid { certificate: "@ + shown(
            certificate@,
        ) + " }"@,
        Order::Invalid.debug_text() == "Invalid"@,
{
}

/// An error is put in words by what it is and by all that it holds.
pub proof fn law_errors(
    e: IoError,
    message: String,
    name: &'static str,
    status: u16,
    cooldown: Duration,
)
    ensures
        AcmeError::Io(e).text() == "io error: "@ + e.message@,
        AcmeError::Json(message).text() == "JSON error: "@ + message@,
        AcmeError::HttpRequest(message).text() == "http request error: "@ + message@,
        AcmeError::MissingHeader(name).text() == "acme service response is missing "@ + name@
            + " header"@,
        AcmeError::NoTlsAlpn01Challenge.text() == "no tls-alpn-01 challenge found"@,
        AcmeError::HttpStatus(status).text() == "HTTP Status "@ + decimal(status as nat)
            + " indicates error"@,
        (AcmeError::RateLimited { retry_after: Some(cooldown) }).text()
            == "HTTP Status 429 (Too Many Requests)"@ + (" (Retry-After: "@ + decimal(
            cooldown@ / 1_000_000_000,
        ) + "s)"@),
        (AcmeError::RateLimited { retry_after: None }).text()
            == "HTTP Status 429 (Too Many Requests)"@,
        AcmeError::RcgenError(message).text() == "Could not create Certificate: "@ + message@,
        AcmeError::Cache(message).text() == "error from cache: "@ + message@,
{
    assert("HTTP Status 429 (Too Many Requests)"@ + Seq::<char>::empty()
        =~= "HTTP Status 429 (Too Many Requests)"@);
}

/// An error in ordering a certificate is put in words by what went wrong.
pub proof fn law_order_errors(
    e: AcmeError,
    message: String,
    order: Order,
    auth: Auth,
    identifier: Identifier,
)
    ensures
        OrderError::Acme(e).text() == "acme error: "@ + e.text(),
        OrderError::Rcgen(message).text() == "certificate generation error: "@ + message@,
        OrderError::BadOrder(order).text() == "bad order object: "@ + order.debug_text(),
        OrderError::BadAuth(auth).text() == auth.text(),
        OrderError::TooManyAttemptsAuth(identifier).text() == "authorization for "@
            + identifier.text() + " failed too many times"@,
{
}

} // verus!
