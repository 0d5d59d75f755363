//! What a client and a server of the Automatic Certificate Management Environment (ACME,
//! [RFC 8555](https://datatracker.ietf.org/doc/html/rfc8555)) tell each other.

use crate::ip::IpAddr;
use crate::text::{decimal, push_numeral};
use crate::time::{Duration, NANOS_PER_SEC};
use vstd::prelude::*;

verus! {

/// URL of the staging directory of <https://letsencrypt.org/>. Use this for tests. See
/// <https://letsencrypt.org/docs/staging-environment/>
pub const LETS_ENCRYPT_STAGING_DIRECTORY: &'static str =
    "https://acme-staging-v02.api.letsencrypt.org/directory";

/// URL of the production directory of <https://letsencrypt.org/>. Most browsers trust its
/// certificates.
pub const LETS_ENCRYPT_PRODUCTION_DIRECTORY: &'static str =
    "https://acme-v02.api.letsencrypt.org/directory";

/// The ALPN protocol name of the TLS-ALPN challenge: `acme-tls/1` in ASCII.
pub const ACME_TLS_ALPN_NAME: &'static [u8; 10] = &[97, 99, 109, 101, 45, 116, 108, 115, 47, 49];

/// The directory of an ACME server: the URLs of its resources.
#[derive(Debug, Clone)]
pub struct Directory {
    /// Where nonces come from.
    pub new_nonce: String,
    /// Where accounts are made.
    pub new_account: String,
    /// Where certificates are ordered.
    pub new_order: String,
}

/// The name of the header that carries a nonce.
pub const REPLAY_NONCE: &'static str = "replay-nonce";

impl Directory {
    /// The nonce in the answer to a request to [`Directory::new_nonce`]: its header
    /// `replay-nonce`, which is an error where the answer has none that is text.
    pub fn nonce(&self, header: Option<HeaderValue>) -> (r: Result<String, AcmeError>)
        ensures
            r == header_text(header, REPLAY_NONCE),
    {
        get_header(header, REPLAY_NONCE)
    }
}

/// How control over an identifier is to be proved.
#[derive(Debug, Eq, PartialEq)]
pub enum ChallengeType {
    /// `http-01`
    Http01,
    /// `dns-01`
    Dns01,
    /// `tls-alpn-01`
    TlsAlpn01,
}

/// The state of an order.
#[derive(Debug)]
pub enum Order {
    /// The authorizations are still to be completed.
    Pending {
        /// The URLs of the authorizations.
        authorizations: Vec<String>,
        /// The URL that takes the certificate signing request.
        finalize: String,
    },
    /// The authorizations are done, and the certificate signing request can be sent.
    Ready {
        /// The URL that takes the certificate signing request.
        finalize: String,
    },
    /// The certificate can be downloaded.
    Valid {
        /// The URL of the certificate.
        certificate: String,
    },
    /// The order has failed.
    Invalid,
    /// The certificate is being issued.
    Processing {
        /// The URLs of the authorizations.
        authorizations: Vec<String>,
        /// The URL that takes the certificate signing request.
        finalize: String,
    },
}

/// The state of an authorization.
///
/// It is driven by triggering and completing challenges.
#[derive(Debug)]
pub enum Auth {
    /// A challenge is still to be completed.
    Pending {
        /// What is to be authorized.
        identifier: Identifier,
        /// The challenges, of which one is to be completed.
        challenges: Vec<Challenge>,
    },
    /// Control over the identifier is proved.
    Valid,
    /// A challenge failed. Its [`Challenge::error`] says why.
    Invalid {
        /// What could not be authorized.
        identifier: Identifier,
        /// The challenges.
        challenges: Vec<Challenge>,
        /// RFC 8555 has no error here, but what a server sends is kept: as JSON, and `None` where
        /// it is absent or `null`.
        error: Option<String>,
    },
    /// The server took the authorization back.
    Revoked,
    /// The authorization is too old.
    Expired,
}

/// What a certificate is for.
#[derive(Clone, Debug, PartialEq, Eq, PartialOrd, Ord)]
pub enum Identifier {
    /// A host name.
    Dns(String),
    /// An address.
    Ip(IpAddr),
}

/// The state of a [`Challenge`] (RFC 8555, section 7.1.6).
#[derive(Clone, Copy, Debug, Eq, PartialEq)]
pub enum ChallengeStatus {
    /// Not yet triggered.
    Pending,
    /// Triggered, and being validated.
    Processing,
    /// Validated.
    Valid,
    /// Validation failed.
    Invalid,
}

/// The problem document (RFC 7807) that a server attaches to a failed challenge (RFC 8555,
/// section 6.7).
#[derive(Clone, Debug, Eq, PartialEq)]
pub struct Problem {
    /// The type of the problem, a URI. Empty where the server gives none.
    pub typ: String,
    /// The problem in words.
    pub detail: Option<String>,
}

/// A way to prove control over an identifier.
#[derive(Debug)]
pub struct Challenge {
    /// How control is to be proved.
    pub typ: ChallengeType,
    /// The URL that triggers the validation.
    pub url: String,
    /// The token that the key authorization is made of.
    pub token: String,
    /// The state, where the server tells it (RFC 8555, section 8).
    pub status: Option<ChallengeStatus>,
    /// Why the validation failed, once the state is invalid (RFC 8555, section 8).
    pub error: Option<Problem>,
}

/// The value of a header.
#[derive(Clone, Debug)]
pub enum HeaderValue {
    /// A value that is text.
    Text(String),
    /// A value that is not.
    Opaque,
}

/// What kind of error of input or output it is.
#[derive(Clone, Copy, Debug, PartialEq, Eq)]
pub enum ErrorKind {
    /// What is asked for does not exist.
    NotFound,
    /// It is not allowed.
    PermissionDenied,
    /// The other side refused the connection.
    ConnectionRefused,
    /// The other side reset the connection.
    ConnectionReset,
    /// The other side ended the connection.
    ConnectionAborted,
    /// There is no connection.
    NotConnected,
    /// The address is in use.
    AddrInUse,
    /// The address is not to be had.
    AddrNotAvailable,
    /// The pipe was closed.
    BrokenPipe,
    /// What is to be made exists already.
    AlreadyExists,
    /// It would have to wait.
    WouldBlock,
    /// A parameter is not as it has to be.
    InvalidInput,
    /// Data is not as it has to be.
    InvalidData,
    /// It took too long.
    TimedOut,
    /// Nothing could be written.
    WriteZero,
    /// It was interrupted.
    Interrupted,
    /// It is not supported here.
    Unsupported,
    /// The data ended too early.
    UnexpectedEof,
    /// There is not enough memory.
    OutOfMemory,
    /// Anything else.
    Other,
}

/// An error of input or output.
#[derive(Clone, Debug)]
pub struct IoError {
    /// What kind it is.
    pub kind: ErrorKind,
    /// What it says.
    pub message: String,
}

/// What can go wrong in talking to an ACME server.
#[derive(Debug)]
pub enum AcmeError {
    /// Input or output failed, or data was not as it has to be.
    Io(IoError),
    /// JSON could not be read or written. Holds the message.
    Json(String),
    /// An HTTP request failed. Holds the message.
    HttpRequest(String),
    /// The answer lacks the header of this name.
    MissingHeader(&'static str),
    /// The server offers no `tls-alpn-01` challenge.
    NoTlsAlpn01Challenge,
    /// The answer has this status, which stands for an error.
    HttpStatus(u16),
    /// The answer is `429 Too Many Requests`.
    RateLimited {
        /// How long the server asks to wait. `None` means that it does not say, or not in a way
        /// that can be read, so that the caller goes by a default of its own. It does not mean
        /// that there is nothing to wait for.
        retry_after: Option<Duration>,
    },
    /// A certificate could not be made. Holds the message.
    RcgenError(String),
    /// The cache failed. Holds the message.
    Cache(String),
}

/// The value of the header `header`, or an error where the answer lacks it or where it is no text.
pub open spec fn header_text(value: Option<HeaderValue>, header: &'static str) -> Result<
    String,
    AcmeError,
> {
    match value {
        Some(HeaderValue::Text(text)) => Ok(text),
        Some(HeaderValue::Opaque) => Err(AcmeError::MissingHeader(header)),
        None => Err(AcmeError::MissingHeader(header)),
    }
}

/// Takes the value of the header `header`.
pub fn get_header(value: Option<HeaderValue>, header: &'static str) -> (r: Result<
    String,
    AcmeError,
>)
    ensures
        r == header_text(value, header),
{
    match value {
        Some(HeaderValue::Text(text)) => Ok(text),
        _ => Err(AcmeError::MissingHeader(header)),
    }
}

impl Identifier {
    /// The identifier as it is written.
    pub open spec fn text(&self) -> Seq<char> {
        match *self {
            Identifier::Dns(name) => name@,
            Identifier::Ip(address) => address.text(),
        }
    }

    /// Writes the identifier.
    pub fn to_string(&self) -> (r: String)
        ensures
            r@ == self.text(),
    {
        match self {
            Identifier::Dns(name) => name.clone(),
            Identifier::Ip(address) => address.to_string(),
        }
    }
}

impl Problem {
    /// The problem in words: the detail, or else the type, or else that neither is given.
    pub open spec fn text(&self) -> Seq<char> {
        match self.detail {
            Some(detail) => detail@,
            None => if self.typ@.len() == 0 {
                "no detail given"@
            } else {
                self.typ@
            },
        }
    }

    /// Puts the problem in words.
    pub fn to_string(&self) -> (r: String)
        ensures
            r@ == self.text(),
    {
        match &self.detail {
            Some(detail) => detail.clone(),
            None => if self.typ.as_str().is_empty() {
                "no detail given".to_string()
            } else {
                self.typ.clone()
            },
        }
    }
}

/// The problem of the first challenge that has one.
pub open spec fn first_problem(challenges: Seq<Challenge>) -> Option<Problem>
    decreases challenges.len(),
{
    if challenges.len() == 0 {
        None
    } else if challenges[0].error is Some {
        challenges[0].error
    } else {
        first_problem(challenges.skip(1))
    }
}

impl Auth {
    /// The authorization in words. Where it failed, the reason is that of the first challenge that
    /// has one, or else what the server sent for the authorization itself.
    pub open spec fn text(&self) -> Seq<char> {
        match *self {
            Auth::Pending { identifier, .. } => "authorization for "@ + identifier.text()
                + " is pending"@,
            Auth::Valid => "authorization is valid"@,
            Auth::Invalid { identifier, challenges, error } => "authorization for "@
                + identifier.text() + " failed"@ + match (first_problem(challenges@), error) {
                (Some(problem), _) => ": "@ + problem.text(),
                (None, Some(error)) => ": "@ + error@,
                (None, None) => seq![],
            },
            Auth::Revoked => "authorization was revoked"@,
            Auth::Expired => "authorization has expired"@,
        }
    }

    /// Puts the authorization in words.
    pub fn to_string(&self) -> (r: String)
        ensures
            r@ == self.text(),
    {
        match self {
            Auth::Pending { identifier, .. } => {
                let mut text = "authorization for ".to_string();
                text.append(identifier.to_string().as_str());
                text.append(" is pending");
                text
            },
            Auth::Valid => "authorization is valid".to_string(),
            Auth::Invalid { identifier, challenges, error } => {
                let mut text = "authorization for ".to_string();
                text.append(identifier.to_string().as_str());
                text.append(" failed");
                let ghost start = text@;
                let mut i: usize = 0;
                assert(challenges@.skip(0) =~= challenges@);
                while i < challenges.len()
                    invariant
                        i <= challenges.len(),
                        text@ == start,
                        start == "authorization for "@ + identifier.text() + " failed"@,
                        first_problem(challenges@) == first_problem(challenges@.skip(i as int)),
                        *self == (Auth::Invalid {
                            identifier: *identifier,
                            challenges: *challenges,
                            error: *error,
                        }),
                    decreases challenges.len() - i,
                {
                    assert(challenges@.skip(i as int)[0] == challenges@[i as int]);
                    if let Some(problem) = &challenges[i].error {
                        text.append(": ");
                        text.append(problem.to_string().as_str());
                        assert(text@ =~= self.text());
                        return text;
                    }
                    assert(challenges@.skip(i as int).skip(1) =~= challenges@.skip(i + 1));
                    i = i + 1;
                }
                if let Some(error) = error {
                    text.append(": ");
                    text.append(error.as_str());
                }
                assert(text@ =~= self.text());
                text
            },
            Auth::Revoked => "authorization was revoked".to_string(),
            Auth::Expired => "authorization has expired".to_string(),
        }
    }
}

/// `text` in the form that shows a string to a programmer: in quotes, and with what does not
/// print escaped.
pub uninterp spec fn shown(text: Seq<char>) -> Seq<char>;

/// `Debug` of the standard library for `str`.
#[verifier::external_body]
fn show(text: &str) -> (r: String)
    ensures
        r@ == shown(text@),
{
    format!("{:?}", text)
}

/// Texts in the form that shows them to a programmer, with commas between them.
pub open spec fn shown_list(texts: Seq<String>) -> Seq<char>
    decreases texts.len(),
{
    if texts.len() == 0 {
        seq![]
    } else if texts.len() == 1 {
        shown(texts[0]@)
    } else {
        shown_list(texts.drop_last()) + ", "@ + shown(texts.last()@)
    }
}

fn show_list(texts: &Vec<String>) -> (r: String)
    ensures
        r@ == shown_list(texts@),
{
    let mut text = String::new();
    let mut i: usize = 0;
    assert(text@ =~= shown_list(texts@.take(0)));
    while i < texts.len()
        invariant
            i <= texts.len(),
            text@ == shown_list(texts@.take(i as int)),
        decreases texts.len() - i,
    {
        let ghost upto = texts@.take(i + 1);
        assert(upto.drop_last() =~= texts@.take(i as int));
        if i > 0 {
            text.append(", ");
        }
        text.append(show(texts[i].as_str()).as_str());
        i = i + 1;
        assert(text@ =~= shown_list(upto));
    }
    assert(texts@.take(i as int) =~= texts@);
    text
}

impl Order {
    /// The order in the form that shows it to a programmer.
    pub open spec fn debug_text(&self) -> Seq<char> {
        match *self {
            Order::Pending { authorizations, finalize } => "Pending { authorizations: ["@
                + shown_list(authorizations@) + "], finalize: "@ + shown(finalize@) + " }"@,
            Order::Ready { finalize } => "Ready { finalize: "@ + shown(finalize@) + " }"@,
            Order::Valid { certificate } => "Valid { certificate: "@ + shown(certificate@) + " }"@,
            Order::Invalid => "Invalid"@,
            Order::Processing { authorizations, finalize } => "Processing { authorizations: ["@
                + shown_list(authorizations@) + "], finalize: "@ + shown(finalize@) + " }"@,
        }
    }

    /// Shows the order to a programmer.
    pub fn to_debug_string(&self) -> (r: String)
        ensures
            r@ == self.debug_text(),
    {
        let mut text = String::new();
        match self {
            Order::Pending { authorizations, finalize } => {
                text.append("Pending { authorizations: [");
                text.append(show_list(authorizations).as_str());
                text.append("], finalize: ");
                text.append(show(finalize.as_str()).as_str());
                text.append(" }");
            },
            Order::Ready { finalize } => {
                text.append("Ready { finalize: ");
                text.append(show(finalize.as_str()).as_str());
                text.append(" }");
            },
            Order::Valid { certificate } => {
                text.append("Valid { certificate: ");
                text.append(show(certificate.as_str()).as_str());
                text.append(" }");
            },
            Order::Invalid => {
                text.append("Invalid");
            },
            Order::Processing { authorizations, finalize } => {
                text.append("Processing { authorizations: [");
                text.append(show_list(authorizations).as_str());
                text.append("], finalize: ");
                text.append(show(finalize.as_str()).as_str());
                text.append(" }");
            },
        }
        assert(text@ =~= self.debug_text());
        text
    }
}

impl AcmeError {
    /// Whether this is the error that data is not as it has to be, with the message `message`.
    pub open spec fn is_invalid_data(&self, message: Seq<char>) -> bool {
        *self matches AcmeError::Io(e) && e.kind is InvalidData && e.message@ == message
    }

    /// The error that data is not as it has to be.
    pub(crate) fn invalid_data(message: &str) -> (r: Self)
        ensures
            r.is_invalid_data(message@),
    {
        AcmeError::Io(IoError { kind: ErrorKind::InvalidData, message: message.to_string() })
    }

    /// An error of the cache.
    pub fn cache(message: String) -> (r: Self)
        ensures
            r == AcmeError::Cache(message),
    {
        AcmeError::Cache(message)
    }

    /// The error in words.
    pub open spec fn text(&self) -> Seq<char> {
        match *self {
            AcmeError::Io(e) => "io error: "@ + e.message@,
            AcmeError::Json(message) => "JSON error: "@ + message@,
            AcmeError::HttpRequest(message) => "http request error: "@ + message@,
            AcmeError::MissingHeader(name) => "acme service response is missing "@ + name@
                + " header"@,
            AcmeError::NoTlsAlpn01Challenge => "no tls-alpn-01 challenge found"@,
            AcmeError::HttpStatus(status) => "HTTP Status "@ + decimal(status as nat)
                + " indicates error"@,
            AcmeError::RateLimited { retry_after } => "HTTP Status 429 (Too Many Requests)"@
                + match retry_after {
                Some(d) => " (Retry-After: "@ + decimal(d@ / NANOS_PER_SEC as nat) + "s)"@,
                None => seq![],
            },
            AcmeError::RcgenError(message) => "Could not create Certificate: "@ + message@,
            AcmeError::Cache(message) => "error from cache: "@ + message@,
        }
    }

    /// Puts the error in words.
    pub fn to_string(&self) -> (r: String)
        ensures
            r@ == self.text(),
    {
        let mut text = String::new();
        match self {
            AcmeError::Io(e) => {
                text.append("io error: ");
                text.append(e.message.as_str());
            },
            AcmeError::Json(message) => {
                text.append("JSON error: ");
                text.append(message.as_str());
            },
            AcmeError::HttpRequest(message) => {
                text.append("http request error: ");
                text.append(message.as_str());
            },
            AcmeError::MissingHeader(name) => {
                text.append("acme service response is missing ");
                text.append(name);
                text.append(" header");
            },
            AcmeError::NoTlsAlpn01Challenge => {
                text.append("no tls-alpn-01 challenge found");
            },
            AcmeError::HttpStatus(status) => {
                text.append("HTTP Status ");
                push_numeral(&mut text, *status as u64, 10);
                text.append(" indicates error");
            },
            AcmeError::RateLimited { retry_after } => {
                text.append("HTTP Status 429 (Too Many Requests)");
                if let Some(d) = retry_after {
                    text.append(" (Retry-After: ");
                    push_numeral(&mut text, d.as_secs(), 10);
                    text.append("s)");
                }
            },
            AcmeError::RcgenError(message) => {
                text.append("Could not create Certificate: ");
                text.append(message.as_str());
            },
            AcmeError::Cache(message) => {
                text.append("error from cache: ");
                text.append(message.as_str());
            },
        }
        assert(text@ =~= self.text());
        text
    }
}

/// A failed authorization names the reason that the server attached to a challenge: where a
/// challenge has a problem and none before it has, the words end with those of that problem.
pub proof fn law_failure_names_the_reason(
    identifier: Identifier,
    challenges: Vec<Challenge>,
    error: Option<String>,
    i: int,
)
    requires
        0 <= i < challenges@.len(),
        challenges@[i].error is Some,
        forall|j: int| 0 <= j < i ==> (#[trigger] challenges@[j]).error is None,
    ensures
        (Auth::Invalid { identifier, challenges, error }).text() == "authorization for "@
            + identifier.text() + " failed"@ + (": "@ + challenges@[i].error->0.text()),
{
    lemma_first_problem(challenges@, i);
}

proof fn lemma_first_problem(challenges: Seq<Challenge>, i: int)
    requires
        0 <= i < challenges.len(),
        challenges[i].error is Some,
        forall|j: int| 0 <= j < i ==> (#[trigger] challenges[j]).error is None,
    ensures
        first_problem(challenges) == challenges[i].error,
    decreases i,
{
    if i > 0 {
        let rest = challenges.skip(1);
        assert(challenges[0].error is None);
        assert forall|j: int| 0 <= j < i - 1 implies (#[trigger] rest[j]).error is None by {
            assert(rest[j] == challenges[j + 1]);
        }
        assert(rest[i - 1] == challenges[i]);
        lemma_first_problem(rest, i - 1);
    }
}

} // verus!
