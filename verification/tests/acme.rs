use async_acme::acme::{
    get_header, AcmeError, Auth, Challenge, ChallengeStatus, ChallengeType, Directory, ErrorKind,
    HeaderValue, Identifier, IoError, Order, Problem, ACME_TLS_ALPN_NAME, LETS_ENCRYPT_PRODUCTION_DIRECTORY,
    LETS_ENCRYPT_STAGING_DIRECTORY,
};
use async_acme::ip::IpAddr;
use async_acme::rustls_helper::OrderError;
use async_acme::time::Duration;

fn new_dir(host: &str, port: u16) -> Directory {
    Directory {
        new_nonce: format!("http://{}:{}/acme/new-nonce", host, port),
        new_account: format!("http://{}:{}/acme/new-acct", host, port),
        new_order: format!("http://{}:{}/acme/new-order", host, port),
    }
}

/// The headers of an answer, and the one of the given name.
fn header(headers: &[(&str, &str)], name: &str) -> Option<HeaderValue> {
    headers
        .iter()
        .find(|(n, _)| *n == name)
        .map(|(_, value)| HeaderValue::Text(value.to_string()))
}

#[test]
fn nonce() {
    let d = new_dir("127.0.0.1", 4000);
    assert_eq!(d.new_nonce, "http://127.0.0.1:4000/acme/new-nonce");
    let answer = [("Content-Length", "0"), ("replay-nonce", "abc")];
    assert_eq!(d.nonce(header(&answer, "replay-nonce")).unwrap(), "abc");
}

#[test]
fn a_missing_nonce_is_an_error() {
    for value in [None, Some(HeaderValue::Opaque)] {
        let e = new_dir("localhost", 80).nonce(value).unwrap_err();
        assert!(matches!(e, AcmeError::MissingHeader("replay-nonce")));
        assert_eq!(
            e.to_string(),
            "acme service response is missing replay-nonce header"
        );
    }
}

#[test]
fn headers_are_taken_as_text() {
    let value = Some(HeaderValue::Text("x y".to_string()));
    assert_eq!(get_header(value, "location").unwrap(), "x y");
    assert!(matches!(
        get_header(None, "location"),
        Err(AcmeError::MissingHeader("location"))
    ));
}

#[test]
fn constants() {
    assert_eq!(&ACME_TLS_ALPN_NAME[..], b"acme-tls/1");
    assert_eq!(
        LETS_ENCRYPT_STAGING_DIRECTORY,
        "https://acme-staging-v02.api.letsencrypt.org/directory"
    );
    assert_eq!(
        LETS_ENCRYPT_PRODUCTION_DIRECTORY,
        "https://acme-v02.api.letsencrypt.org/directory"
    );
}

fn dns() -> Identifier {
    Identifier::Dns("example.com".to_string())
}

fn challenge(error: Option<Problem>) -> Challenge {
    Challenge {
        typ: ChallengeType::TlsAlpn01,
        url: "http://example.com/chall".to_string(),
        token: "t".to_string(),
        status: Some(ChallengeStatus::Invalid),
        error,
    }
}

fn problem(typ: &str, detail: Option<&str>) -> Problem {
    Problem {
        typ: typ.to_string(),
        detail: detail.map(|d| d.to_string()),
    }
}

#[test]
fn problems_in_words() {
    assert_eq!(problem("urn:x", Some("because")).to_string(), "because");
    assert_eq!(problem("urn:x", Some("")).to_string(), "");
    assert_eq!(problem("urn:x", None).to_string(), "urn:x");
    assert_eq!(problem("", None).to_string(), "no detail given");
}

#[test]
fn identifiers_in_words() {
    assert_eq!(dns().to_string(), "example.com");
    assert_eq!(Identifier::Ip(IpAddr::V4([192, 0, 2, 1])).to_string(), "192.0.2.1");
    assert!(dns() < Identifier::Ip(IpAddr::V4([0; 4])));
}

#[test]
fn authorizations_in_words() {
    let pending = Auth::Pending {
        identifier: dns(),
        challenges: vec![],
    };
    assert_eq!(pending.to_string(), "authorization for example.com is pending");
    assert_eq!(Auth::Valid.to_string(), "authorization is valid");
    assert_eq!(Auth::Revoked.to_string(), "authorization was revoked");
    assert_eq!(Auth::Expired.to_string(), "authorization has expired");
}

#[test]
fn failed_authorizations_in_words() {
    let invalid = |challenges, error: Option<&str>| {
        Auth::Invalid {
            identifier: dns(),
            challenges,
            error: error.map(|e| e.to_string()),
        }
        .to_string()
    };
    assert_eq!(invalid(vec![], None), "authorization for example.com failed");
    assert_eq!(
        invalid(vec![challenge(None)], Some("{\"a\":1}")),
        "authorization for example.com failed: {\"a\":1}"
    );
    assert_eq!(
        invalid(
            vec![
                challenge(None),
                challenge(Some(problem("urn:x", Some("first")))),
                challenge(Some(problem("urn:x", Some("second")))),
            ],
            Some("{\"a\":1}")
        ),
        "authorization for example.com failed: first"
    );
}

#[test]
fn errors_in_words() {
    let m = || "m".to_string();
    let cases = [
        (
            AcmeError::Io(IoError { kind: ErrorKind::TimedOut, message: m() }),
            "io error: m",
        ),
        (AcmeError::Json(m()), "JSON error: m"),
        (AcmeError::HttpRequest(m()), "http request error: m"),
        (
            AcmeError::MissingHeader("location"),
            "acme service response is missing location header",
        ),
        (AcmeError::NoTlsAlpn01Challenge, "no tls-alpn-01 challenge found"),
        (AcmeError::HttpStatus(503), "HTTP Status 503 indicates error"),
        (
            AcmeError::RateLimited { retry_after: None },
            "HTTP Status 429 (Too Many Requests)",
        ),
        (
            AcmeError::RateLimited {
                retry_after: Some(Duration::new(90, 999_999_999)),
            },
            "HTTP Status 429 (Too Many Requests) (Retry-After: 90s)",
        ),
        (AcmeError::RcgenError(m()), "Could not create Certificate: m"),
        (AcmeError::cache(m()), "error from cache: m"),
    ];
    for (e, text) in cases {
        assert_eq!(e.to_string(), text);
    }
}

#[test]
fn order_errors_in_words() {
    assert_eq!(
        OrderError::from(AcmeError::HttpStatus(500)).to_string(),
        "acme error: HTTP Status 500 indicates error"
    );
    assert_eq!(
        OrderError::Rcgen("m".to_string()).to_string(),
        "certificate generation error: m"
    );
    assert_eq!(
        OrderError::BadAuth(Auth::Revoked).to_string(),
        "authorization was revoked"
    );
    assert_eq!(
        OrderError::TooManyAttemptsAuth(dns()).to_string(),
        "authorization for example.com failed too many times"
    );
}

#[test]
fn orders_are_shown_as_debug_shows_them() {
    let list = || vec!["a\"b".to_string(), "\u{301}\n".to_string()];
    let orders = [
        Order::Pending {
            authorizations: list(),
            finalize: "f".to_string(),
        },
        Order::Pending {
            authorizations: vec![],
            finalize: "".to_string(),
        },
        Order::Ready {
            finalize: "f".to_string(),
        },
        Order::Valid {
            certificate: "c\\".to_string(),
        },
        Order::Invalid,
        Order::Processing {
            authorizations: list(),
            finalize: "f".to_string(),
        },
    ];
    for order in orders {
        let text = format!("{order:?}");
        assert_eq!(order.to_debug_string(), text);
        assert_eq!(
            OrderError::BadOrder(order).to_string(),
            format!("bad order object: {text}")
        );
    }
}
