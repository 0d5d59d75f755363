use async_acme::acme::{AcmeError, ErrorKind};
use async_acme::crypto::EcdsaP256SHA256KeyPair;
use async_acme::jose::{jose_req, key_authorization_sha256, Body, Jwk, Protected};
use base64::engine::general_purpose::URL_SAFE_NO_PAD;
use base64::Engine;
use ring::rand::SystemRandom;
use ring::signature::{
    EcdsaKeyPair, UnparsedPublicKey, ECDSA_P256_SHA256_FIXED, ECDSA_P256_SHA256_FIXED_SIGNING,
};

// The key of RFC 7515, appendix A.3.
const D: &str = "jpsQnnGQmL-YBIffH1136cspYG6-0iY7X1fCE9-E9LI";
const X: &str = "f83OJ3D2xF1Bg8vub9tLe1gHMzV76e8Tus9uPHvRVEU";
const Y: &str = "x_FEzRu9m36HLN_tue659LNpXW6pCyStikYjKIWI5a0";

fn bytes(text: &str) -> Vec<u8> {
    URL_SAFE_NO_PAD.decode(text).unwrap()
}

fn text(base64: &str) -> String {
    String::from_utf8(bytes(base64)).unwrap()
}

fn document() -> Vec<u8> {
    let mut der = vec![
        0x30, 0x81, 0x87, 0x02, 0x01, 0x00, 0x30, 0x13, 0x06, 0x07, 0x2a, 0x86, 0x48, 0xce, 0x3d,
        0x02, 0x01, 0x06, 0x08, 0x2a, 0x86, 0x48, 0xce, 0x3d, 0x03, 0x01, 0x07, 0x04, 0x6d, 0x30,
        0x6b, 0x02, 0x01, 0x01, 0x04, 0x20,
    ];
    der.extend(bytes(D));
    der.extend([0xa1, 0x44, 0x03, 0x42, 0x00, 0x04]);
    der.extend(bytes(X));
    der.extend(bytes(Y));
    der
}

fn key() -> EcdsaP256SHA256KeyPair {
    EcdsaP256SHA256KeyPair::from_pkcs8(document()).unwrap()
}

#[test]
fn key_pairs_are_read() {
    let key = key();
    let point = key.public_key();
    assert_eq!(point.len(), 65);
    assert_eq!(point[0], 4);
    assert_eq!(&point[1..33], bytes(X));
    assert_eq!(&point[33..], bytes(Y));
}

#[test]
fn other_documents_are_rejected() {
    let reason = |der: Vec<u8>| EcdsaP256SHA256KeyPair::from_pkcs8(der).err().unwrap();
    assert_eq!(reason(vec![]), "InvalidEncoding");
    let mut other_public_key = document();
    *other_public_key.last_mut().unwrap() ^= 1;
    assert_eq!(reason(other_public_key), "InconsistentComponents");
    let mut other_version = document();
    other_version[5] = 2;
    assert_eq!(reason(other_version), "VersionNotSupported");
    let mut other_curve = document();
    other_curve[26] = 1;
    assert_eq!(reason(other_curve), "WrongAlgorithm");
}

#[test]
fn generated_key_pairs_sign() {
    let rng = SystemRandom::new();
    let pkcs8 = EcdsaKeyPair::generate_pkcs8(&ECDSA_P256_SHA256_FIXED_SIGNING, &rng).unwrap();
    let key = EcdsaP256SHA256KeyPair::from_pkcs8(pkcs8.as_ref().to_vec()).unwrap();
    let signature = key.sign(b"a message").unwrap();
    assert_eq!(signature.len(), 64);
    let public = UnparsedPublicKey::new(&ECDSA_P256_SHA256_FIXED, key.public_key());
    assert!(public.verify(b"a message", &signature).is_ok());
    assert!(public.verify(b"another message", &signature).is_err());
}

#[test]
fn keys_as_json() {
    assert_eq!(
        Jwk::new(&key()).json().unwrap(),
        format!(
            "{{\"alg\":\"ES256\",\"crv\":\"P-256\",\"kty\":\"EC\",\"use\":\"sig\",\"x\":\"{X}\",\"y\":\"{Y}\"}}"
        )
    );
}

#[test]
fn thumbprint() {
    assert_eq!(
        Jwk::new(&key()).thumb_sha256_base64().unwrap(),
        "oKIywvGUpTVTyxMQ3bwIIeQUudfr_CkLMjCE19ECD-U"
    );
}

#[test]
fn key_authorization() {
    let digest = key_authorization_sha256(&key(), "token").unwrap();
    assert_eq!(digest.len(), 32);
    let hex: String = digest.iter().map(|b| format!("{b:02x}")).collect();
    assert_eq!(
        hex,
        "984fb10aebf95946c81bf9d037bd521b59d74afa0125983062ac5e76b6de53d7"
    );
    assert_eq!(key_authorization_sha256(&key(), "token").unwrap(), digest);
    assert_ne!(key_authorization_sha256(&key(), "token2").unwrap(), digest);
}

#[test]
fn header_with_identifier() {
    let header = Protected::base64(
        None,
        Some("https://example.com/acct/1"),
        "abc",
        "https://example.com/new-order",
    );
    assert_eq!(
        header.unwrap(),
        "eyJhbGciOiJFUzI1NiIsImtpZCI6Imh0dHBzOi8vZXhhbXBsZS5jb20vYWNjdC8xIiwibm9uY2UiOiJhYmMiLCJ1cmwiOiJodHRwczovL2V4YW1wbGUuY29tL25ldy1vcmRlciJ9"
    );
}

#[test]
fn header_with_key() {
    let header = Protected::base64(
        Some(Jwk::new(&key())),
        None,
        "abc",
        "https://example.com/new-acct",
    );
    assert_eq!(
        header.unwrap(),
        "eyJhbGciOiJFUzI1NiIsImp3ayI6eyJhbGciOiJFUzI1NiIsImNydiI6IlAtMjU2Iiwia3R5IjoiRUMiLCJ1c2UiOiJzaWciLCJ4IjoiZjgzT0ozRDJ4RjFCZzh2dWI5dExlMWdITXpWNzZlOFR1czl1UEh2UlZFVSIsInkiOiJ4X0ZFelJ1OW0zNkhMTl90dWU2NTlMTnBYVzZwQ3lTdGlrWWpLSVdJNWEwIn0sIm5vbmNlIjoiYWJjIiwidXJsIjoiaHR0cHM6Ly9leGFtcGxlLmNvbS9uZXctYWNjdCJ9"
    );
}

#[test]
fn headers_are_escaped() {
    let odd: String = (0u8..128).map(char::from).chain("\u{e9}\u{1f600}".chars()).collect();
    let header = Protected::base64(None, Some(&odd), "\"", "\\").unwrap();
    let value: serde_json::Value = serde_json::from_str(&text(&header)).unwrap();
    assert_eq!(value["alg"], "ES256");
    assert_eq!(value["kid"], odd.as_str());
    assert_eq!(value["nonce"], "\"");
    assert_eq!(value["url"], "\\");
    // Members come in alphabetical order, so that they come out the same.
    assert_eq!(value.to_string(), text(&header));
    assert_eq!(value.as_object().unwrap().len(), 4);
}

#[test]
fn headers_tell_what_they_are_made_of() {
    let make = |kid: Option<&'static str>, nonce: &'static str, url: &'static str| {
        Protected::base64(None, kid, nonce, url).unwrap()
    };
    let all = [
        make(None, "n", "u"),
        make(Some(""), "n", "u"),
        make(Some("k"), "n", "u"),
        make(Some("k"), "n\",\"url\":\"u", "u"),
        make(Some("k\",\"nonce\":\"n"), "n", "u"),
        make(Some("k"), "u", "n"),
    ];
    for (i, a) in all.iter().enumerate() {
        for (j, b) in all.iter().enumerate() {
            assert_eq!(a == b, i == j, "{i} {j}");
        }
    }
}

fn check(body: &Body, key: &EcdsaP256SHA256KeyPair) {
    let message = format!("{}.{}", body.protected, body.payload);
    let public = UnparsedPublicKey::new(&ECDSA_P256_SHA256_FIXED, key.public_key());
    assert!(public
        .verify(message.as_bytes(), &bytes(&body.signature))
        .is_ok());
}

#[test]
fn requests_with_identifier_are_signed() {
    let key = key();
    let body = jose_req(&key, Some("acct"), "n", "http://h/u", "{\"a\":1}").unwrap();
    assert_eq!(
        text(&body.protected),
        "{\"alg\":\"ES256\",\"kid\":\"acct\",\"nonce\":\"n\",\"url\":\"http://h/u\"}"
    );
    assert_eq!(text(&body.payload), "{\"a\":1}");
    check(&body, &key);
}

#[test]
fn requests_with_key_are_signed() {
    let key = key();
    let body = jose_req(&key, None, "n", "http://h/u", "").unwrap();
    assert_eq!(
        text(&body.protected),
        format!(
            "{{\"alg\":\"ES256\",\"jwk\":{},\"nonce\":\"n\",\"url\":\"http://h/u\"}}",
            Jwk::new(&key).json().unwrap()
        )
    );
    assert_eq!(body.payload, "");
    check(&body, &key);
}

#[test]
fn bodies_as_json() {
    let body = Body {
        protected: "p".to_string(),
        payload: "q".to_string(),
        signature: "s".to_string(),
    };
    assert_eq!(
        body.json().unwrap(),
        "{\"protected\":\"p\",\"payload\":\"q\",\"signature\":\"s\"}"
    );
}

#[test]
fn what_came_of_signing() {
    let body = Body::signed("p".to_string(), "q".to_string(), Some(vec![0xfb, 0xff, 0xfe, 0x3e])).unwrap();
    assert_eq!(body.protected, "p");
    assert_eq!(body.payload, "q");
    assert_eq!(body.signature, "-__-Pg");
    let e = Body::signed("p".to_string(), "q".to_string(), None).unwrap_err();
    assert!(matches!(&e, AcmeError::Io(e)
        if e.kind == ErrorKind::InvalidData && e.message == "could not sign jose request"));
    assert_eq!(e.to_string(), "io error: could not sign jose request");
}
