//! A certificate with its key, and how it is read from PEM.

use crate::acme::AcmeError;
use rustls::pki_types::pem::PemObject;
use rustls::pki_types::{CertificateDer, PrivateKeyDer};
use rustls::SignatureAlgorithm;
use vstd::prelude::*;
use vstd::utf8::encode_utf8;

verus! {

/// How a private key is encoded.
#[derive(Clone, Copy, Debug, PartialEq, Eq, Structural)]
pub enum KeyEncoding {
    /// PKCS#1, for RSA.
    Pkcs1,
    /// SEC1, for elliptic curves.
    Sec1,
    /// PKCS#8.
    Pkcs8,
}

/// A private key.
pub struct PrivateKey {
    /// How it is encoded.
    pub encoding: KeyEncoding,
    /// The key, as DER.
    pub der: Vec<u8>,
}

/// A chain of certificates with the key for the first of them.
pub struct CertifiedKey {
    /// The certificates, as DER.
    pub cert: Vec<Vec<u8>>,
    /// The key.
    pub key: PrivateKey,
}

/// The bytes of each certificate.
pub open spec fn chain_bytes(chain: Seq<Vec<u8>>) -> Seq<Seq<u8>> {
    chain.map_values(|cert: Vec<u8>| cert@)
}

impl View for CertifiedKey {
    type V = (Seq<Seq<u8>>, KeyEncoding, Seq<u8>);

    open spec fn view(&self) -> (Seq<Seq<u8>>, KeyEncoding, Seq<u8>) {
        (chain_bytes(self.cert@), self.key.encoding, self.key.der@)
    }
}

/// The certificates in the PEM text `pem`, or the message of the error that the first section that
/// cannot be read gives.
pub uninterp spec fn pem_certificates(pem: Seq<u8>) -> Result<Seq<Seq<u8>>, Seq<char>>;

/// `CertificateDer::pem_slice_iter` of `rustls::pki_types`: the certificates in a PEM text, one
/// after the other, up to the first section that cannot be read. An error is given by its message.
#[verifier::external_body]
fn certificates_from_pem(pem: &[u8]) -> (r: Result<Vec<Vec<u8>>, String>)
    ensures
        r is Ok ==> pem_certificates(pem@) == Ok::<Seq<Seq<u8>>, Seq<char>>(
            chain_bytes(r->Ok_0@),
        ),
        r is Err ==> pem_certificates(pem@) == Err::<Seq<Seq<u8>>, Seq<char>>(r->Err_0@),
{
    CertificateDer::pem_slice_iter(pem)
        .map(|cert| cert.map(|cert| cert.as_ref().to_vec()))
        .collect::<Result<_, _>>()
        .map_err(|e| e.to_string())
}

/// The first private key in the PEM text `pem`, or the message of the error that reading it gives.
pub uninterp spec fn pem_private_key(pem: Seq<u8>) -> Result<(KeyEncoding, Seq<u8>), Seq<char>>;

/// `PrivateKeyDer::from_pem_slice` of `rustls::pki_types`: the first private key in a PEM text. An
/// error is given by its message.
#[verifier::external_body]
fn private_key_from_pem(pem: &[u8]) -> (r: Result<PrivateKey, String>)
    ensures
        r is Ok ==> pem_private_key(pem@) == Ok::<(KeyEncoding, Seq<u8>), Seq<char>>(
            (r->Ok_0.encoding, r->Ok_0.der@),
        ),
        r is Err ==> pem_private_key(pem@) == Err::<(KeyEncoding, Seq<u8>), Seq<char>>(
            r->Err_0@,
        ),
{
    let key = PrivateKeyDer::from_pem_slice(pem).map_err(|e| e.to_string())?;
    let encoding = match &key {
        PrivateKeyDer::Pkcs1(_) => KeyEncoding::Pkcs1,
        PrivateKeyDer::Sec1(_) => KeyEncoding::Sec1,
        _ => KeyEncoding::Pkcs8,
    };
    Ok(PrivateKey { encoding, der: key.secret_der().to_vec() })
}

/// What a private key signs with.
#[derive(Clone, Copy, Debug, PartialEq, Eq, Structural)]
pub enum KeyAlgorithm {
    /// RSA.
    Rsa,
    /// ECDSA.
    Ecdsa,
    /// Ed25519, which is EdDSA on the curve edwards25519.
    Ed25519,
}

/// What a private key signs with, where it can be used for signing.
pub uninterp spec fn signing_algorithm(encoding: KeyEncoding, der: Seq<u8>) -> Option<KeyAlgorithm>;

/// Whether a private key can be refused: where it cannot be used for signing, and where random
/// numbers are needed to try it, which holds of ECDSA alone and so of no key in PKCS#1.
pub open spec fn can_be_refused(encoding: KeyEncoding, der: Seq<u8>) -> bool {
    match signing_algorithm(encoding, der) {
        Some(algorithm) => algorithm is Ecdsa && encoding !is Pkcs1,
        None => true,
    }
}

/// `rustls::crypto::ring::sign::any_supported_type`, and what the signing key that it gives signs
/// with: one of RSA, ECDSA and Ed25519. A key that cannot be used for signing is refused, with a
/// message that is always the same. A key for ECDSA, which is in SEC1 or PKCS#8, may be refused
/// too, where the system gives no random numbers; no other key needs them.
#[verifier::external_body]
fn check_signing_key(key: &PrivateKey) -> (r: Result<KeyAlgorithm, String>)
    ensures
        r is Ok ==> signing_algorithm(key.encoding, key.der@) == Some(r->Ok_0),
        r is Err ==> r->Err_0@
            == "unexpected error: failed to parse private key as RSA, ECDSA, or EdDSA"@,
        r is Err ==> can_be_refused(key.encoding, key.der@),
{
    let der = match key.encoding {
        KeyEncoding::Pkcs1 => PrivateKeyDer::Pkcs1(key.der.as_slice().into()),
        KeyEncoding::Sec1 => PrivateKeyDer::Sec1(key.der.as_slice().into()),
        KeyEncoding::Pkcs8 => PrivateKeyDer::Pkcs8(key.der.as_slice().into()),
    };
    let signing_key =
        rustls::crypto::ring::sign::any_supported_type(&der).map_err(|e| e.to_string())?;
    match signing_key.algorithm() {
        SignatureAlgorithm::RSA => Ok(KeyAlgorithm::Rsa),
        SignatureAlgorithm::ED25519 => Ok(KeyAlgorithm::Ed25519),
        _ => Ok(KeyAlgorithm::Ecdsa),
    }
}

/// The certificates with the key, for what came of reading them and of trying the key. The first
/// error of these counts, and is one of the cache that the two were kept in.
pub fn certify(
    chain: Result<Vec<Vec<u8>>, String>,
    key: Result<PrivateKey, String>,
    usable: Result<(), String>,
) -> (r: Result<CertifiedKey, AcmeError>)
    ensures
        match (chain, key, usable) {
            (Err(message), _, _) => r == Err::<CertifiedKey, AcmeError>(AcmeError::Cache(message)),
            (Ok(_), Err(message), _) => r == Err::<CertifiedKey, AcmeError>(
                AcmeError::Cache(message),
            ),
            (Ok(_), Ok(_), Err(message)) => r == Err::<CertifiedKey, AcmeError>(
                AcmeError::Cache(message),
            ),
            (Ok(cert), Ok(key), Ok(_)) => r == Ok::<CertifiedKey, AcmeError>(
                CertifiedKey { cert, key },
            ),
        },
{
    let cert = match chain {
        Ok(cert) => cert,
        Err(message) => {
            return Err(AcmeError::cache(message));
        },
    };
    let key = match key {
        Ok(key) => key,
        Err(message) => {
            return Err(AcmeError::cache(message));
        },
    };
    match usable {
        Ok(_) => Ok(CertifiedKey { cert, key }),
        Err(message) => Err(AcmeError::cache(message)),
    }
}

/// Whether `e` is an error of the cache with the message `message`.
pub open spec fn is_cache_error(e: AcmeError, message: Seq<char>) -> bool {
    e matches AcmeError::Cache(m) && m@ == message
}

/// Whether reading certificates and their key from the PEM texts `cert_pem` and `key_pem` can give
/// `r`.
///
/// It fails where either cannot be read, the certificates first, and where the key cannot be used
/// for signing. A key that can be used is refused only where it is one for ECDSA and the system
/// gives no random numbers to try it with.
pub open spec fn loads_as(
    key_pem: Seq<char>,
    cert_pem: Seq<char>,
    r: Result<CertifiedKey, AcmeError>,
) -> bool {
    match (pem_certificates(encode_utf8(cert_pem)), pem_private_key(encode_utf8(key_pem))) {
        (Err(message), _) => r is Err && is_cache_error(r->Err_0, message),
        (Ok(_), Err(message)) => r is Err && is_cache_error(r->Err_0, message),
        (Ok(chain), Ok((encoding, der))) => match r {
            Ok(key) => signing_algorithm(encoding, der) is Some && key@ == (
                chain,
                encoding,
                der,
            ),
            Err(e) => {
                &&& is_cache_error(
                    e,
                    "unexpected error: failed to parse private key as RSA, ECDSA, or EdDSA"@,
                )
                &&& can_be_refused(encoding, der)
            },
        },
    }
}

/// Reads certificates and their key from PEM.
pub fn load_certified_key(key_pem: &str, cert_pem: &str) -> (r: Result<CertifiedKey, AcmeError>)
    ensures
        loads_as(key_pem@, cert_pem@, r),
{
    let chain = certificates_from_pem(cert_pem.as_bytes());
    let key = private_key_from_pem(key_pem.as_bytes());
    let usable = match &key {
        Ok(key) => match check_signing_key(key) {
            Ok(_) => Ok(()),
            Err(message) => Err(message),
        },
        Err(_) => Ok(()),
    };
    certify(chain, key, usable)
}

/// The same PEM texts give the same certificates and the same key, whenever they are read.
pub proof fn law_loads_agree(
    key_pem: Seq<char>,
    cert_pem: Seq<char>,
    a: CertifiedKey,
    b: CertifiedKey,
)
    requires
        loads_as(key_pem, cert_pem, Ok(a)),
        loads_as(key_pem, cert_pem, Ok(b)),
    ensures
        a@ == b@,
{
}

/// What is read is what the texts hold: all the certificates, in their order, and the key as it is
/// encoded, which is one that can sign.
pub proof fn law_loads_what_was_written(
    key_pem: Seq<char>,
    cert_pem: Seq<char>,
    key: CertifiedKey,
)
    requires
        loads_as(key_pem, cert_pem, Ok(key)),
    ensures
        pem_certificates(encode_utf8(cert_pem)) is Ok,
        pem_certificates(encode_utf8(cert_pem))->Ok_0.len() == key.cert@.len(),
        forall|i: int|
            0 <= i < key.cert@.len() ==> pem_certificates(encode_utf8(cert_pem))->Ok_0[i]
                == #[trigger] key.cert@[i]@,
        pem_private_key(encode_utf8(key_pem)) == Ok::<(KeyEncoding, Seq<u8>), Seq<char>>(
            (key.key.encoding, key.key.der@),
        ),
        signing_algorithm(key.key.encoding, key.key.der@) is Some,
{
    assert(key@.0 == chain_bytes(key.cert@));
}

/// Texts that hold certificates, or none of them, and a key for RSA or Ed25519 are read.
pub proof fn law_loads_what_can_be_read(
    key_pem: Seq<char>,
    cert_pem: Seq<char>,
    encoding: KeyEncoding,
    der: Seq<u8>,
    r: Result<CertifiedKey, AcmeError>,
)
    requires
        pem_certificates(encode_utf8(cert_pem)) is Ok,
        pem_private_key(encode_utf8(key_pem)) == Ok::<(KeyEncoding, Seq<u8>), Seq<char>>(
            (encoding, der),
        ),
        signing_algorithm(encoding, der) == Some(KeyAlgorithm::Rsa) || signing_algorithm(
            encoding,
            der,
        ) == Some(KeyAlgorithm::Ed25519),
        loads_as(key_pem, cert_pem, r),
    ensures
        r is Ok,
        r->Ok_0.key.encoding == encoding,
        r->Ok_0.key.der@ == der,
        r->Ok_0.cert@.len() == pem_certificates(encode_utf8(cert_pem))->Ok_0.len(),
{
    assert(r->Ok_0@.0 == chain_bytes(r->Ok_0.cert@));
}

/// Texts that cannot be read, or that hold a key that cannot sign, give an error of the cache with
/// the message that goes with it. The certificates are looked at first.
pub proof fn law_load_errors(
    key_pem: Seq<char>,
    cert_pem: Seq<char>,
    r: Result<CertifiedKey, AcmeError>,
)
    requires
        loads_as(key_pem, cert_pem, r),
    ensures
        r is Err ==> r->Err_0 is Cache,
        pem_certificates(encode_utf8(cert_pem)) matches Err(message) ==> r is Err
            && r->Err_0->Cache_0@ == message,
        pem_certificates(encode_utf8(cert_pem)) is Ok ==> (pem_private_key(encode_utf8(key_pem))
            matches Err(message) ==> r is Err && r->Err_0->Cache_0@ == message),
        pem_certificates(encode_utf8(cert_pem)) is Ok ==> (pem_private_key(encode_utf8(key_pem))
            matches Ok((encoding, der)) ==> {
            &&& signing_algorithm(encoding, der) is None ==> r is Err
            &&& r is Err ==> r->Err_0->Cache_0@
                == "unexpected error: failed to parse private key as RSA, ECDSA, or EdDSA"@
        }),
{
}

} // verus!
