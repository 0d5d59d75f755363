//! SHA-256, and the key pairs that requests are signed with.

use ring::error::Unspecified;
use ring::rand::SystemRandom;
use ring::signature::{EcdsaKeyPair, KeyPair, ECDSA_P256_SHA256_FIXED_SIGNING};
use vstd::prelude::*;

verus! {

/// SHA-256 is defined for so many bytes and no more.
pub const SHA256_MAX_LEN: u64 = 0x1fff_ffff_ffff_ffff;

/// The length of a SHA-256 digest, and of a coordinate of a point on the curve P-256.
pub const COORDINATE_LEN: usize = 32;

/// The SHA-256 digest of `data`.
pub uninterp spec fn sha256_digest(data: Seq<u8>) -> Seq<u8>;

/// `ring::digest::digest` with its algorithm `SHA256`: the digest of the data, which is 32 bytes
/// long.
#[verifier::external_body]
pub(crate) fn sha256(data: &[u8]) -> (r: Vec<u8>)
    requires
        data@.len() <= SHA256_MAX_LEN,
    ensures
        r@ == sha256_digest(data@),
        r@.len() == COORDINATE_LEN,
{
    ring::digest::digest(&ring::digest::SHA256, data).as_ref().to_vec()
}

/// The public key in the PKCS#8 document `pkcs8`, or the reason why that holds no P-256 key pair.
pub uninterp spec fn p256_public_key(pkcs8: Seq<u8>) -> Result<Seq<u8>, Seq<char>>;

/// Whether the PKCS#8 document `pkcs8` can be rejected for `reason`: where it holds no P-256 key
/// pair, for that reason alone; where it holds one, for want of random numbers alone, which is told
/// apart from the others.
pub open spec fn is_rejection(pkcs8: Seq<u8>, reason: Seq<char>) -> bool {
    match p256_public_key(pkcs8) {
        Ok(_) => reason == "RNG failed"@,
        Err(e) => reason == e && reason != "RNG failed"@,
    }
}

/// Whether `signature` is a signature of `message` for the public key `public_key`, made with
/// ECDSA on the curve P-256 and with SHA-256: what `ring::signature::UnparsedPublicKey::verify`
/// says with the algorithm `ECDSA_P256_SHA256_FIXED`.
pub uninterp spec fn es256_signature(
    public_key: Seq<u8>,
    message: Seq<u8>,
    signature: Seq<u8>,
) -> bool;

/// The error of `ring` that says no more than that something failed.
#[verifier::external_type_specification]
#[verifier::external_body]
pub struct ExUnspecified(Unspecified);

/// `ring::signature::EcdsaKeyPair::from_pkcs8` with its algorithm
/// `ECDSA_P256_SHA256_FIXED_SIGNING`, and the public key of the pair that it gives: an
/// uncompressed point, which is a byte of value 4 and two coordinates of 32 bytes. An error is
/// given by its message. The document is read first: one that holds no such key pair is rejected,
/// and the reason depends on the document alone. One that does is rejected only where the system
/// gives no random numbers, for a reason of its own.
#[verifier::external_body]
fn public_key_of(pkcs8: &[u8]) -> (r: Result<Vec<u8>, String>)
    ensures
        r is Ok ==> p256_public_key(pkcs8@) == Ok::<Seq<u8>, Seq<char>>(r->Ok_0@),
        r is Ok ==> r->Ok_0@.len() == 1 + 2 * COORDINATE_LEN && r->Ok_0@[0] == 4,
        r is Err ==> is_rejection(pkcs8@, r->Err_0@),
{
    let rng = SystemRandom::new();
    let pair = EcdsaKeyPair::from_pkcs8(&ECDSA_P256_SHA256_FIXED_SIGNING, pkcs8, &rng)
        .map_err(|e| e.to_string())?;
    Ok(pair.public_key().as_ref().to_vec())
}

/// `ring::signature::EcdsaKeyPair::sign`, for the pair that `pkcs8` holds: a signature of the
/// message. Signatures of one message differ, and there is none where the system gives no random
/// numbers.
#[verifier::external_body]
fn sign_with(pkcs8: &[u8], message: &[u8]) -> (r: Result<Vec<u8>, Unspecified>)
    requires
        message@.len() <= SHA256_MAX_LEN,
    ensures
        r is Ok ==> p256_public_key(pkcs8@) is Ok,
        r is Ok ==> es256_signature(p256_public_key(pkcs8@)->Ok_0, message@, r->Ok_0@),
        r is Ok ==> r->Ok_0@.len() == 2 * COORDINATE_LEN,
{
    let rng = SystemRandom::new();
    let pair = EcdsaKeyPair::from_pkcs8(&ECDSA_P256_SHA256_FIXED_SIGNING, pkcs8, &rng)?;
    Ok(pair.sign(&rng, message)?.as_ref().to_vec())
}

/// A key pair for ECDSA on the curve P-256, with SHA-256.
pub struct EcdsaP256SHA256KeyPair {
    pkcs8: Vec<u8>,
    public_key: Vec<u8>,
}

impl EcdsaP256SHA256KeyPair {
    /// The public key is that of the document, and an uncompressed point.
    #[verifier::type_invariant]
    spec fn well_formed(self) -> bool {
        &&& p256_public_key(self.pkcs8@) == Ok::<Seq<u8>, Seq<char>>(self.public_key@)
        &&& self.public_key@.len() == 1 + 2 * COORDINATE_LEN
        &&& self.public_key@[0] == 4
    }

    /// The PKCS#8 document that holds the pair.
    pub closed spec fn document(&self) -> Seq<u8> {
        self.pkcs8@
    }

    /// The public key, as an uncompressed point.
    pub closed spec fn point(&self) -> Seq<u8> {
        self.public_key@
    }

    /// The first coordinate of the public key.
    pub open spec fn x(&self) -> Seq<u8> {
        self.point().subrange(1, 33)
    }

    /// The second coordinate of the public key.
    pub open spec fn y(&self) -> Seq<u8> {
        self.point().subrange(33, 65)
    }

    /// Takes the key pair out of a PKCS#8 document.
    ///
    /// A document that holds none is rejected, with the reason. One that does is taken, unless the
    /// system gives no random numbers, which is a reason of its own.
    pub fn from_pkcs8(pkcs8: Vec<u8>) -> (r: Result<Self, String>)
        ensures
            match r {
                Ok(pair) => {
                    &&& pair.document() == pkcs8@
                    &&& p256_public_key(pkcs8@) == Ok::<Seq<u8>, Seq<char>>(pair.point())
                },
                Err(reason) => is_rejection(pkcs8@, reason@),
            },
    {
        match public_key_of(pkcs8.as_slice()) {
            Ok(public_key) => Ok(EcdsaP256SHA256KeyPair { pkcs8, public_key }),
            Err(e) => Err(e),
        }
    }

    /// The public key: a byte of value 4, then the two coordinates in 32 bytes each.
    pub fn public_key(&self) -> (r: &[u8])
        ensures
            r@ == self.point(),
            r@.len() == 1 + 2 * COORDINATE_LEN,
            r@[0] == 4,
    {
        proof {
            use_type_invariant(self);
        }
        self.public_key.as_slice()
    }

    /// Signs `message`. It fails where the system gives no random numbers.
    pub fn sign(&self, message: &[u8]) -> (r: Result<Vec<u8>, Unspecified>)
        requires
            message@.len() <= SHA256_MAX_LEN,
        ensures
            r matches Ok(signature) ==> {
                &&& es256_signature(self.point(), message@, signature@)
                &&& signature@.len() == 2 * COORDINATE_LEN
            },
    {
        proof {
            use_type_invariant(self);
        }
        sign_with(self.pkcs8.as_slice(), message)
    }
}

} // verus!
