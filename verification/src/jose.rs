//! Requests as signed JSON (JSON Web Signatures, RFC 7515) and what comes back.

use crate::acme::{AcmeError, HeaderValue};
use crate::base64url::{base64url, encode, is_symbol, law_symbols_only};
use crate::crypto::{
    es256_signature, sha256, sha256_digest, EcdsaP256SHA256KeyPair, COORDINATE_LEN, SHA256_MAX_LEN,
};
use crate::json::{
    escaped_text, json_object, json_string, member_text, members_text, object, quote, Member,
};
use crate::retry_after::{http_date, nanos_of, parse_retry_after, wait};
use crate::text::{trim, trimmed};
use crate::time::{is_clock_reading, Duration};
use vstd::prelude::*;
use vstd::slice::slice_subrange;
use vstd::utf8::encode_utf8;

verus! {

/// Texts that go into a request have at most so many characters, so that all that is hashed stays
/// within what SHA-256 is defined for.
pub const MAX_TEXT_LEN: u64 = 0x1_0000_0000_0000;

/// A public key as a JSON Web Key (RFC 7517).
pub struct Jwk {
    x: String,
    y: String,
}

/// The members of the JSON Web Key with the coordinates `x` and `y`, in base64.
pub open spec fn jwk_members(x: Seq<char>, y: Seq<char>) -> Seq<(Seq<char>, Seq<char>)> {
    seq![
        ("alg"@, json_string("ES256"@)),
        ("crv"@, json_string("P-256"@)),
        ("kty"@, json_string("EC"@)),
        ("use"@, json_string("sig"@)),
        ("x"@, json_string(x)),
        ("y"@, json_string(y)),
    ]
}

/// The members that the thumbprint (RFC 7638) of that key is made of.
pub open spec fn thumb_members(x: Seq<char>, y: Seq<char>) -> Seq<(Seq<char>, Seq<char>)> {
    seq![
        ("crv"@, json_string("P-256"@)),
        ("kty"@, json_string("EC"@)),
        ("x"@, json_string(x)),
        ("y"@, json_string(y)),
    ]
}

/// The thumbprint of the key with the coordinates `x` and `y`, which are in base64: the digest
/// of its required members as JSON, in base64.
pub open spec fn thumbprint(x: Seq<char>, y: Seq<char>) -> Seq<char> {
    base64url(sha256_digest(encode_utf8(json_object(thumb_members(x, y)))))
}

/// Whether `text` can be 32 bytes in base64.
spec fn is_coordinate(text: Seq<char>) -> bool {
    &&& text.len() == 43
    &&& forall|i: int| 0 <= i < text.len() ==> is_symbol(#[trigger] text[i])
}

/// A member whose value is a string.
fn string_member(name: &'static str, value: &str) -> (r: Result<Member, AcmeError>)
    ensures
        r is Ok,
        r->Ok_0@ == (name@, json_string(value@)),
{
    match quote(value) {
        Ok(value) => Ok(Member { name, value }),
        Err(message) => Err(AcmeError::Json(message)),
    }
}

impl Jwk {
    /// The coordinates are 32 bytes in base64.
    #[verifier::type_invariant]
    spec fn well_formed(self) -> bool {
        &&& is_coordinate(self.x@)
        &&& is_coordinate(self.y@)
    }

    /// The first coordinate, in base64.
    pub closed spec fn x(&self) -> Seq<char> {
        self.x@
    }

    /// The second coordinate, in base64.
    pub closed spec fn y(&self) -> Seq<char> {
        self.y@
    }

    /// The public key of a key pair.
    pub fn new(key: &EcdsaP256SHA256KeyPair) -> (r: Self)
        ensures
            r.x() == base64url(key.x()),
            r.y() == base64url(key.y()),
            r.x().len() == 43,
            r.y().len() == 43,
    {
        let point = key.public_key();
        let x = encode(slice_subrange(point, 1, 1 + COORDINATE_LEN));
        let y = encode(slice_subrange(point, 1 + COORDINATE_LEN, 1 + 2 * COORDINATE_LEN));
        proof {
            law_symbols_only(key.x());
            law_symbols_only(key.y());
        }
        Jwk { x, y }
    }

    /// The key as JSON.
    pub fn json(&self) -> (r: Result<String, AcmeError>)
        ensures
            r is Ok,
            r->Ok_0@ == json_object(jwk_members(self.x(), self.y())),
    {
        let members = vec![
            string_member("alg", "ES256")?,
            string_member("crv", "P-256")?,
            string_member("kty", "EC")?,
            string_member("use", "sig")?,
            string_member("x", self.x.as_str())?,
            string_member("y", self.y.as_str())?,
        ];
        assert(members@.map_values(|m: Member| m@) =~= jwk_members(self.x@, self.y@));
        match object(&members) {
            Ok(json) => Ok(json),
            Err(message) => Err(AcmeError::Json(message)),
        }
    }

    /// The thumbprint of the key.
    pub fn thumb_sha256_base64(&self) -> (r: Result<String, AcmeError>)
        ensures
            r is Ok,
            r->Ok_0@ == thumbprint(self.x(), self.y()),
            r->Ok_0@.len() == 43,
    {
        proof {
            use_type_invariant(self);
        }
        let members = vec![
            string_member("crv", "P-256")?,
            string_member("kty", "EC")?,
            string_member("x", self.x.as_str())?,
            string_member("y", self.y.as_str())?,
        ];
        assert(members@.map_values(|m: Member| m@) =~= thumb_members(self.x@, self.y@));
        match object(&members) {
            Ok(json) => {
                proof {
                    lemma_thumb_len(self.x@, self.y@);
                    lemma_utf8_len(json@);
                }
                Ok(encode(sha256(json.as_str().as_bytes()).as_slice()))
            },
            Err(message) => Err(AcmeError::Json(message)),
        }
    }
}

/// The key authorization (RFC 8555, section 8.1) for `token` and the key with the coordinates `x`
/// and `y`, which are in base64: the token and the thumbprint of the key, with a dot between them.
pub open spec fn key_authorization(token: Seq<char>, x: Seq<char>, y: Seq<char>) -> Seq<char> {
    token + "."@ + thumbprint(x, y)
}

/// The digest of the key authorization for `token`, which answers the challenge `tls-alpn-01`.
pub fn key_authorization_sha256(key: &EcdsaP256SHA256KeyPair, token: &str) -> (r: Result<
    Vec<u8>,
    AcmeError,
>)
    requires
        token@.len() <= MAX_TEXT_LEN,
    ensures
        r is Ok,
        r->Ok_0@ == sha256_digest(
            encode_utf8(key_authorization(token@, base64url(key.x()), base64url(key.y()))),
        ),
        r->Ok_0@.len() == 32,
{
    let jwk = Jwk::new(key);
    let thumb = jwk.thumb_sha256_base64()?;
    let mut text = token.to_string();
    text.append(".");
    text.append(thumb.as_str());
    proof {
        reveal_strlit(".");
        lemma_utf8_len(text@);
    }
    Ok(sha256(text.as_str().as_bytes()))
}

/// The coordinates of a key that may be there, in base64.
pub open spec fn coordinates(jwk: Option<Jwk>) -> Option<(Seq<char>, Seq<char>)> {
    match jwk {
        Some(jwk) => Some((jwk.x(), jwk.y())),
        None => None,
    }
}

/// The characters of a text that may be there.
pub open spec fn chars(text: Option<&str>) -> Option<Seq<char>> {
    match text {
        Some(text) => Some(text@),
        None => None,
    }
}

/// The members of the protected header of a request: the algorithm, the key or its identifier
/// as far as they are there, the nonce and the URL.
pub open spec fn protected_members(
    jwk: Option<(Seq<char>, Seq<char>)>,
    kid: Option<Seq<char>>,
    nonce: Seq<char>,
    url: Seq<char>,
) -> Seq<(Seq<char>, Seq<char>)> {
    let start = seq![("alg"@, json_string("ES256"@))];
    let with_jwk = match jwk {
        Some((x, y)) => start.push(("jwk"@, json_object(jwk_members(x, y)))),
        None => start,
    };
    let with_kid = match kid {
        Some(kid) => with_jwk.push(("kid"@, json_string(kid))),
        None => with_jwk,
    };
    with_kid.push(("nonce"@, json_string(nonce))).push(("url"@, json_string(url)))
}

/// The protected header of a request: its members as JSON, in base64.
pub open spec fn protected_text(
    jwk: Option<(Seq<char>, Seq<char>)>,
    kid: Option<Seq<char>>,
    nonce: Seq<char>,
    url: Seq<char>,
) -> Seq<char> {
    base64url(encode_utf8(json_object(protected_members(jwk, kid, nonce, url))))
}

/// The protected header of a request.
pub struct Protected<'a> {
    jwk: Option<Jwk>,
    kid: Option<&'a str>,
    nonce: &'a str,
    url: &'a str,
}

impl<'a> Protected<'a> {
    /// The members of the header.
    closed spec fn members(&self) -> Seq<(Seq<char>, Seq<char>)> {
        protected_members(coordinates(self.jwk), chars(self.kid), self.nonce@, self.url@)
    }

    fn json(&self) -> (r: Result<String, AcmeError>)
        ensures
            r is Ok,
            r->Ok_0@ == json_object(self.members()),
    {
        let mut members = vec![string_member("alg", "ES256")?];
        if let Some(jwk) = &self.jwk {
            let value = jwk.json()?;
            members.push(Member { name: "jwk", value });
        }
        if let Some(kid) = self.kid {
            members.push(string_member("kid", kid)?);
        }
        members.push(string_member("nonce", self.nonce)?);
        members.push(string_member("url", self.url)?);
        assert(members@.map_values(|m: Member| m@) =~= self.members());
        match object(&members) {
            Ok(json) => Ok(json),
            Err(message) => Err(AcmeError::Json(message)),
        }
    }

    /// The header with these members, in base64.
    pub fn base64(jwk: Option<Jwk>, kid: Option<&'a str>, nonce: &'a str, url: &'a str) -> (r:
        Result<String, AcmeError>)
        ensures
            r is Ok,
            r->Ok_0@ == protected_text(coordinates(jwk), chars(kid), nonce@, url@),
    {
        let protected = Protected { jwk, kid, nonce, url };
        let json = protected.json()?;
        Ok(encode(json.as_str().as_bytes()))
    }
}

/// The media type of the body of a request.
pub const CONTENT_TYPE: &'static str = "application/jose+json";

/// The body of a request: three parts, each in base64.
#[derive(Debug)]
pub struct Body {
    /// The protected header.
    pub protected: String,
    /// The payload.
    pub payload: String,
    /// The signature of the other two.
    pub signature: String,
}

/// What is signed of a request: the protected header and the payload, with a dot between them.
pub open spec fn signing_input(protected: Seq<char>, payload: Seq<char>) -> Seq<char> {
    protected + "."@ + payload
}

/// Whether `e` says that a request could not be signed.
pub open spec fn is_signing_error(e: AcmeError) -> bool {
    e.is_invalid_data("could not sign jose request"@)
}

impl Body {
    /// The body with that header and payload, for what came of signing them.
    pub fn signed(protected: String, payload: String, signature: Option<Vec<u8>>) -> (r: Result<
        Self,
        AcmeError,
    >)
        ensures
            match signature {
                Some(signature) => {
                    &&& r is Ok
                    &&& r->Ok_0.protected@ == protected@
                    &&& r->Ok_0.payload@ == payload@
                    &&& r->Ok_0.signature@ == base64url(signature@)
                },
                None => r is Err && is_signing_error(r->Err_0),
            },
    {
        match signature {
            Some(signature) => Ok(
                Body { protected, payload, signature: encode(signature.as_slice()) },
            ),
            None => Err(AcmeError::invalid_data("could not sign jose request")),
        }
    }

    /// The members of the body.
    pub open spec fn members(&self) -> Seq<(Seq<char>, Seq<char>)> {
        seq![
            ("protected"@, json_string(self.protected@)),
            ("payload"@, json_string(self.payload@)),
            ("signature"@, json_string(self.signature@)),
        ]
    }

    /// The body as JSON.
    pub fn json(&self) -> (r: Result<String, AcmeError>)
        ensures
            r is Ok,
            r->Ok_0@ == json_object(self.members()),
    {
        let members = vec![
            string_member("protected", self.protected.as_str())?,
            string_member("payload", self.payload.as_str())?,
            string_member("signature", self.signature.as_str())?,
        ];
        assert(members@.map_values(|m: Member| m@) =~= self.members());
        match object(&members) {
            Ok(json) => Ok(json),
            Err(message) => Err(AcmeError::Json(message)),
        }
    }
}

/// The key that a request carries: the public key of the pair that signs it, unless the request
/// names an account by its identifier.
pub open spec fn request_jwk(key: &EcdsaP256SHA256KeyPair, kid: Option<&str>) -> Option<
    (Seq<char>, Seq<char>),
> {
    match kid {
        Some(_) => None,
        None => Some((base64url(key.x()), base64url(key.y()))),
    }
}

/// The body of a signed request to `url`.
///
/// The request carries the public key, or the identifier `kid` of an account in its place. It
/// fails only where the system gives no random numbers to sign with.
pub fn jose_req(
    key: &EcdsaP256SHA256KeyPair,
    kid: Option<&str>,
    nonce: &str,
    url: &str,
    payload: &str,
) -> (r: Result<Body, AcmeError>)
    requires
        kid matches Some(kid) ==> kid@.len() <= MAX_TEXT_LEN,
        nonce@.len() <= MAX_TEXT_LEN,
        url@.len() <= MAX_TEXT_LEN,
        payload@.len() <= MAX_TEXT_LEN,
    ensures
        r matches Ok(body) ==> {
            &&& body.protected@ == protected_text(
                request_jwk(key, kid),
                chars(kid),
                nonce@,
                url@,
            )
            &&& body.payload@ == base64url(encode_utf8(payload@))
            &&& exists|signature: Seq<u8>|
                {
                    &&& #[trigger] es256_signature(
                        key.point(),
                        encode_utf8(signing_input(body.protected@, body.payload@)),
                        signature,
                    )
                    &&& signature.len() == 2 * COORDINATE_LEN
                    &&& body.signature@ == base64url(signature)
                }
        },
        r matches Err(e) ==> is_signing_error(e),
{
    let jwk = match kid {
        None => Some(Jwk::new(key)),
        Some(_) => None,
    };
    let protected = Protected::base64(jwk, kid, nonce, url)?;
    proof {
        lemma_utf8_len(payload@);
    }
    let payload = encode(payload.as_bytes());
    let mut combined = protected.clone();
    combined.append(".");
    combined.append(payload.as_str());
    proof {
        lemma_signing_input_len(request_jwk(key, kid), chars(kid), nonce@, url@, payload@);
    }
    let signature = match key.sign(combined.as_str().as_bytes()) {
        Ok(signature) => Some(signature),
        Err(_) => None,
    };
    Body::signed(protected, payload, signature)
}

/// What the status of an answer means, and for `429 Too Many Requests` its header `Retry-After`.
///
/// A status above 299 stands for an error.
pub fn jose_response(status: u16, retry_after: Option<HeaderValue>) -> (r: Result<(), AcmeError>)
    ensures
        status <= 299 ==> r is Ok,
        status > 299 && status != 429 ==> r == Err::<(), AcmeError>(AcmeError::HttpStatus(status)),
        status == 429 ==> {
            &&& r matches Err(AcmeError::RateLimited { retry_after: cooldown })
            &&& match retry_after {
                Some(HeaderValue::Text(value)) => exists|now: int|
                    is_clock_reading(now) && nanos_of(cooldown) == #[trigger] wait(
                        trimmed(value@),
                        http_date(trimmed(value@)),
                        now,
                    ),
                _ => cooldown is None,
            }
        },
{
    if status <= 299 {
        return Ok(());
    }
    if status != 429 {
        return Err(AcmeError::HttpStatus(status));
    }
    let retry_after: Option<Duration> = match retry_after {
        Some(HeaderValue::Text(value)) => parse_retry_after(trim(value.as_str())),
        _ => None,
    };
    Err(AcmeError::RateLimited { retry_after })
}

/// A character takes up to four bytes.
proof fn lemma_utf8_len(text: Seq<char>)
    ensures
        encode_utf8(text).len() <= 4 * text.len(),
    decreases text.len(),
{
    if text.len() > 0 {
        lemma_utf8_len(text.drop_first());
    }
}

/// A character takes up to six characters in a JSON string.
proof fn lemma_escaped_len(text: Seq<char>)
    ensures
        escaped_text(text).len() <= 6 * text.len(),
    decreases text.len(),
{
    if text.len() > 0 {
        lemma_escaped_len(text.skip(1));
    }
}

proof fn lemma_string_len(text: Seq<char>)
    ensures
        json_string(text).len() <= 6 * text.len() + 2,
{
    lemma_escaped_len(text);
}

/// Members of at most `b` characters each, with their commas.
proof fn lemma_members_len(members: Seq<(Seq<char>, Seq<char>)>, b: nat)
    requires
        forall|i: int| 0 <= i < members.len() ==> (#[trigger] member_text(members[i])).len() <= b,
    ensures
        members_text(members).len() <= members.len() * (b + 1),
    decreases members.len(),
{
    reveal_strlit(",");
    if members.len() == 1 {
        assert(member_text(members[0]).len() <= b);
    } else if members.len() > 1 {
        let before = members.drop_last();
        assert forall|i: int| 0 <= i < before.len() implies (#[trigger] member_text(
            before[i],
        )).len() <= b by {
            assert(before[i] == members[i]);
        }
        lemma_members_len(before, b);
        assert(member_text(members[members.len() - 1]).len() <= b);
        let n = members.len() as int;
        assert(n * (b + 1) == (n - 1) * (b + 1) + (b + 1)) by (nonlinear_arith);
    }
}

proof fn lemma_thumb_len(x: Seq<char>, y: Seq<char>)
    requires
        x.len() == 43,
        y.len() == 43,
    ensures
        json_object(thumb_members(x, y)).len() <= 2000,
{
    reveal_strlit("crv");
    reveal_strlit("P-256");
    reveal_strlit("kty");
    reveal_strlit("EC");
    reveal_strlit("x");
    reveal_strlit("y");
    reveal_strlit(":");
    reveal_strlit("{");
    reveal_strlit("}");
    lemma_string_len("crv"@);
    lemma_string_len("P-256"@);
    lemma_string_len("kty"@);
    lemma_string_len("EC"@);
    lemma_string_len("x"@);
    lemma_string_len("y"@);
    lemma_string_len(x);
    lemma_string_len(y);
    let members = thumb_members(x, y);
    lemma_members_len(members, 300);
    assert(members.len() * 301 <= 1204) by (nonlinear_arith)
        requires
            members.len() == 4,
    ;
}

proof fn lemma_jwk_len(x: Seq<char>, y: Seq<char>)
    requires
        x.len() == 43,
        y.len() == 43,
    ensures
        json_object(jwk_members(x, y)).len() <= 2000,
{
    reveal_strlit("alg");
    reveal_strlit("ES256");
    reveal_strlit("crv");
    reveal_strlit("P-256");
    reveal_strlit("kty");
    reveal_strlit("EC");
    reveal_strlit("use");
    reveal_strlit("sig");
    reveal_strlit("x");
    reveal_strlit("y");
    reveal_strlit(":");
    reveal_strlit("{");
    reveal_strlit("}");
    lemma_string_len("alg"@);
    lemma_string_len("ES256"@);
    lemma_string_len("crv"@);
    lemma_string_len("P-256"@);
    lemma_string_len("kty"@);
    lemma_string_len("EC"@);
    lemma_string_len("use"@);
    lemma_string_len("sig"@);
    lemma_string_len("x"@);
    lemma_string_len("y"@);
    lemma_string_len(x);
    lemma_string_len(y);
    let members = jwk_members(x, y);
    lemma_members_len(members, 300);
    assert(members.len() * 301 <= 1806) by (nonlinear_arith)
        requires
            members.len() == 6,
    ;
}

/// What is signed stays within what SHA-256 is defined for.
proof fn lemma_signing_input_len(
    jwk: Option<(Seq<char>, Seq<char>)>,
    kid: Option<Seq<char>>,
    nonce: Seq<char>,
    url: Seq<char>,
    payload: Seq<char>,
)
    requires
        jwk matches Some((x, y)) ==> x.len() == 43 && y.len() == 43,
        kid matches Some(kid) ==> kid.len() <= MAX_TEXT_LEN,
        nonce.len() <= MAX_TEXT_LEN,
        url.len() <= MAX_TEXT_LEN,
        payload.len() <= 6 * MAX_TEXT_LEN,
    ensures
        encode_utf8(signing_input(protected_text(jwk, kid, nonce, url), payload)).len()
            <= SHA256_MAX_LEN,
{
    reveal_strlit("alg");
    reveal_strlit("ES256");
    reveal_strlit("jwk");
    reveal_strlit("kid");
    reveal_strlit("nonce");
    reveal_strlit("url");
    reveal_strlit(":");
    reveal_strlit("{");
    reveal_strlit("}");
    reveal_strlit(".");
    lemma_string_len("alg"@);
    lemma_string_len("ES256"@);
    lemma_string_len("jwk"@);
    lemma_string_len("kid"@);
    lemma_string_len("nonce"@);
    lemma_string_len("url"@);
    lemma_string_len(nonce);
    lemma_string_len(url);
    if let Some(kid) = kid {
        lemma_string_len(kid);
    }
    if let Some((x, y)) = jwk {
        lemma_jwk_len(x, y);
    }
    let members = protected_members(jwk, kid, nonce, url);
    let b = (6 * MAX_TEXT_LEN + 3000) as nat;
    assert(members.len() <= 5);
    lemma_members_len(members, b);
    assert(members.len() * (b + 1) <= 5 * (b + 1)) by (nonlinear_arith)
        requires
            members.len() <= 5,
    ;
    let json = json_object(members);
    lemma_utf8_len(json);
    lemma_utf8_len(signing_input(protected_text(jwk, kid, nonce, url), payload));
}

} // verus!
