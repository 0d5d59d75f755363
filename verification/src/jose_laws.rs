//! What a signature of a request covers, and what a key authorization is made of.

use crate::base64url::{base64url, law_injective, law_symbols_only};
use crate::crypto::{sha256_digest, EcdsaP256SHA256KeyPair};
use crate::acme::{AcmeError, ErrorKind};
use crate::jose::{
    chars, coordinates, is_signing_error, jwk_members, key_authorization, protected_members,
    protected_text, request_jwk, signing_input, thumb_members, thumbprint, Body, Jwk, CONTENT_TYPE,
};
use crate::json::{
    json_object, json_string, law_object, law_self_delimiting, member_text, members_text,
};
use vstd::prelude::*;
use vstd::utf8::{encode_utf8, encode_utf8_decode_utf8};

verus! {

/// What is signed tells the protected header and the payload apart: no other header or payload
/// gives the same characters.
pub proof fn law_signing_input_splits(a: Seq<u8>, x: Seq<u8>, b: Seq<u8>, y: Seq<u8>)
    requires
        signing_input(base64url(a), base64url(x)) == signing_input(base64url(b), base64url(y)),
    ensures
        a == b,
        x == y,
{
    reveal_strlit(".");
    let s = signing_input(base64url(a), base64url(x));
    let t = signing_input(base64url(b), base64url(y));
    let n = base64url(a).len() as int;
    let m = base64url(b).len() as int;
    law_symbols_only(a);
    law_symbols_only(b);
    assert(s[n] == '.');
    assert(t[m] == '.');
    if n < m {
        assert(t[n] == base64url(b)[n]);
    } else if m < n {
        assert(s[m] == base64url(a)[m]);
    }
    assert(s.take(n) =~= base64url(a));
    assert(t.take(m) =~= base64url(b));
    assert(s.skip(n + 1) =~= base64url(x));
    assert(t.skip(m + 1) =~= base64url(y));
    law_injective(a, b);
    law_injective(x, y);
}

/// The protected header tells what it was made of: no other key, identifier, nonce or URL gives
/// the same header.
pub proof fn law_protected_injective(
    jwk: Option<(Seq<char>, Seq<char>)>,
    kid: Option<Seq<char>>,
    nonce: Seq<char>,
    url: Seq<char>,
    jwk2: Option<(Seq<char>, Seq<char>)>,
    kid2: Option<Seq<char>>,
    nonce2: Seq<char>,
    url2: Seq<char>,
)
    requires
        protected_text(jwk, kid, nonce, url) == protected_text(jwk2, kid2, nonce2, url2),
    ensures
        jwk == jwk2,
        kid == kid2,
        nonce == nonce2,
        url == url2,
{
    let json = json_object(protected_members(jwk, kid, nonce, url));
    let json2 = json_object(protected_members(jwk2, kid2, nonce2, url2));
    law_injective(encode_utf8(json), encode_utf8(json2));
    encode_utf8_decode_utf8(json);
    encode_utf8_decode_utf8(json2);
    lemma_protected_shape(jwk, kid, nonce, url);
    lemma_protected_shape(jwk2, kid2, nonce2, url2);
    let a = from_jwk(jwk, kid, nonce, url);
    let b = from_jwk(jwk2, kid2, nonce2, url2);
    lemma_strip(head(), a, b);
    lemma_same_from_jwk(jwk, kid, nonce, url, jwk2, kid2, nonce2, url2);
}

/// A signature covers all of a request: if what is signed of two requests is the same, then the
/// requests carry the same key or identifier, the same nonce, the same URL and the same payload.
pub proof fn law_signature_covers_request(
    jwk: Option<(Seq<char>, Seq<char>)>,
    kid: Option<Seq<char>>,
    nonce: Seq<char>,
    url: Seq<char>,
    payload: Seq<char>,
    jwk2: Option<(Seq<char>, Seq<char>)>,
    kid2: Option<Seq<char>>,
    nonce2: Seq<char>,
    url2: Seq<char>,
    payload2: Seq<char>,
)
    requires
        encode_utf8(
            signing_input(protected_text(jwk, kid, nonce, url), base64url(encode_utf8(payload))),
        ) == encode_utf8(
            signing_input(
                protected_text(jwk2, kid2, nonce2, url2),
                base64url(encode_utf8(payload2)),
            ),
        ),
    ensures
        jwk == jwk2,
        kid == kid2,
        nonce == nonce2,
        url == url2,
        payload == payload2,
{
    let json = json_object(protected_members(jwk, kid, nonce, url));
    let json2 = json_object(protected_members(jwk2, kid2, nonce2, url2));
    let s = signing_input(protected_text(jwk, kid, nonce, url), base64url(encode_utf8(payload)));
    let t = signing_input(
        protected_text(jwk2, kid2, nonce2, url2),
        base64url(encode_utf8(payload2)),
    );
    encode_utf8_decode_utf8(s);
    encode_utf8_decode_utf8(t);
    law_signing_input_splits(
        encode_utf8(json),
        encode_utf8(payload),
        encode_utf8(json2),
        encode_utf8(payload2),
    );
    encode_utf8_decode_utf8(payload);
    encode_utf8_decode_utf8(payload2);
    law_protected_injective(jwk, kid, nonce, url, jwk2, kid2, nonce2, url2);
}

/// The digest of a key authorization depends on the public key and the token alone: two key pairs
/// with the same public key give the same one for the same token.
pub proof fn law_authorization_is_the_public_keys(
    key: EcdsaP256SHA256KeyPair,
    key2: EcdsaP256SHA256KeyPair,
    token: Seq<char>,
)
    requires
        key.point() == key2.point(),
    ensures
        key_authorization(token, base64url(key.x()), base64url(key.y())) == key_authorization(
            token,
            base64url(key2.x()),
            base64url(key2.y()),
        ),
        sha256_digest(
            encode_utf8(key_authorization(token, base64url(key.x()), base64url(key.y()))),
        ) == sha256_digest(
            encode_utf8(key_authorization(token, base64url(key2.x()), base64url(key2.y()))),
        ),
{
}

/// A member with a comma before it, and what follows.
spec fn listed(name: Seq<char>, value: Seq<char>, rest: Seq<char>) -> Seq<char> {
    ","@ + (json_string(name) + (":"@ + (value + rest)))
}

/// The header up to its first member.
spec fn head() -> Seq<char> {
    "{"@ + member_text(("alg"@, json_string("ES256"@)))
}

/// The header from the nonce on.
spec fn from_nonce(nonce: Seq<char>, url: Seq<char>) -> Seq<char> {
    listed("nonce"@, json_string(nonce), listed("url"@, json_string(url), "}"@))
}

/// The header from the identifier on.
spec fn from_kid(kid: Option<Seq<char>>, nonce: Seq<char>, url: Seq<char>) -> Seq<char> {
    match kid {
        Some(kid) => listed("kid"@, json_string(kid), from_nonce(nonce, url)),
        None => from_nonce(nonce, url),
    }
}

/// The header from the key on.
spec fn from_jwk(
    jwk: Option<(Seq<char>, Seq<char>)>,
    kid: Option<Seq<char>>,
    nonce: Seq<char>,
    url: Seq<char>,
) -> Seq<char> {
    match jwk {
        Some((x, y)) => listed(
            "jwk"@,
            json_object(jwk_members(x, y)),
            from_kid(kid, nonce, url),
        ),
        None => from_kid(kid, nonce, url),
    }
}

proof fn lemma_strip(a: Seq<char>, x: Seq<char>, y: Seq<char>)
    requires
        a + x == a + y,
    ensures
        x == y,
{
    assert((a + x).skip(a.len() as int) =~= x);
    assert((a + y).skip(a.len() as int) =~= y);
}

/// The last member of a list, with what follows the list.
proof fn lemma_push(
    members: Seq<(Seq<char>, Seq<char>)>,
    name: Seq<char>,
    value: Seq<char>,
    rest: Seq<char>,
)
    requires
        members.len() > 0,
    ensures
        members_text(members.push((name, value))) + rest == members_text(members) + listed(
            name,
            value,
            rest,
        ),
{
    assert(members.push((name, value)).drop_last() =~= members);
    assert(members_text(members) + ","@ + (json_string(name) + ":"@ + value) + rest
        =~= members_text(members) + listed(name, value, rest));
}

/// An object with what follows it, from the text of its first members on.
proof fn lemma_object(
    members: Seq<(Seq<char>, Seq<char>)>,
    rest: Seq<char>,
    first: Seq<char>,
    others: Seq<char>,
)
    requires
        members_text(members) + ("}"@ + rest) == first + others,
    ensures
        json_object(members) + rest == ("{"@ + first) + others,
{
    assert(json_object(members) + rest =~= "{"@ + (members_text(members) + ("}"@ + rest)));
    assert("{"@ + (first + others) =~= ("{"@ + first) + others);
}

proof fn lemma_protected_shape(
    jwk: Option<(Seq<char>, Seq<char>)>,
    kid: Option<Seq<char>>,
    nonce: Seq<char>,
    url: Seq<char>,
)
    ensures
        json_object(protected_members(jwk, kid, nonce, url)) == head() + from_jwk(
            jwk,
            kid,
            nonce,
            url,
        ),
{
    let start = seq![("alg"@, json_string("ES256"@))];
    let with_jwk = match jwk {
        Some((x, y)) => start.push(("jwk"@, json_object(jwk_members(x, y)))),
        None => start,
    };
    let with_kid = match kid {
        Some(kid) => with_jwk.push(("kid"@, json_string(kid))),
        None => with_jwk,
    };
    let with_nonce = with_kid.push(("nonce"@, json_string(nonce)));
    let end = "}"@ + seq![];
    assert(end =~= "}"@);
    lemma_push(with_nonce, "url"@, json_string(url), end);
    lemma_push(with_kid, "nonce"@, json_string(nonce), listed("url"@, json_string(url), end));
    if let Some(kid) = kid {
        lemma_push(with_jwk, "kid"@, json_string(kid), from_nonce(nonce, url));
    }
    if let Some((x, y)) = jwk {
        lemma_push(start, "jwk"@, json_object(jwk_members(x, y)), from_kid(kid, nonce, url));
    }
    let members = protected_members(jwk, kid, nonce, url);
    assert(members_text(start) == member_text(start[0]));
    lemma_object(members, seq![], member_text(start[0]), from_jwk(jwk, kid, nonce, url));
    assert(json_object(members) + seq![] =~= json_object(members));
}

proof fn lemma_same_name(
    name: Seq<char>,
    value: Seq<char>,
    rest: Seq<char>,
    name2: Seq<char>,
    value2: Seq<char>,
    rest2: Seq<char>,
)
    requires
        listed(name, value, rest) == listed(name2, value2, rest2),
    ensures
        name == name2,
        value + rest == value2 + rest2,
{
    let a = ":"@ + (value + rest);
    let b = ":"@ + (value2 + rest2);
    lemma_strip(","@, json_string(name) + a, json_string(name2) + b);
    law_self_delimiting(name, a, name2, b);
    lemma_strip(":"@, value + rest, value2 + rest2);
}

proof fn lemma_same_string(
    name: Seq<char>,
    value: Seq<char>,
    rest: Seq<char>,
    value2: Seq<char>,
    rest2: Seq<char>,
)
    requires
        listed(name, json_string(value), rest) == listed(name, json_string(value2), rest2),
    ensures
        value == value2,
        rest == rest2,
{
    lemma_same_name(name, json_string(value), rest, name, json_string(value2), rest2);
    law_self_delimiting(value, rest, value2, rest2);
}

/// The members of the key up to its coordinates.
spec fn jwk_start() -> Seq<(Seq<char>, Seq<char>)> {
    seq![
        ("alg"@, json_string("ES256"@)),
        ("crv"@, json_string("P-256"@)),
        ("kty"@, json_string("EC"@)),
        ("use"@, json_string("sig"@)),
    ]
}

/// The key up to its coordinates.
spec fn jwk_head() -> Seq<char> {
    "{"@ + members_text(jwk_start())
}

proof fn lemma_jwk_shape(x: Seq<char>, y: Seq<char>, rest: Seq<char>)
    ensures
        json_object(jwk_members(x, y)) + rest == jwk_head() + listed(
            "x"@,
            json_string(x),
            listed("y"@, json_string(y), "}"@ + rest),
        ),
{
    let with_x = jwk_start().push(("x"@, json_string(x)));
    assert(with_x.push(("y"@, json_string(y))) =~= jwk_members(x, y));
    let after_x = listed("y"@, json_string(y), "}"@ + rest);
    lemma_push(with_x, "y"@, json_string(y), "}"@ + rest);
    lemma_push(jwk_start(), "x"@, json_string(x), after_x);
    let after = listed("x"@, json_string(x), after_x);
    lemma_object(jwk_members(x, y), rest, members_text(jwk_start()), after);
}

proof fn lemma_same_jwk(
    x: Seq<char>,
    y: Seq<char>,
    rest: Seq<char>,
    x2: Seq<char>,
    y2: Seq<char>,
    rest2: Seq<char>,
)
    requires
        json_object(jwk_members(x, y)) + rest == json_object(jwk_members(x2, y2)) + rest2,
    ensures
        x == x2,
        y == y2,
        rest == rest2,
{
    lemma_jwk_shape(x, y, rest);
    lemma_jwk_shape(x2, y2, rest2);
    let a = listed("y"@, json_string(y), "}"@ + rest);
    let b = listed("y"@, json_string(y2), "}"@ + rest2);
    lemma_strip(jwk_head(), listed("x"@, json_string(x), a), listed("x"@, json_string(x2), b));
    lemma_same_string("x"@, x, a, x2, b);
    lemma_same_string("y"@, y, "}"@ + rest, y2, "}"@ + rest2);
    lemma_strip("}"@, rest, rest2);
}

proof fn lemma_same_from_jwk(
    jwk: Option<(Seq<char>, Seq<char>)>,
    kid: Option<Seq<char>>,
    nonce: Seq<char>,
    url: Seq<char>,
    jwk2: Option<(Seq<char>, Seq<char>)>,
    kid2: Option<Seq<char>>,
    nonce2: Seq<char>,
    url2: Seq<char>,
)
    requires
        from_jwk(jwk, kid, nonce, url) == from_jwk(jwk2, kid2, nonce2, url2),
    ensures
        jwk == jwk2,
        kid == kid2,
        nonce == nonce2,
        url == url2,
{
    match (jwk, jwk2) {
        (Some((x, y)), Some((x2, y2))) => {
            let rest = from_kid(kid, nonce, url);
            let rest2 = from_kid(kid2, nonce2, url2);
            let value = json_object(jwk_members(x, y));
            let value2 = json_object(jwk_members(x2, y2));
            lemma_same_name("jwk"@, value, rest, "jwk"@, value2, rest2);
            lemma_same_jwk(x, y, rest, x2, y2, rest2);
        },
        (Some((x, y)), None) => {
            let value = json_object(jwk_members(x, y));
            lemma_not_jwk(value, from_kid(kid, nonce, url), kid2, nonce2, url2);
        },
        (None, Some((x2, y2))) => {
            let value2 = json_object(jwk_members(x2, y2));
            lemma_not_jwk(value2, from_kid(kid2, nonce2, url2), kid, nonce, url);
        },
        (None, None) => {},
    }
    lemma_same_from_kid(kid, nonce, url, kid2, nonce2, url2);
}

proof fn lemma_not_jwk(
    value: Seq<char>,
    rest: Seq<char>,
    kid: Option<Seq<char>>,
    nonce: Seq<char>,
    url: Seq<char>,
)
    ensures
        listed("jwk"@, value, rest) != from_kid(kid, nonce, url),
{
    reveal_strlit("jwk");
    reveal_strlit("kid");
    reveal_strlit("nonce");
    assert("jwk"@[0] != "kid"@[0]);
    assert("jwk"@[0] != "nonce"@[0]);
    if listed("jwk"@, value, rest) == from_kid(kid, nonce, url) {
        if let Some(kid) = kid {
            let after = from_nonce(nonce, url);
            lemma_same_name("jwk"@, value, rest, "kid"@, json_string(kid), after);
        } else {
            let after = listed("url"@, json_string(url), "}"@);
            lemma_same_name("jwk"@, value, rest, "nonce"@, json_string(nonce), after);
        }
    }
}

proof fn lemma_same_from_kid(
    kid: Option<Seq<char>>,
    nonce: Seq<char>,
    url: Seq<char>,
    kid2: Option<Seq<char>>,
    nonce2: Seq<char>,
    url2: Seq<char>,
)
    requires
        from_kid(kid, nonce, url) == from_kid(kid2, nonce2, url2),
    ensures
        kid == kid2,
        nonce == nonce2,
        url == url2,
{
    match (kid, kid2) {
        (Some(kid), Some(kid2)) => {
            lemma_same_string(
                "kid"@,
                kid,
                from_nonce(nonce, url),
                kid2,
                from_nonce(nonce2, url2),
            );
        },
        (Some(kid), None) => {
            lemma_not_kid(kid, from_nonce(nonce, url), nonce2, url2);
        },
        (None, Some(kid2)) => {
            lemma_not_kid(kid2, from_nonce(nonce2, url2), nonce, url);
        },
        (None, None) => {},
    }
    let rest = listed("url"@, json_string(url), "}"@);
    let rest2 = listed("url"@, json_string(url2), "}"@);
    lemma_same_string("nonce"@, nonce, rest, nonce2, rest2);
    lemma_same_string("url"@, url, "}"@, url2, "}"@);
}

proof fn lemma_not_kid(kid: Seq<char>, rest: Seq<char>, nonce: Seq<char>, url: Seq<char>)
    ensures
        listed("kid"@, json_string(kid), rest) != from_nonce(nonce, url),
{
    reveal_strlit("kid");
    reveal_strlit("nonce");
    assert("kid"@[0] != "nonce"@[0]);
    if listed("kid"@, json_string(kid), rest) == from_nonce(nonce, url) {
        let after = listed("url"@, json_string(url), "}"@);
        lemma_same_name("kid"@, json_string(kid), rest, "nonce"@, json_string(nonce), after);
    }
}

/// The coordinates of a key are the two halves of its public key, behind the first byte.
pub proof fn law_coordinates(key: EcdsaP256SHA256KeyPair, i: int)
    requires
        key.point().len() == 65,
        0 <= i < 32,
    ensures
        key.x().len() == 32,
        key.y().len() == 32,
        key.x()[i] == key.point()[1 + i],
        key.y()[i] == key.point()[33 + i],
{
}

/// A request carries the public key where it names no account, and else the account alone.
pub proof fn law_request_key(key: &EcdsaP256SHA256KeyPair, kid: &str, jwk: Jwk)
    ensures
        request_jwk(key, None) == Some(
            (
                base64url(key.point().subrange(1, 33)),
                base64url(key.point().subrange(33, 65)),
            ),
        ),
        request_jwk(key, Some(kid)) == None::<(Seq<char>, Seq<char>)>,
        chars(Some(kid)) == Some(kid@),
        chars(None) == None::<Seq<char>>,
        coordinates(Some(jwk)) == Some((jwk.x(), jwk.y())),
        coordinates(None) == None::<(Seq<char>, Seq<char>)>,
{
}

/// A member of a JSON object with a comma before it.
pub open spec fn further(name: Seq<char>, value: Seq<char>) -> Seq<char> {
    ","@ + (json_string(name) + ":"@ + value)
}

/// The key as JSON, with all its members in alphabetical order.
pub proof fn law_jwk_text(x: Seq<char>, y: Seq<char>)
    ensures
        json_object(jwk_members(x, y)) == "{"@ + (json_string("alg"@) + ":"@ + json_string(
            "ES256"@,
        )) + further("crv"@, json_string("P-256"@)) + further("kty"@, json_string("EC"@)) + further(
            "use"@,
            json_string("sig"@),
        ) + further("x"@, json_string(x)) + further("y"@, json_string(y)) + "}"@,
{
    let first = seq![("alg"@, json_string("ES256"@))];
    let m2 = first.push(("crv"@, json_string("P-256"@)));
    let m3 = m2.push(("kty"@, json_string("EC"@)));
    let m4 = m3.push(("use"@, json_string("sig"@)));
    let m5 = m4.push(("x"@, json_string(x)));
    let m6 = m5.push(("y"@, json_string(y)));
    assert(m6 =~= jwk_members(x, y));
    law_object(first, "crv"@, json_string("P-256"@));
    law_object(first, "alg"@, json_string("ES256"@));
    law_object(m2, "kty"@, json_string("EC"@));
    law_object(m3, "use"@, json_string("sig"@));
    law_object(m4, "x"@, json_string(x));
    law_object(m5, "y"@, json_string(y));
    assert(json_object(m6) =~= "{"@ + (json_string("alg"@) + ":"@ + json_string("ES256"@))
        + further("crv"@, json_string("P-256"@)) + further("kty"@, json_string("EC"@)) + further(
        "use"@,
        json_string("sig"@),
    ) + further("x"@, json_string(x)) + further("y"@, json_string(y)) + "}"@);
}

/// The thumbprint of a key is made of its curve, its type and its coordinates, in alphabetical order.
pub proof fn law_thumbprint(x: Seq<char>, y: Seq<char>)
    ensures
        thumbprint(x, y) == base64url(
            sha256_digest(
                encode_utf8(
                    "{"@ + (json_string("crv"@) + ":"@ + json_string("P-256"@)) + further(
                        "kty"@,
                        json_string("EC"@),
                    ) + further("x"@, json_string(x)) + further("y"@, json_string(y)) + "}"@,
                ),
            ),
        ),
{
    let first = seq![("crv"@, json_string("P-256"@))];
    let m2 = first.push(("kty"@, json_string("EC"@)));
    let m3 = m2.push(("x"@, json_string(x)));
    let m4 = m3.push(("y"@, json_string(y)));
    assert(m4 =~= thumb_members(x, y));
    law_object(first, "crv"@, json_string("P-256"@));
    law_object(first, "kty"@, json_string("EC"@));
    law_object(m2, "x"@, json_string(x));
    law_object(m3, "y"@, json_string(y));
    assert(json_object(m4) =~= "{"@ + (json_string("crv"@) + ":"@ + json_string("P-256"@))
        + further("kty"@, json_string("EC"@)) + further("x"@, json_string(x)) + further(
        "y"@,
        json_string(y),
    ) + "}"@);
}

/// A key authorization is the token, a dot and the thumbprint of the key; what is signed is the
/// header, a dot and the payload.
pub proof fn law_dots(a: Seq<char>, x: Seq<char>, y: Seq<char>, b: Seq<char>)
    ensures
        key_authorization(a, x, y) == a + seq!['.'] + thumbprint(x, y),
        signing_input(a, b) == a + seq!['.'] + b,
{
    reveal_strlit(".");
    assert("."@ =~= seq!['.']);
}

/// The protected header names the algorithm, the key or the account that the request is from, the
/// nonce and the URL, each as it is and in alphabetical order.
pub proof fn law_protected_text(
    jwk: Option<(Seq<char>, Seq<char>)>,
    kid: Option<Seq<char>>,
    nonce: Seq<char>,
    url: Seq<char>,
)
    ensures
        protected_text(jwk, kid, nonce, url) == base64url(
            encode_utf8(
                "{"@ + (json_string("alg"@) + ":"@ + json_string("ES256"@)) + match jwk {
                    Some((x, y)) => further("jwk"@, json_object(jwk_members(x, y))),
                    None => seq![],
                } + match kid {
                    Some(kid) => further("kid"@, json_string(kid)),
                    None => seq![],
                } + further("nonce"@, json_string(nonce)) + further("url"@, json_string(url))
                    + "}"@,
            ),
        ),
{
    let by_jwk = match jwk {
        Some((x, y)) => further("jwk"@, json_object(jwk_members(x, y))),
        None => seq![],
    };
    let by_kid = match kid {
        Some(kid) => further("kid"@, json_string(kid)),
        None => seq![],
    };
    let start = seq![("alg"@, json_string("ES256"@))];
    let with_jwk = match jwk {
        Some((x, y)) => start.push(("jwk"@, json_object(jwk_members(x, y)))),
        None => start,
    };
    let with_kid = match kid {
        Some(kid) => with_jwk.push(("kid"@, json_string(kid))),
        None => with_jwk,
    };
    let with_nonce = with_kid.push(("nonce"@, json_string(nonce)));
    let members = with_nonce.push(("url"@, json_string(url)));
    let alg = json_string("alg"@) + ":"@ + json_string("ES256"@);
    law_object(start, "alg"@, json_string("ES256"@));
    assert(members_text(start) == alg);
    assert(members_text(with_jwk) == alg + by_jwk) by {
        if let Some((x, y)) = jwk {
            lemma_further(start, "jwk"@, json_object(jwk_members(x, y)));
        } else {
            assert(alg + by_jwk =~= alg);
        }
    }
    assert(members_text(with_kid) == alg + by_jwk + by_kid) by {
        if let Some(kid) = kid {
            lemma_further(with_jwk, "kid"@, json_string(kid));
        } else {
            assert(alg + by_jwk + by_kid =~= alg + by_jwk);
        }
    }
    lemma_further(with_kid, "nonce"@, json_string(nonce));
    lemma_further(with_nonce, "url"@, json_string(url));
    assert(members == protected_members(jwk, kid, nonce, url));
    lemma_braces(
        alg,
        by_jwk,
        by_kid,
        further("nonce"@, json_string(nonce)),
        further("url"@, json_string(url)),
    );
}

proof fn lemma_further(
    members: Seq<(Seq<char>, Seq<char>)>,
    name: Seq<char>,
    value: Seq<char>,
)
    requires
        members.len() > 0,
    ensures
        members_text(members.push((name, value))) == members_text(members) + further(name, value),
{
    law_object(members, name, value);
    assert(members_text(members) + ","@ + (json_string(name) + ":"@ + value) =~= members_text(
        members,
    ) + further(name, value));
}

proof fn lemma_braces(a: Seq<char>, b: Seq<char>, c: Seq<char>, d: Seq<char>, e: Seq<char>)
    ensures
        "{"@ + (a + b + c + d + e) + "}"@ == "{"@ + a + b + c + d + e + "}"@,
{
    assert("{"@ + (a + b + c + d + e) =~= "{"@ + a + b + c + d + e);
}

/// The body of a request names its three parts, each as it is.
pub proof fn law_body_text(body: Body)
    ensures
        json_object(body.members()) == "{"@ + (json_string("protected"@) + ":"@ + json_string(
            body.protected@,
        )) + further("payload"@, json_string(body.payload@)) + further(
            "signature"@,
            json_string(body.signature@),
        ) + "}"@,
{
    let first = seq![("protected"@, json_string(body.protected@))];
    let m2 = first.push(("payload"@, json_string(body.payload@)));
    let m3 = m2.push(("signature"@, json_string(body.signature@)));
    assert(m3 =~= body.members());
    law_object(first, "protected"@, json_string(body.protected@));
    law_object(first, "payload"@, json_string(body.payload@));
    law_object(m2, "signature"@, json_string(body.signature@));
    assert(json_object(m3) =~= "{"@ + (json_string("protected"@) + ":"@ + json_string(
        body.protected@,
    )) + further("payload"@, json_string(body.payload@)) + further(
        "signature"@,
        json_string(body.signature@),
    ) + "}"@);
}

/// The media type of a request is that of signed JSON.
pub proof fn law_media_type()
    ensures
        CONTENT_TYPE@ == "application/jose+json"@,
{
}

/// A request that could not be signed is reported as data that is not as it has to be.
pub proof fn law_signing_error(e: AcmeError)
    requires
        is_signing_error(e),
    ensures
        e is Io,
        e->Io_0.kind == ErrorKind::InvalidData,
        e->Io_0.message@ == "could not sign jose request"@,
{
}

} // verus!
