//! Base64 with the URL safe alphabet and without padding (RFC 4648, section 5).

use base64::Engine;
use vstd::prelude::*;

verus! {

/// The symbol for six bits of value `v`.
pub open spec fn symbol(v: int) -> char {
    if v < 26 {
        ('A' as int + v) as char
    } else if v < 52 {
        ('a' as int + v - 26) as char
    } else if v < 62 {
        ('0' as int + v - 52) as char
    } else if v == 62 {
        '-'
    } else {
        '_'
    }
}

/// The byte at `i`, or zero past the end.
pub open spec fn octet(bytes: Seq<u8>, i: int) -> int {
    if i < bytes.len() {
        bytes[i] as int
    } else {
        0
    }
}

/// The value of group `i` when the bits of `bytes`, highest bit first, are read in groups of six.
/// The last group is filled up with zeros.
pub open spec fn sextet(bytes: Seq<u8>, i: int) -> int {
    let k = i / 4 * 3;
    if i % 4 == 0 {
        octet(bytes, k) / 4
    } else if i % 4 == 1 {
        octet(bytes, k) % 4 * 16 + octet(bytes, k + 1) / 16
    } else if i % 4 == 2 {
        octet(bytes, k + 1) % 16 * 4 + octet(bytes, k + 2) / 64
    } else {
        octet(bytes, k + 2) % 64
    }
}

/// `bytes` in base64: a symbol for each group of six bits, and no padding.
pub open spec fn base64url(bytes: Seq<u8>) -> Seq<char> {
    Seq::new(((4 * bytes.len() + 2) / 3) as nat, |i: int| symbol(sextet(bytes, i)))
}

/// `Engine::encode` of the `base64` crate, with its engine `URL_SAFE_NO_PAD`: the symbols that
/// RFC 4648 gives for the bytes, without padding.
#[verifier::external_body]
pub(crate) fn encode(bytes: &[u8]) -> (r: String)
    ensures
        r@ == base64url(bytes@),
{
    base64::engine::general_purpose::URL_SAFE_NO_PAD.encode(bytes)
}

/// Whether `c` is one of the 64 symbols.
pub open spec fn is_symbol(c: char) -> bool {
    'A' <= c <= 'Z' || 'a' <= c <= 'z' || '0' <= c <= '9' || c == '-' || c == '_'
}

/// Encoded bytes hold the 64 symbols alone: letters, digits, the hyphen and the underscore.
pub proof fn law_symbols_only(bytes: Seq<u8>)
    ensures
        forall|i: int| 0 <= i < base64url(bytes).len() ==> is_symbol(#[trigger] base64url(bytes)[i]),
{
    assert forall|i: int| 0 <= i < base64url(bytes).len() implies is_symbol(
        #[trigger] base64url(bytes)[i],
    ) by {
        lemma_sextet_range(bytes, i);
    }
}

/// Different bytes are encoded differently.
pub proof fn law_injective(a: Seq<u8>, b: Seq<u8>)
    requires
        base64url(a) == base64url(b),
    ensures
        a == b,
{
    assert(base64url(a).len() == (4 * a.len() + 2) / 3);
    assert(base64url(b).len() == (4 * b.len() + 2) / 3);
    assert(a.len() == b.len());
    assert forall|j: int| 0 <= j < a.len() implies a[j] == b[j] by {
        let q = j / 3 * 4;
        let first = q + j % 3;
        lemma_same_sextet(a, b, first);
        lemma_same_sextet(a, b, first + 1);
    }
    assert(a =~= b);
}

proof fn lemma_sextet_range(bytes: Seq<u8>, i: int)
    requires
        0 <= i,
    ensures
        0 <= sextet(bytes, i) < 64,
{
}

proof fn lemma_same_sextet(a: Seq<u8>, b: Seq<u8>, i: int)
    requires
        base64url(a) == base64url(b),
        a.len() == b.len(),
        0 <= i < (4 * a.len() + 2) / 3,
    ensures
        sextet(a, i) == sextet(b, i),
{
    lemma_sextet_range(a, i);
    lemma_sextet_range(b, i);
    assert(base64url(a)[i] == symbol(sextet(a, i)));
    assert(base64url(b)[i] == symbol(sextet(b, i)));
}

} // verus!
