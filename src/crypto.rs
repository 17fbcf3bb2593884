use vstd::prelude::*;

use crate::codec::{hex_decode, hex_decoded, hex_encode, hex_text};
use crate::error::KvError;

verus! {

/// The compressed SEC1 form of the secp256k1 point that `b` encodes, or
/// `None` when `b` is no valid encoding of a point.
pub uninterp spec fn parsed_key(b: Seq<u8>) -> Option<Seq<u8>>;

/// The SHA-256 digest of the UTF-8 bytes of `s`.
pub uninterp spec fn sha256_of(s: Seq<char>) -> Seq<u8>;

/// Whether `sig` is a valid 64-byte ECDSA signature over the 32-byte
/// `digest` under the secp256k1 public key `key`.
pub uninterp spec fn signature_valid(digest: Seq<u8>, sig: Seq<u8>, key: Seq<u8>) -> bool;

/// Relies on libsecp256k1::PublicKey::parse_slice (format left open: 33, 64
/// or 65 bytes) and `serialize_compressed`, which yields 33 bytes.
#[verifier::external_body]
pub(crate) fn compress_key(b: &[u8]) -> (r: Option<Vec<u8>>)
    ensures
        match r {
            Some(c) => parsed_key(b@) == Some(c@),
            None => parsed_key(b@) is None,
        },
        r is Some ==> r->Some_0@.len() == 33,
        r is Some ==> (b@.len() == 33 || b@.len() == 64 || b@.len() == 65),
{
    match libsecp256k1::PublicKey::parse_slice(b, None) {
        Ok(k) => Some(k.serialize_compressed().to_vec()),
        Err(_) => None,
    }
}

/// Relies on sha2's `Sha256::digest` over the string's bytes: 32 bytes.
#[verifier::external_body]
pub(crate) fn sha256(s: &str) -> (r: Vec<u8>)
    ensures
        r@ == sha256_of(s@),
        r@.len() == 32,
{
    <sha2::Sha256 as sha2::Digest>::digest(s.as_bytes()).to_vec()
}

/// Relies on libsecp256k1::verify, after `Message::parse_slice`,
/// `Signature::parse_standard_slice` and `PublicKey::parse_slice` read the
/// three byte strings; any of them failing to parse counts as invalid.
#[verifier::external_body]
pub(crate) fn verify_signature(digest: &[u8], sig: &[u8], key: &[u8]) -> (r: bool)
    ensures
        r == signature_valid(digest@, sig@, key@),
{
    match (
        libsecp256k1::Message::parse_slice(digest),
        libsecp256k1::Signature::parse_standard_slice(sig),
        libsecp256k1::PublicKey::parse_slice(key, None),
    ) {
        (Ok(m), Ok(s), Ok(k)) => libsecp256k1::verify(&m, &s, &k),
        _ => false,
    }
}

/// The key text with an optional leading `0x` removed.
pub open spec fn strip_hex_prefix(s: Seq<char>) -> Seq<char> {
    if s.len() >= 2 && s[0] == '0' && s[1] == 'x' {
        s.subrange(2, s.len() as int)
    } else {
        s
    }
}

/// The persona (compressed key bytes) that a hex key text names, if any.
pub open spec fn normalized_key(text: Seq<char>) -> Option<Seq<u8>> {
    match hex_decoded(strip_hex_prefix(text)) {
        Some(b) => parsed_key(b),
        None => None,
    }
}

/// The view of an optional string.
pub open spec fn opt_text(o: Option<String>) -> Option<Seq<char>> {
    match o {
        Some(s) => Some(s@),
        None => None,
    }
}

/// The key text a request designates: `avatar` when present, else `persona`.
pub open spec fn chosen_key_text(persona: Option<Seq<char>>, avatar: Option<Seq<char>>) -> Option<
    Seq<char>,
> {
    if avatar is Some {
        avatar
    } else {
        persona
    }
}

/// Hex text of a persona as it appears in payloads: `0x` and lower-case hex.
pub open spec fn persona_text(persona: Seq<u8>) -> Seq<char> {
    seq!['0', 'x'] + hex_text(persona)
}

/// Parses a hex-encoded secp256k1 public key (optionally `0x`-prefixed,
/// compressed or uncompressed) into its 33-byte compressed form.
pub fn normalize_key(text: &str) -> (r: Result<Vec<u8>, KvError>)
    ensures
        match normalized_key(text@) {
            Some(k) => r is Ok && r->Ok_0@ == k,
            None => r == Err::<Vec<u8>, KvError>(KvError::InvalidKey),
        },
        r is Ok ==> r->Ok_0@.len() == 33,
{
    let n = text.unicode_len();
    let digits: &str = if n >= 2 && text.get_char(0) == '0' && text.get_char(1) == 'x' {
        text.substring_char(2, n)
    } else {
        text
    };
    assert(digits@ == strip_hex_prefix(text@));
    match hex_decode(digits) {
        None => Err(KvError::InvalidKey),
        Some(bytes) => match compress_key(bytes.as_slice()) {
            None => Err(KvError::InvalidKey),
            Some(k) => Ok(k),
        },
    }
}

/// Picks the key of a proposal (`avatar` over `persona`) and normalizes it.
pub fn persona_from_request(persona: Option<String>, avatar: Option<String>) -> (r: Result<
    Vec<u8>,
    KvError,
>)
    ensures
        match chosen_key_text(opt_text(persona), opt_text(avatar)) {
            None => r == Err::<Vec<u8>, KvError>(KvError::MissingParameter),
            Some(t) => match normalized_key(t) {
                Some(k) => r is Ok && r->Ok_0@ == k,
                None => r == Err::<Vec<u8>, KvError>(KvError::InvalidKey),
            },
        },
{
    let chosen = match avatar {
        Some(a) => Some(a),
        None => persona,
    };
    match chosen {
        None => Err(KvError::MissingParameter),
        Some(t) => normalize_key(t.as_str()),
    }
}

/// `0x` followed by the persona's bytes in lower-case hex.
pub fn persona_hex(persona: &[u8]) -> (r: String)
    ensures
        r@ == persona_text(persona@),
{
    let mut s = String::from_str("0x");
    proof {
        reveal_strlit("0x");
    }
    let h = hex_encode(persona);
    s.append(h.as_str());
    s
}

} // verus!
