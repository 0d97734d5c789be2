//! The signature that authenticates a delivery.
//!
//! A delivery is signed with HMAC-SHA256 over its raw body, keyed by a secret
//! that sender and receiver share. The signature travels as text: the prefix
//! `sha256=` followed by the tag in lower-case hexadecimal.

use crate::bytes::text_equal;
use hmac::{Hmac, Mac};
use sha2::Sha256;
use vstd::prelude::*;
use vstd::string::StringExecFns;

verus! {

/// The HMAC-SHA256 tag of `message` under `key`.
pub uninterp spec fn hmac_sha256_tag(key: Seq<u8>, message: Seq<u8>) -> Seq<u8>;

/// Computes a tag with `Hmac::<Sha256>`: `new_from_slice`, one `update` with
/// the whole message, then `finalize().into_bytes()`.
///
/// Trusted: the tag is a function of key and message alone, and a tag always
/// comes back, since the key setup of this MAC pads or hashes a key of any
/// length and has no failing path.
#[verifier::external_body]
fn hmac_sha256(key: &[u8], message: &[u8]) -> (tag: Option<Vec<u8>>)
    ensures
        tag is Some,
        tag->0@ == hmac_sha256_tag(key@, message@),
{
    match Hmac::<Sha256>::new_from_slice(key) {
        Ok(mut mac) => {
            mac.update(message);
            Some(mac.finalize().into_bytes().to_vec())
        },
        Err(_) => None,
    }
}

/// The sixteen digits of lower-case hexadecimal, by value.
pub open spec fn hex_digits() -> Seq<char> {
    seq!['0', '1', '2', '3', '4', '5', '6', '7', '8', '9', 'a', 'b', 'c', 'd', 'e', 'f']
}

/// Lower-case hexadecimal: two digits for each byte, the high half first.
pub open spec fn hex_lower(bytes: Seq<u8>) -> Seq<char> {
    Seq::new(
        2 * bytes.len(),
        |i: int|
            if i % 2 == 0 {
                hex_digits()[bytes[i / 2] as int / 16]
            } else {
                hex_digits()[bytes[i / 2] as int % 16]
            },
    )
}

/// Encodes with `hex::encode`.
///
/// Trusted: the text holds, for each byte in order, its high and then its low
/// half as a digit out of `0123456789abcdef`.
#[verifier::external_body]
fn hex_encode(bytes: &[u8]) -> (text: String)
    ensures
        text@ == hex_lower(bytes@),
{
    hex::encode(bytes)
}

/// What every signature starts with.
pub open spec fn signature_prefix() -> Seq<char> {
    seq!['s', 'h', 'a', '2', '5', '6', '=']
}

/// A tag as the text of a signature: the prefix, then the tag in hexadecimal.
pub open spec fn signature_text(tag: Seq<u8>) -> Seq<char> {
    signature_prefix() + hex_lower(tag)
}

/// The signature that belongs to `body` under `secret`.
pub open spec fn signature_of(secret: Seq<u8>, body: Seq<u8>) -> Seq<char> {
    signature_text(hmac_sha256_tag(secret, body))
}

/// Whether `signature` authenticates `body` under `secret`: it is, character
/// for character, the signature that belongs to the body.
pub open spec fn signature_valid(secret: Seq<u8>, body: Seq<u8>, signature: Seq<char>) -> bool {
    signature == signature_of(secret, body)
}

/// Writes a tag as the text of a signature.
pub fn signature_for(tag: &[u8]) -> (text: String)
    ensures
        text@ == signature_text(tag@),
{
    let mut text = String::from_str("sha256=");
    proof {
        reveal_strlit("sha256=");
        assert(text@ =~= signature_prefix());
    }
    let digits = hex_encode(tag);
    text.append(digits.as_str());
    text
}

/// Signs `body` under `secret`. `None` only if the MAC could not be set up,
/// which its key setup rules out.
pub fn sign(secret: &[u8], body: &[u8]) -> (signature: Option<String>)
    ensures
        signature matches Some(s) && s@ == signature_of(secret@, body@),
{
    match hmac_sha256(secret, body) {
        Some(tag) => Some(signature_for(tag.as_slice())),
        None => None,
    }
}

/// Decides whether `signature` authenticates `body` under `secret`. The body
/// is taken as received: the bytes that were signed are the bytes checked.
pub fn verify(secret: &[u8], body: &[u8], signature: &str) -> (ok: bool)
    ensures
        ok == signature_valid(secret@, body@, signature@),
{
    match sign(secret, body) {
        Some(expected) => text_equal(expected.as_str(), signature),
        None => false,
    }
}

/// Two digits that are equal stand for the same half byte.
proof fn lemma_hex_digit_injective(x: int, y: int)
    requires
        0 <= x < 16,
        0 <= y < 16,
        hex_digits()[x] == hex_digits()[y],
    ensures
        x == y,
{
}

/// Hexadecimal loses nothing: equal text comes from equal bytes.
pub proof fn lemma_hex_lower_injective(a: Seq<u8>, b: Seq<u8>)
    requires
        hex_lower(a) == hex_lower(b),
    ensures
        a == b,
{
    assert(hex_lower(a).len() == 2 * a.len());
    assert(hex_lower(b).len() == 2 * b.len());
    assert forall|k: int| 0 <= k < a.len() implies a[k] == b[k] by {
        let high = 2 * k;
        let low = 2 * k + 1;
        assert(high / 2 == k && high % 2 == 0);
        assert(low / 2 == k && low % 2 == 1);
        assert(hex_lower(a)[high] == hex_digits()[a[k] as int / 16]);
        assert(hex_lower(b)[high] == hex_digits()[b[k] as int / 16]);
        assert(hex_lower(a)[low] == hex_digits()[a[k] as int % 16]);
        assert(hex_lower(b)[low] == hex_digits()[b[k] as int % 16]);
        lemma_hex_digit_injective(a[k] as int / 16, b[k] as int / 16);
        lemma_hex_digit_injective(a[k] as int % 16, b[k] as int % 16);
    }
    assert(a =~= b);
}

/// The text of a signature loses nothing of the tag: tags that are written
/// alike are the same tag.
pub proof fn lemma_signature_text_injective(tag: Seq<u8>, other: Seq<u8>)
    requires
        signature_text(tag) == signature_text(other),
    ensures
        tag == other,
{
    let p = signature_prefix();
    let x = hex_lower(tag);
    let y = hex_lower(other);
    assert((p + x).subrange(p.len() as int, (p + x).len() as int) =~= x);
    assert((p + y).subrange(p.len() as int, (p + y).len() as int) =~= y);
    lemma_hex_lower_injective(tag, other);
}

/// A body is authenticated by the signature made for it under the same secret.
pub proof fn lemma_own_signature_verifies(secret: Seq<u8>, body: Seq<u8>)
    ensures
        signature_valid(secret, body, signature_of(secret, body)),
{
}

/// A signature that was changed in one position authenticates nothing that the
/// unchanged one did.
pub proof fn lemma_altered_signature_rejected(
    secret: Seq<u8>,
    body: Seq<u8>,
    altered: Seq<char>,
    at: int,
)
    requires
        altered.len() == signature_of(secret, body).len(),
        0 <= at < altered.len(),
        altered[at] != signature_of(secret, body)[at],
    ensures
        !signature_valid(secret, body, altered),
{
}

/// A body that was changed is not authenticated by the signature made for it
/// before the change, unless both bodies have the same tag under the secret.
pub proof fn lemma_altered_body_rejected(secret: Seq<u8>, body: Seq<u8>, altered: Seq<u8>)
    requires
        hmac_sha256_tag(secret, altered) != hmac_sha256_tag(secret, body),
    ensures
        !signature_valid(secret, altered, signature_of(secret, body)),
{
    if signature_of(secret, altered) == signature_of(secret, body) {
        lemma_signature_text_injective(
            hmac_sha256_tag(secret, altered),
            hmac_sha256_tag(secret, body),
        );
    }
}

} // verus!
