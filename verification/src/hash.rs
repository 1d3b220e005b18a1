//! The Fiat-Shamir hash: from the text of a transcript to a challenge scalar.

use crate::field::{be_bytes_value, scalar_modulus, Scalar};
use hex::FromHexError;
use vstd::prelude::*;

verus! {

/// The SHA-256 digest of the UTF-8 bytes of a text, written as hexadecimal
/// digits.
pub uninterp spec fn sha256_hex(message: Seq<char>) -> Seq<char>;

/// The value of a hexadecimal digit of either case.
pub open spec fn hex_digit_value(c: char) -> Option<u8> {
    if '0' <= c <= '9' {
        Some((c as u8 - '0' as u8) as u8)
    } else if 'a' <= c <= 'f' {
        Some((c as u8 - 'a' as u8 + 10) as u8)
    } else if 'A' <= c <= 'F' {
        Some((c as u8 - 'A' as u8 + 10) as u8)
    } else {
        None
    }
}

/// Whether a text is made of the hexadecimal digits of `n` bytes.
pub open spec fn is_hex_text(text: Seq<char>, n: nat) -> bool {
    &&& text.len() == 2 * n
    &&& forall|i: int| 0 <= i < text.len() ==> (#[trigger] hex_digit_value(text[i])) is Some
}

/// The bytes that a text of hexadecimal digits spells, two digits to a byte,
/// the high digit first.
pub open spec fn hex_bytes(text: Seq<char>) -> Seq<u8> {
    Seq::new(
        text.len() / 2,
        |i: int|
            (16 * hex_digit_value(text[2 * i]).unwrap() + hex_digit_value(
                text[2 * i + 1],
            ).unwrap()) as u8,
    )
}

/// The scalar that a digest stands for: its bytes read as a big-endian
/// number, reduced modulo the group order.
pub open spec fn digest_scalar(digest: Seq<char>) -> nat {
    be_bytes_value(hex_bytes(digest)) % scalar_modulus()
}

/// The challenge that a transcript hashes to.
pub open spec fn challenge(transcript: Seq<char>) -> nat {
    digest_scalar(sha256_hex(transcript))
}

/// The error of the outside decoder of hexadecimal text.
#[verifier::external_type_specification]
#[verifier::external_body]
pub struct ExFromHexError(FromHexError);

/// The scalar that a digest of 64 hexadecimal digits stands for; no scalar
/// for any other text.
pub fn scalar_from_digest(digest: &str) -> (r: Option<Scalar>)
    ensures
        r is Some <==> is_hex_text(digest@, 32),
        r matches Some(s) ==> s@ == digest_scalar(digest@),
{
    match hex_decode_32(digest) {
        Ok(bytes) => Some(Scalar::from_be_bytes_mod_order(bytes.as_slice())),
        Err(_) => None,
    }
}

/// The challenge that a transcript hashes to.
pub fn hash_to_scalar(transcript: &str) -> (r: Scalar)
    ensures
        r@ == challenge(transcript@),
{
    let digest = sha256_digest(transcript);
    match scalar_from_digest(digest.as_str()) {
        Some(s) => s,
        None => vstd::pervasive::unreached(),
    }
}

/// Calls `sha256::digest` on a text. The contract claims that the result
/// depends on the text alone and is made of 64 hexadecimal digits, the
/// encoding of the 32 bytes of a SHA-256 hash.
#[verifier::external_body]
fn sha256_digest(message: &str) -> (d: String)
    ensures
        d@ == sha256_hex(message@),
        is_hex_text(d@, 32),
{
    sha256::digest(message)
}

/// Calls `hex::decode_to_slice` with room for 32 bytes. The contract claims
/// that decoding succeeds on exactly the texts of 64 hexadecimal digits, and
/// gives the bytes that the digits spell.
#[verifier::external_body]
fn hex_decode_32(text: &str) -> (r: Result<[u8; 32], FromHexError>)
    ensures
        r is Ok <==> is_hex_text(text@, 32),
        r matches Ok(bytes) ==> bytes@ == hex_bytes(text@),
{
    let mut out = [0u8; 32];
    match hex::decode_to_slice(text, &mut out) {
        Ok(()) => Ok(out),
        Err(e) => Err(e),
    }
}

} // verus!
