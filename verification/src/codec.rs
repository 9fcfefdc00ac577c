//! The calls into outside crates that the wallet logic makes: Ed25519 key
//! derivation and signing (`ed25519-dalek`), standard base64 (`base64`), hex
//! (`hex`) and JSON byte arrays (`serde_json`). Each is a thin wrapper whose
//! contract states what the crate computes.

use vstd::prelude::*;
use vstd::string::*;
use base64::Engine;
use ed25519_dalek::Signer;
use crate::text::decimal;

verus! {

// ============================================================
// Ed25519 (ed25519-dalek)
// ============================================================

/// The 32-byte Ed25519 public key (compressed Edwards point) of a 32-byte seed,
/// as RFC 8032 derives it.
pub uninterp spec fn ed25519_verifying_key(seed: Seq<u8>) -> Seq<u8>;

/// The 64-byte Ed25519 signature (RFC 8032, SHA-512) of `message` under the
/// key derived from the 32-byte `seed`. Ed25519 signing is deterministic.
pub uninterp spec fn ed25519_signature(seed: Seq<u8>, message: Seq<u8>) -> Seq<u8>;

/// `SigningKey::from_bytes(seed).verifying_key().as_bytes()`: the claim is that
/// the returned bytes are the public key of the seed, a function of the seed
/// alone.
#[verifier::external_body]
pub(crate) fn public_key_of_seed(seed: &[u8]) -> (key: [u8; 32])
    requires
        seed@.len() == 32,
    ensures
        key@ == ed25519_verifying_key(seed@),
{
    let seed: [u8; 32] = seed.try_into().unwrap();
    *ed25519_dalek::SigningKey::from_bytes(&seed).verifying_key().as_bytes()
}

/// `SigningKey::from_bytes(seed).sign(message).to_bytes()`: the claim is that
/// the returned bytes are the Ed25519 signature of the message under the seed,
/// a function of those two alone.
#[verifier::external_body]
pub(crate) fn sign_with_seed(seed: &[u8], message: &[u8]) -> (signature: [u8; 64])
    requires
        seed@.len() == 32,
    ensures
        signature@ == ed25519_signature(seed@, message@),
{
    let seed: [u8; 32] = seed.try_into().unwrap();
    ed25519_dalek::SigningKey::from_bytes(&seed).sign(message).to_bytes()
}

// ============================================================
// Base64, standard alphabet with padding (base64::engine::general_purpose::STANDARD)
// ============================================================

/// The character of a 6-bit value in the standard base64 alphabet.
pub open spec fn base64_char(v: nat) -> char {
    if v < 26 {
        (65 + v) as char
    } else if v < 52 {
        (71 + v) as char
    } else if v < 62 {
        (v - 4) as char
    } else if v == 62 {
        '+'
    } else {
        '/'
    }
}

/// Standard base64 with `=` padding (RFC 4648, section 4): every three bytes
/// become four characters; a final group of one or two bytes is padded.
pub open spec fn base64_encode(b: Seq<u8>) -> Seq<char>
    decreases b.len(),
{
    if b.len() == 0 {
        seq![]
    } else if b.len() == 1 {
        seq![base64_char((b[0] / 4) as nat), base64_char(((b[0] % 4) * 16) as nat), '=', '=']
    } else if b.len() == 2 {
        seq![
            base64_char((b[0] / 4) as nat),
            base64_char(((b[0] % 4) * 16 + b[1] / 16) as nat),
            base64_char(((b[1] % 16) * 4) as nat),
            '=',
        ]
    } else {
        seq![
            base64_char((b[0] / 4) as nat),
            base64_char(((b[0] % 4) * 16 + b[1] / 16) as nat),
            base64_char(((b[1] % 16) * 4 + b[2] / 64) as nat),
            base64_char((b[2] % 64) as nat),
        ] + base64_encode(b.skip(3))
    }
}

/// What `STANDARD.decode` gives for the bytes of a text: the decoded bytes, or
/// the text of its `DecodeError` (which names the offending byte and offset,
/// a bad length, or bad padding). Which inputs it accepts (canonical padding,
/// no trailing bits) takes pages to state; it depends on the input alone.
pub uninterp spec fn base64_standard_decode(text: Seq<u8>) -> Result<Seq<u8>, Seq<char>>;

/// `STANDARD.encode(bytes)`: the claim is standard padded base64 of the bytes.
/// The crate panics when the output length overflows `usize`, which the
/// precondition rules out.
#[verifier::external_body]
pub(crate) fn base64_encode_standard(bytes: &[u8]) -> (text: String)
    requires
        (bytes@.len() / 3) * 4 + 4 <= usize::MAX,
    ensures
        text@ == base64_encode(bytes@),
{
    base64::engine::general_purpose::STANDARD.encode(bytes)
}

/// `STANDARD.decode(text)`, the error turned into its message: the claim is
/// that the outcome is the one named by `base64_standard_decode` for the bytes
/// of the text, and that decoded data is never longer than the text (four
/// characters give at most three bytes).
#[verifier::external_body]
pub(crate) fn base64_decode_standard(text: &str) -> (r: Result<Vec<u8>, String>)
    ensures
        match r {
            Ok(v) => base64_standard_decode(text.spec_bytes()) == Ok::<Seq<u8>, Seq<char>>(v@)
                && v@.len() <= text.spec_bytes().len(),
            Err(m) => base64_standard_decode(text.spec_bytes()) == Err::<Seq<u8>, Seq<char>>(m@),
        },
{
    match base64::engine::general_purpose::STANDARD.decode(text) {
        Ok(v) => Ok(v),
        Err(e) => Err(e.to_string()),
    }
}

// ============================================================
// Hex (hex::decode)
// ============================================================

/// The value of an ASCII hex digit byte (either case).
pub open spec fn hex_digit_value(b: u8) -> Option<nat> {
    if 48 <= b <= 57 {
        Some((b - 48) as nat)
    } else if 65 <= b <= 70 {
        Some((b - 55) as nat)
    } else if 97 <= b <= 102 {
        Some((b - 87) as nat)
    } else {
        None
    }
}

/// Every byte is a hex digit.
pub open spec fn all_hex_digits(b: Seq<u8>) -> bool {
    forall|i: int| 0 <= i < b.len() ==> (#[trigger] hex_digit_value(b[i])) is Some
}

/// The bytes that consecutive pairs of hex digits denote.
pub open spec fn hex_pairs(b: Seq<u8>) -> Seq<u8> {
    Seq::new(
        b.len() / 2,
        |i: int|
            (hex_digit_value(b[2 * i]).unwrap() * 16 + hex_digit_value(b[2 * i + 1]).unwrap()) as u8,
    )
}

/// The index of the first byte of `bytes` that is no hex digit (the length
/// when there is none).
pub open spec fn first_non_hex(bytes: Seq<u8>) -> nat
    decreases bytes.len(),
{
    if bytes.len() == 0 {
        0
    } else if hex_digit_value(bytes[0]) is None {
        0
    } else {
        1 + first_non_hex(bytes.drop_first())
    }
}

/// How Rust's `{:?}` writes a character: quoted in single quotes, with some
/// characters escaped.
pub uninterp spec fn char_debug(c: char) -> Seq<char>;

/// The text of `FromHexError::InvalidHexCharacter` for the first byte of
/// `bytes` that is no hex digit: "Invalid character ", that byte as a
/// character in Rust's debug form, " at position " and its index.
pub open spec fn hex_invalid_character_message(bytes: Seq<u8>) -> Seq<char> {
    "Invalid character "@ + char_debug(bytes[first_non_hex(bytes) as int] as char) + " at position "@
        + decimal(first_non_hex(bytes))
}

/// `hex::decode(text)`, the error turned into its message: the claim is that
/// an even number of hex-digit bytes decodes pair by pair, an odd number gives
/// "Odd number of digits", and otherwise the message names the first byte that
/// is no hex digit and its index; how `{:?}` quotes that byte is named by
/// `char_debug`, not spelled out.
#[verifier::external_body]
pub(crate) fn hex_decode(text: &str) -> (r: Result<Vec<u8>, String>)
    ensures
        match r {
            Ok(v) => text.spec_bytes().len() % 2 == 0 && all_hex_digits(text.spec_bytes()) && v@
                == hex_pairs(text.spec_bytes()),
            Err(m) => if text.spec_bytes().len() % 2 != 0 {
                m@ == "Odd number of digits"@
            } else {
                !all_hex_digits(text.spec_bytes()) && m@ == "Invalid character "@ + char_debug(
                    text.spec_bytes()[first_non_hex(text.spec_bytes()) as int] as char,
                ) + " at position "@ + decimal(first_non_hex(text.spec_bytes()))
            },
        },
{
    match hex::decode(text) {
        Ok(v) => Ok(v),
        Err(e) => Err(e.to_string()),
    }
}

// ============================================================
// JSON byte arrays (serde_json::from_str::<Vec<u8>>)
// ============================================================

/// What `serde_json::from_str::<Vec<u8>>` gives for a text: the array of bytes,
/// or the text of the `serde_json::Error` (with line and column). JSON syntax
/// and the error texts take pages to state; the outcome depends on the text
/// alone.
pub uninterp spec fn json_byte_array(text: Seq<char>) -> Result<Seq<u8>, Seq<char>>;

/// `serde_json::from_str::<Vec<u8>>(text)`, the error turned into its message:
/// the claim is that the outcome is the one named by `json_byte_array`.
#[verifier::external_body]
pub(crate) fn parse_json_byte_array(text: &str) -> (r: Result<Vec<u8>, String>)
    ensures
        match r {
            Ok(v) => json_byte_array(text@) == Ok::<Seq<u8>, Seq<char>>(v@),
            Err(m) => json_byte_array(text@) == Err::<Seq<u8>, Seq<char>>(m@),
        },
{
    match serde_json::from_str::<Vec<u8>>(text) {
        Ok(v) => Ok(v),
        Err(e) => Err(e.to_string()),
    }
}

} // verus!
