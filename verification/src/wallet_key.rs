//! The bot wallet's key: parsing `WALLET_PRIVATE_KEY` (a JSON byte array, 128
//! hex digits, or base58) and deriving the Solana public key from it.

use vstd::prelude::*;
use vstd::string::*;
use crate::base58::{
    base58_decode, base58_encode, bs58_decode, decoded_view, law_decode_encode_roundtrip, lemma_encode_chars,
};
use crate::codec::{
    ed25519_verifying_key, hex_decode, hex_digit_value, hex_invalid_character_message, hex_pairs,
    all_hex_digits, json_byte_array, parse_json_byte_array, public_key_of_seed,
};
use crate::text::{decimal, decimal_string, is_whitespace, trim, trimmed};

verus! {

/// The wallet key material the bot signs with.
pub struct WalletKey {
    /// The base58 Solana address of the key.
    pub public_key: String,
    /// The private key bytes as given (a 32-byte seed, or the 64-byte keypair
    /// whose first 32 bytes are the seed).
    pub private_key_bytes: Vec<u8>,
}

/// The UTF-8 bytes of a character sequence.
pub open spec fn utf8_bytes(s: Seq<char>) -> Seq<u8> {
    vstd::utf8::encode_utf8(s)
}

/// The bytes that the trimmed key text denotes, or the parse error: text that
/// starts with `[` is a JSON byte array, text of 128 bytes is hex, anything
/// else is base58.
pub open spec fn key_bytes_of_text(t: Seq<char>) -> Result<Seq<u8>, Seq<char>> {
    if t.len() > 0 && t[0] == '[' {
        match json_byte_array(t) {
            Ok(b) => Ok(b),
            Err(e) => Err("Failed to parse private key JSON array: "@ + e),
        }
    } else if utf8_bytes(t).len() == 128 {
        let b = utf8_bytes(t);
        if all_hex_digits(b) {
            Ok(hex_pairs(b))
        } else {
            Err("Failed to decode hex private key: "@ + hex_invalid_character_message(b))
        }
    } else {
        base58_decode(t)
    }
}

/// The base58 address of the Ed25519 key whose seed is the first 32 bytes.
pub open spec fn public_key_text(key: Seq<u8>) -> Seq<char> {
    base58_encode(ed25519_verifying_key(key.take(32)))
}

/// What loading the wallet key from the text of `WALLET_PRIVATE_KEY` gives:
/// the key bytes and their address, or the message of the first failure.
pub open spec fn wallet_key_spec(text: Seq<char>) -> Result<(Seq<u8>, Seq<char>), Seq<char>> {
    match key_bytes_of_text(trimmed(text)) {
        Err(e) => Err(e),
        Ok(b) => if b.len() < 32 {
            Err("Private key too short: "@ + decimal(b.len()) + " bytes (need at least 32)"@)
        } else {
            Ok((b, public_key_text(b)))
        },
    }
}

/// The view of a wallet-key result.
pub open spec fn wallet_key_view(r: Result<WalletKey, String>) -> Result<(Seq<u8>, Seq<char>), Seq<char>> {
    match r {
        Ok(k) => Ok((k.private_key_bytes@, k.public_key@)),
        Err(m) => Err(m@),
    }
}

/// The view of a text result.
pub open spec fn string_result_view(r: Result<String, String>) -> Result<Seq<char>, Seq<char>> {
    match r {
        Ok(s) => Ok(s@),
        Err(m) => Err(m@),
    }
}

/// Derive Solana public key from 32-byte seed using Ed25519
pub fn derive_public_key(private_key_bytes: &[u8]) -> (r: Result<String, String>)
    ensures
        string_result_view(r) == if private_key_bytes@.len() < 32 {
            Err::<Seq<char>, Seq<char>>("Private key too short: need at least 32 bytes"@)
        } else {
            Ok::<Seq<char>, Seq<char>>(public_key_text(private_key_bytes@))
        },
{
    if private_key_bytes.len() < 32 {
        return Err(String::from_str("Private key too short: need at least 32 bytes"));
    }
    let seed = &private_key_bytes[0..32];
    assert(seed@ =~= private_key_bytes@.take(32));
    let verifying_key = public_key_of_seed(seed);
    Ok(crate::base58::bs58_encode(&verifying_key))
}

/// The bytes that trimmed key text denotes: a JSON byte array when it starts
/// with `[`, 128 hex digits, or else base58.
pub fn decode_key_text(pk_trimmed: &str) -> (r: Result<Vec<u8>, String>)
    ensures
        match r {
            Ok(b) => key_bytes_of_text(pk_trimmed@) == Ok::<Seq<u8>, Seq<char>>(b@),
            Err(m) => key_bytes_of_text(pk_trimmed@) == Err::<Seq<u8>, Seq<char>>(m@),
        },
{
    if pk_trimmed.unicode_len() > 0 && pk_trimmed.get_char(0) == '[' {
        match parse_json_byte_array(pk_trimmed) {
            Ok(b) => {
                Ok(b)
            },
            Err(e) => {
                let mut msg = String::from_str("Failed to parse private key JSON array: ");
                msg.append(e.as_str());
                Err(msg)
            },
        }
    } else if pk_trimmed.as_bytes().len() == 128 {
        match hex_decode(pk_trimmed) {
            Ok(b) => {
                assert(utf8_bytes(pk_trimmed@) == pk_trimmed.spec_bytes());
                assert(!(pk_trimmed@.len() > 0 && pk_trimmed@[0] == '['));
                Ok(b)
            },
            Err(e) => {
                let mut msg = String::from_str("Failed to decode hex private key: ");
                msg.append(e.as_str());
                Err(msg)
            },
        }
    } else {
        let r = bs58_decode(pk_trimmed);
        proof {
            assert(decoded_view(r) == base58_decode(pk_trimmed@));
        }
        r
    }
}

/// Parses the private key text (JSON array `[1,2,...]`, 128 hex digits, or
/// base58, surrounding whitespace ignored) and derives the wallet address.
pub fn load_wallet_key(pk_str: &str) -> (r: Result<WalletKey, String>)
    ensures
        wallet_key_view(r) == wallet_key_spec(pk_str@),
{
    let pk_trimmed = trim(pk_str);
    let private_key_bytes = match decode_key_text(pk_trimmed) {
        Ok(b) => b,
        Err(e) => return Err(e),
    };

    if private_key_bytes.len() < 32 {
        let mut msg = String::from_str("Private key too short: ");
        msg.append(decimal_string(private_key_bytes.len() as u64).as_str());
        msg.append(" bytes (need at least 32)");
        return Err(msg);
    }

    let public_key = match derive_public_key(private_key_bytes.as_slice()) {
        Ok(k) => k,
        Err(e) => return Err(e),
    };
    Ok(WalletKey { public_key, private_key_bytes })
}

/// The wallet address depends on the seed alone: a 64-byte keypair has the
/// address of its first 32 bytes.
pub proof fn law_keypair_and_seed_share_address(seed: Seq<u8>, rest: Seq<u8>)
    requires
        seed.len() == 32,
    ensures
        public_key_text(seed + rest) == public_key_text(seed),
{
    assert((seed + rest).take(32) =~= seed.take(32));
}

/// Text without whitespace is its own trimmed form.
proof fn lemma_trimmed_solid(e: Seq<char>)
    requires
        forall|i: int| 0 <= i < e.len() ==> !is_whitespace(#[trigger] e[i]),
    ensures
        trimmed(e) == e,
{
    if e.len() > 0 {
        assert(!is_whitespace(e[0]));
        let first = choose|i: int|
            0 <= i < e.len() && !is_whitespace(e[i]) && forall|j: int| 0 <= j < i ==> is_whitespace(#[trigger] e[j]);
        if first > 0 {
            assert(is_whitespace(e[0]));
        }
        assert(!is_whitespace(e[e.len() - 1]));
        let last = choose|i: int|
            0 <= i < e.len() && !is_whitespace(e[i]) && forall|j: int| i < j < e.len() ==> is_whitespace(#[trigger] e[j]);
        if last < e.len() - 1 {
            assert(is_whitespace(e[e.len() - 1]));
        }
    }
    assert(trimmed(e) =~= e);
}

/// A key given as base58 text loads as the key itself, with its address
/// (for keys of at least 32 bytes whose text is not 128 characters long,
/// which would be read as hex).
pub proof fn law_base58_key_loads_as_itself(key: Seq<u8>)
    requires
        key.len() >= 32,
        base58_encode(key).len() != 128,
    ensures
        wallet_key_spec(base58_encode(key)) == Ok::<(Seq<u8>, Seq<char>), Seq<char>>((key, public_key_text(key))),
{
    let e = base58_encode(key);
    lemma_encode_chars(key);
    law_decode_encode_roundtrip(key);
    lemma_trimmed_solid(e);
    assert(vstd::utf8::is_ascii_chars(e));
    vstd::utf8::is_ascii_chars_encode_utf8(e);
}

/// The lowercase hex digit of a value below 16.
pub open spec fn hex_digit_char(d: int) -> char {
    if d < 10 {
        (48 + d) as char
    } else {
        (87 + d) as char
    }
}

/// Bytes written as lowercase hex, two digits per byte, high digit first.
pub open spec fn hex_text(bytes: Seq<u8>) -> Seq<char> {
    Seq::new(
        2 * bytes.len(),
        |i: int|
            if i % 2 == 0 {
                hex_digit_char((bytes[i / 2] / 16) as int)
            } else {
                hex_digit_char((bytes[i / 2] % 16) as int)
            },
    )
}

/// A hex digit is an ASCII digit or lowercase letter whose value it has.
proof fn lemma_hex_digit(d: int)
    requires
        0 <= d < 16,
    ensures
        48 <= hex_digit_char(d) as u32 <= 102,
        hex_digit_value(hex_digit_char(d) as u8) == Some(d as nat),
{
}

/// The characters of hex text are hex digits, and its bytes are those
/// characters.
proof fn lemma_hex_text_bytes(key: Seq<u8>)
    ensures
        forall|i: int| 0 <= i < hex_text(key).len() ==> !is_whitespace(#[trigger] hex_text(key)[i]) && hex_text(key)[i] != '[',
        utf8_bytes(hex_text(key)).len() == 2 * key.len(),
        forall|i: int| 0 <= i < 2 * key.len() ==> hex_digit_value(#[trigger] utf8_bytes(hex_text(key))[i]) == Some(
            (if i % 2 == 0 { key[i / 2] / 16 } else { key[i / 2] % 16 }) as nat,
        ),
{
    let t = hex_text(key);
    assert forall|i: int| 0 <= i < t.len() implies 48 <= (#[trigger] t[i]) as u32 <= 102 by {
        lemma_hex_digit((key[i / 2] / 16) as int);
        lemma_hex_digit((key[i / 2] % 16) as int);
    }
    assert(vstd::utf8::is_ascii_chars(t));
    vstd::utf8::is_ascii_chars_encode_utf8(t);
    let bytes = utf8_bytes(t);
    assert forall|i: int| 0 <= i < 2 * key.len() implies hex_digit_value(#[trigger] bytes[i]) == Some(
        (if i % 2 == 0 { key[i / 2] / 16 } else { key[i / 2] % 16 }) as nat,
    ) by {
        assert(bytes[i] == t[i] as u8);
        lemma_hex_digit((key[i / 2] / 16) as int);
        lemma_hex_digit((key[i / 2] % 16) as int);
    }
}

/// Hex text decodes pair by pair to the bytes it was written from.
proof fn lemma_hex_pairs_of_text(key: Seq<u8>)
    ensures
        all_hex_digits(utf8_bytes(hex_text(key))),
        hex_pairs(utf8_bytes(hex_text(key))) == key,
{
    lemma_hex_text_bytes(key);
    let bytes = utf8_bytes(hex_text(key));
    assert forall|i: int| 0 <= i < bytes.len() implies (#[trigger] hex_digit_value(bytes[i])) is Some by {
        assert(hex_digit_value(bytes[i]) is Some);
    }
    assert forall|i: int| 0 <= i < key.len() implies #[trigger] hex_pairs(bytes)[i] == key[i] by {
        assert((2 * i) / 2 == i && (2 * i + 1) / 2 == i && (2 * i) % 2 == 0 && (2 * i + 1) % 2 == 1);
        assert(hex_digit_value(bytes[2 * i]) == Some((key[i] / 16) as nat));
        assert(hex_digit_value(bytes[2 * i + 1]) == Some((key[i] % 16) as nat));
        assert((key[i] / 16) * 16 + key[i] % 16 == key[i]);
    }
    assert(hex_pairs(bytes) =~= key);
}

/// A 64-byte keypair given as its 128 hex digits loads as the keypair itself,
/// with its address.
pub proof fn law_hex_key_loads_as_itself(key: Seq<u8>)
    requires
        key.len() == 64,
    ensures
        wallet_key_spec(hex_text(key)) == Ok::<(Seq<u8>, Seq<char>), Seq<char>>((key, public_key_text(key))),
{
    let t = hex_text(key);
    lemma_hex_text_bytes(key);
    lemma_hex_pairs_of_text(key);
    lemma_trimmed_solid(t);
}

} // verus!
