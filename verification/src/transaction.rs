//! Signing a serialized legacy Solana transaction:
//! `[compact-u16 signature count][64-byte signature slots][message]`.
//! Only the message bytes are signed; the signature goes into the first slot.

use vstd::prelude::*;
use vstd::string::*;
use crate::codec::{
    base64_decode_standard, base64_encode, base64_encode_standard, base64_standard_decode,
    ed25519_signature, sign_with_seed,
};
use crate::text::{decimal, decimal_string};

verus! {

/// The compact-u16 (shortvec) prefix of `b`: its value and its length in
/// bytes, or the message for a prefix that is missing, cut off, or whose value
/// does not fit in sixteen bits. Up to three bytes are read; each but the last
/// contributes its low seven bits, and a third byte may carry only two.
pub open spec fn compact_u16(b: Seq<u8>) -> Result<(nat, nat), Seq<char>> {
    if b.len() == 0 {
        Err("Empty bytes for compact-u16 decode"@)
    } else if b[0] <= 0x7f {
        Ok((b[0] as nat, 1))
    } else if b.len() < 2 {
        Err("Compact-u16 truncated (need 2 bytes)"@)
    } else if b[1] <= 0x7f {
        Ok(((b[0] % 128) as nat + (b[1] as nat) * 128, 2))
    } else if b.len() < 3 {
        Err("Compact-u16 truncated (need 3 bytes)"@)
    } else if b[2] > 0x03 {
        Err("Compact-u16 value exceeds u16 range"@)
    } else {
        Ok(((b[0] % 128) as nat + ((b[1] % 128) as nat) * 128 + (b[2] as nat) * 16384, 3))
    }
}

/// The view of a compact-u16 decoding result.
pub open spec fn compact_view(r: Result<(usize, usize), String>) -> Result<(nat, nat), Seq<char>> {
    match r {
        Ok((v, n)) => Ok((v as nat, n as nat)),
        Err(m) => Err(m@),
    }
}

/// Decode compact-u16 from start of bytes, returns (value, bytes_consumed)
pub fn decode_compact_u16(bytes: &[u8]) -> (r: Result<(usize, usize), String>)
    ensures
        compact_view(r) == compact_u16(bytes@),
        r matches Ok((v, n)) ==> v <= 0xffff && 1 <= n <= 3,
{
    if bytes.len() == 0 {
        return Err(String::from_str("Empty bytes for compact-u16 decode"));
    }
    let b0 = bytes[0] as usize;
    if b0 <= 0x7f {
        return Ok((b0, 1));
    }
    if bytes.len() < 2 {
        return Err(String::from_str("Compact-u16 truncated (need 2 bytes)"));
    }
    let b1 = bytes[1] as usize;
    if b1 <= 0x7f {
        return Ok(((b0 % 128) + b1 * 128, 2));
    }
    if bytes.len() < 3 {
        return Err(String::from_str("Compact-u16 truncated (need 3 bytes)"));
    }
    let b2 = bytes[2] as usize;
    if b2 > 0x03 {
        return Err(String::from_str("Compact-u16 value exceeds u16 range"));
    }
    Ok(((b0 % 128) + (b1 % 128) * 128 + b2 * 16384, 3))
}

/// `tx` with the 64 bytes from `start` on replaced by `signature`.
pub open spec fn with_signature_at(tx: Seq<u8>, start: int, signature: Seq<u8>) -> Seq<u8> {
    tx.subrange(0, start) + signature + tx.subrange(start + 64, tx.len() as int)
}

/// What injecting a signature into the first slot of `tx` gives.
pub open spec fn inject_signature_spec(tx: Seq<u8>, signature: Seq<u8>) -> Result<Seq<u8>, Seq<char>> {
    if tx.len() == 0 {
        Err("Transaction bytes are empty"@)
    } else {
        match compact_u16(tx) {
            Err(m) => Err(m),
            Ok((_, prefix_len)) => if tx.len() < prefix_len + 64 {
                Err(
                    "Transaction too short to inject signature: "@ + decimal(tx.len()) + " bytes (need at least "@
                        + decimal(prefix_len + 64) + ")"@,
                )
            } else {
                Ok(with_signature_at(tx, prefix_len as int, signature))
            },
        }
    }
}

/// The view of a byte-vector result with a message error.
pub open spec fn bytes_result_view(r: Result<Vec<u8>, String>) -> Result<Seq<u8>, Seq<char>> {
    match r {
        Ok(v) => Ok(v@),
        Err(m) => Err(m@),
    }
}

/// Inject signature into first slot of a Solana transaction.
/// Format: [compact-u16 num_sigs][64-byte sig slot 0][...rest...]
pub fn inject_signature(tx_bytes: Vec<u8>, signature: [u8; 64]) -> (r: Result<Vec<u8>, String>)
    ensures
        bytes_result_view(r) == inject_signature_spec(tx_bytes@, signature@),
{
    let mut tx_bytes = tx_bytes;
    if tx_bytes.len() == 0 {
        return Err(String::from_str("Transaction bytes are empty"));
    }
    let prefix_len = match decode_compact_u16(tx_bytes.as_slice()) {
        Ok((_, n)) => n,
        Err(e) => return Err(e),
    };
    let sig_start = prefix_len;
    let sig_end = sig_start + 64;
    if tx_bytes.len() < sig_end {
        let mut msg = String::from_str("Transaction too short to inject signature: ");
        msg.append(decimal_string(tx_bytes.len() as u64).as_str());
        msg.append(" bytes (need at least ");
        msg.append(decimal_string(sig_end as u64).as_str());
        msg.append(")");
        return Err(msg);
    }
    let ghost old_tx = tx_bytes@;
    let mut k: usize = 0;
    while k < 64
        invariant
            sig_end == sig_start + 64,
            sig_end <= old_tx.len(),
            tx_bytes@.len() == old_tx.len(),
            k <= 64,
            forall|t: int|
                0 <= t < tx_bytes@.len() ==> #[trigger] tx_bytes@[t] == if sig_start <= t < sig_start
                    + k {
                    signature@[t - sig_start]
                } else {
                    old_tx[t]
                },
        decreases 64 - k,
    {
        tx_bytes.set(sig_start + k, signature[k]);
        k += 1;
    }
    assert(tx_bytes@ =~= with_signature_at(old_tx, sig_start as int, signature@));
    Ok(tx_bytes)
}

/// Where the message starts: after the prefix and the signature slots.
pub open spec fn message_start(num_sigs: nat, prefix_len: nat) -> nat {
    prefix_len + num_sigs * 64
}

/// What signing the message of `tx` with the first 32 bytes of `key` gives.
pub open spec fn sign_transaction_spec(tx: Seq<u8>, key: Seq<u8>) -> Result<Seq<u8>, Seq<char>> {
    if key.len() < 32 {
        Err("Private key too short for signing"@)
    } else {
        match compact_u16(tx) {
            Err(m) => Err(m),
            Ok((num_sigs, prefix_len)) => {
                let start = message_start(num_sigs, prefix_len);
                if tx.len() <= start {
                    Err(
                        "Transaction too short: "@ + decimal(tx.len()) + " bytes, message starts at offset "@
                            + decimal(start),
                    )
                } else {
                    Ok(ed25519_signature(key.take(32), tx.skip(start as int)))
                }
            },
        }
    }
}

/// The view of a signature result.
pub open spec fn signature_result_view(r: Result<[u8; 64], String>) -> Result<Seq<u8>, Seq<char>> {
    match r {
        Ok(s) => Ok(s@),
        Err(m) => Err(m@),
    }
}

/// Sign transaction with Ed25519 using private key.
/// Solana transaction format: [compact-u16 num_sigs][sig slots][message]
/// Only the message bytes are signed (after the signature slots).
pub fn sign_transaction(tx_bytes: &[u8], private_key_bytes: &[u8]) -> (r: Result<[u8; 64], String>)
    ensures
        signature_result_view(r) == sign_transaction_spec(tx_bytes@, private_key_bytes@),
{
    if private_key_bytes.len() < 32 {
        return Err(String::from_str("Private key too short for signing"));
    }
    let (num_sigs, prefix_len) = match decode_compact_u16(tx_bytes) {
        Ok(p) => p,
        Err(e) => return Err(e),
    };
    assert(num_sigs < 4194304);
    let message_start = prefix_len + num_sigs * 64;
    if tx_bytes.len() <= message_start {
        let mut msg = String::from_str("Transaction too short: ");
        msg.append(decimal_string(tx_bytes.len() as u64).as_str());
        msg.append(" bytes, message starts at offset ");
        msg.append(decimal_string(message_start as u64).as_str());
        return Err(msg);
    }
    let message_bytes = &tx_bytes[message_start..tx_bytes.len()];
    let seed = &private_key_bytes[0..32];
    assert(seed@ =~= private_key_bytes@.take(32));
    assert(message_bytes@ =~= tx_bytes@.skip(message_start as int));
    Ok(sign_with_seed(seed, message_bytes))
}

/// What signing a base64 transaction gives: the transaction decoded, its
/// message signed, the signature put into the first slot, and the result
/// encoded again.
pub open spec fn sign_serialized_spec(base64_tx: Seq<u8>, key: Seq<u8>) -> Result<Seq<char>, Seq<char>> {
    match base64_standard_decode(base64_tx) {
        Err(e) => Err("Failed to decode base64 transaction: "@ + e),
        Ok(tx) => match sign_transaction_spec(tx, key) {
            Err(m) => Err(m),
            Ok(signature) => match inject_signature_spec(tx, signature) {
                Err(m) => Err(m),
                Ok(signed) => Ok(base64_encode(signed)),
            },
        },
    }
}

/// The view of a text result.
pub open spec fn text_result_view(r: Result<String, String>) -> Result<Seq<char>, Seq<char>> {
    match r {
        Ok(s) => Ok(s@),
        Err(m) => Err(m@),
    }
}

/// Signs a base64-encoded legacy transaction (as Jupiter's swap endpoint
/// returns it) with the wallet key and returns the signed transaction in
/// base64, ready for `sendTransaction`.
pub fn sign_serialized_transaction(base64_tx: &str, private_key_bytes: &[u8]) -> (r: Result<
    String,
    String,
>)
    requires
        base64_tx.spec_bytes().len() <= usize::MAX / 2,
    ensures
        text_result_view(r) == sign_serialized_spec(base64_tx.spec_bytes(), private_key_bytes@),
{
    let tx_bytes = match base64_decode_standard(base64_tx) {
        Ok(b) => b,
        Err(e) => {
            let mut msg = String::from_str("Failed to decode base64 transaction: ");
            msg.append(e.as_str());
            return Err(msg);
        },
    };
    let signature = match sign_transaction(tx_bytes.as_slice(), private_key_bytes) {
        Ok(s) => s,
        Err(e) => return Err(e),
    };
    let signed = match inject_signature(tx_bytes, signature) {
        Ok(t) => t,
        Err(e) => return Err(e),
    };
    Ok(base64_encode_standard(signed.as_slice()))
}

/// Signing and injecting fit together: a transaction with at least one
/// signature slot that is long enough to be signed takes any 64-byte
/// signature; the result differs from the transaction only in the first
/// slot, which holds the signature, so the message that was signed is left
/// as it was.
pub proof fn law_injection_keeps_signed_message(tx: Seq<u8>, signature: Seq<u8>)
    requires
        signature.len() == 64,
        compact_u16(tx) matches Ok((num_sigs, prefix)) && num_sigs >= 1 && tx.len() > message_start(num_sigs, prefix),
    ensures
        ({
            let (num_sigs, prefix) = compact_u16(tx)->Ok_0;
            let start = message_start(num_sigs, prefix);
            &&& inject_signature_spec(tx, signature) is Ok
            &&& inject_signature_spec(tx, signature)->Ok_0.len() == tx.len()
            &&& inject_signature_spec(tx, signature)->Ok_0.subrange(prefix as int, (prefix + 64) as int) == signature
            &&& inject_signature_spec(tx, signature)->Ok_0.subrange(0, prefix as int) == tx.subrange(0, prefix as int)
            &&& inject_signature_spec(tx, signature)->Ok_0.skip(start as int) == tx.skip(start as int)
        }),
{
    let (num_sigs, prefix) = compact_u16(tx)->Ok_0;
    let start = message_start(num_sigs, prefix);
    assert(start >= prefix + 64) by (nonlinear_arith)
        requires
            start == prefix + num_sigs * 64,
            num_sigs >= 1,
    ;
    let signed = with_signature_at(tx, prefix as int, signature);
    assert(signed.subrange(prefix as int, (prefix + 64) as int) =~= signature);
    assert(signed.subrange(0, prefix as int) =~= tx.subrange(0, prefix as int));
    assert(signed.skip(start as int) =~= tx.skip(start as int));
}

} // verus!
