use basol::base58::{bs58_decode, bs58_encode};
use basol::transaction::{decode_compact_u16, inject_signature, sign_serialized_transaction, sign_transaction};
use basol::wallet_key::{decode_key_text, derive_public_key, load_wallet_key};
use base64::Engine;
use ed25519_dalek::Signer;

const RFC_SECRET: &str = "9d61b19deffd5a60ba844af492ec2cc44449c5697b326919703bac031cae7f60";
const RFC_PUBLIC: &str = "d75a980182b10ab7d54bfed3c964073a0ee172f3daa62325af021a68f707511a";
const RFC_PUBLIC_B58: &str = "FVen3X669xLzsi6N2V91DoiyzHzg1uAgqiT8jZ9nS96Z";

fn rfc_secret() -> Vec<u8> {
    hex::decode(RFC_SECRET).unwrap()
}

fn load_error(text: &str) -> String {
    match load_wallet_key(text) {
        Ok(_) => panic!("key text {text:?} was accepted"),
        Err(e) => e,
    }
}

#[test]
fn base58_encodes_known_vectors() {
    assert_eq!(bs58_encode(b"Hello World!"), "2NEpo7TZRRrLZSi2U");
    assert_eq!(bs58_encode(&[0, 0, 0, 40, 127, 180, 205]), "111233QC4");
    assert_eq!(bs58_encode(&[1, 0, 0]), "LUw");
    assert_eq!(bs58_encode(&[]), "");
    assert_eq!(bs58_encode(&[0]), "1");
}

#[test]
fn base58_decodes_known_vectors() {
    assert_eq!(bs58_decode("2NEpo7TZRRrLZSi2U").unwrap(), b"Hello World!".to_vec());
    assert_eq!(bs58_decode("111233QC4").unwrap(), vec![0, 0, 0, 40, 127, 180, 205]);
    assert_eq!(bs58_decode("").unwrap(), Vec::<u8>::new());
    assert_eq!(bs58_decode("11").unwrap(), vec![0, 0]);
}

#[test]
fn base58_rejects_characters_outside_the_alphabet() {
    assert_eq!(bs58_decode("abc0def").unwrap_err(), "Invalid character in base58: '0'");
    assert_eq!(bs58_decode("I").unwrap_err(), "Invalid character in base58: 'I'");
    assert_eq!(bs58_decode("1l").unwrap_err(), "Invalid character in base58: 'l'");
}

#[test]
fn base58_rejects_characters_beyond_ascii() {
    // U+0131 and U+0141 have the low bytes of '1' and 'A'
    assert_eq!(bs58_decode("\u{131}").unwrap_err(), "Invalid character in base58: '\u{131}'");
    assert_eq!(bs58_decode("2\u{141}").unwrap_err(), "Invalid character in base58: '\u{141}'");
    assert_eq!(bs58_decode("é").unwrap_err(), "Invalid character in base58: 'é'");
}

#[test]
fn base58_encode_undoes_decode() {
    for text in ["", "1", "111233QC4", "2NEpo7TZRRrLZSi2U", "11zzZ9", RFC_PUBLIC_B58] {
        assert_eq!(bs58_encode(&bs58_decode(text).unwrap()), text);
    }
}

#[test]
fn base58_decode_undoes_encode() {
    let samples: Vec<Vec<u8>> = vec![
        vec![],
        vec![0, 0, 1, 2, 3],
        vec![255; 40],
        (0u8..=255).collect(),
        rfc_secret(),
    ];
    for bytes in samples {
        assert_eq!(bs58_decode(&bs58_encode(&bytes)).unwrap(), bytes);
    }
}

#[test]
fn base58_text_uses_only_the_alphabet() {
    const ALPHABET: &str = "123456789ABCDEFGHJKLMNPQRSTUVWXYZabcdefghijkmnopqrstuvwxyz";
    let bytes: Vec<u8> = vec![0, 0, 0, 9, 200, 13, 0, 77, 255];
    let text = bs58_encode(&bytes);
    assert!(text.chars().all(|c| ALPHABET.contains(c)));
    assert!(text.starts_with("111"));
    assert_ne!(text.chars().nth(3), Some('1'));
}

#[test]
fn compact_u16_decodes_one_two_and_three_bytes() {
    assert_eq!(decode_compact_u16(&[0x05, 0xaa]).unwrap(), (5, 1));
    assert_eq!(decode_compact_u16(&[0x7f]).unwrap(), (127, 1));
    assert_eq!(decode_compact_u16(&[0x80, 0x01]).unwrap(), (128, 2));
    assert_eq!(decode_compact_u16(&[0xff, 0x7f]).unwrap(), (16383, 2));
    assert_eq!(decode_compact_u16(&[0x80, 0x80, 0x01]).unwrap(), (16384, 3));
    assert_eq!(decode_compact_u16(&[0xff, 0xff, 0x03]).unwrap(), (65535, 3));
}

#[test]
fn compact_u16_reports_missing_bytes() {
    assert_eq!(decode_compact_u16(&[]).unwrap_err(), "Empty bytes for compact-u16 decode");
    assert_eq!(decode_compact_u16(&[0x80]).unwrap_err(), "Compact-u16 truncated (need 2 bytes)");
    assert_eq!(decode_compact_u16(&[0x80, 0x80]).unwrap_err(), "Compact-u16 truncated (need 3 bytes)");
}

#[test]
fn compact_u16_rejects_values_beyond_sixteen_bits() {
    assert_eq!(decode_compact_u16(&[0x80, 0x80, 0x04]).unwrap_err(), "Compact-u16 value exceeds u16 range");
    assert_eq!(decode_compact_u16(&[0xff, 0xff, 0xff]).unwrap_err(), "Compact-u16 value exceeds u16 range");
    let mut tx = vec![0x80u8, 0x80, 0x04];
    tx.extend(vec![0u8; 100]);
    assert_eq!(inject_signature(tx, [7u8; 64]).unwrap_err(), "Compact-u16 value exceeds u16 range");
}

#[test]
fn inject_signature_fills_the_first_slot() {
    let mut tx = vec![1u8];
    tx.extend(vec![0u8; 64]);
    tx.extend(vec![9u8, 8, 7]);
    let signature = [0xabu8; 64];
    let signed = inject_signature(tx.clone(), signature).unwrap();
    assert_eq!(signed.len(), tx.len());
    assert_eq!(signed[0], 1);
    assert_eq!(&signed[1..65], &signature[..]);
    assert_eq!(&signed[65..], &[9, 8, 7]);
}

#[test]
fn inject_signature_rejects_short_transactions() {
    assert_eq!(inject_signature(vec![], [0u8; 64]).unwrap_err(), "Transaction bytes are empty");
    assert_eq!(
        inject_signature(vec![1u8; 10], [0u8; 64]).unwrap_err(),
        "Transaction too short to inject signature: 10 bytes (need at least 65)"
    );
    assert_eq!(inject_signature(vec![0x80], [0u8; 64]).unwrap_err(), "Compact-u16 truncated (need 2 bytes)");
}

#[test]
fn sign_transaction_signs_the_message_after_the_slots() {
    let key = rfc_secret();
    let mut tx = vec![1u8];
    tx.extend(vec![0u8; 64]);
    let message = b"message bytes".to_vec();
    tx.extend(message.clone());
    let sig = sign_transaction(&tx, &key).unwrap();
    let seed: [u8; 32] = key[..32].try_into().unwrap();
    let expected = ed25519_dalek::SigningKey::from_bytes(&seed).sign(&message).to_bytes();
    assert_eq!(sig, expected);
}

#[test]
fn injected_signature_leaves_the_signed_message() {
    let key = rfc_secret();
    let mut tx = vec![2u8];
    tx.extend(vec![0u8; 128]);
    tx.extend(b"two signers".to_vec());
    let sig = sign_transaction(&tx, &key).unwrap();
    let signed = inject_signature(tx.clone(), sig).unwrap();
    assert_eq!(signed.len(), tx.len());
    assert_eq!(&signed[1..65], &sig[..]);
    assert_eq!(&signed[65..], &tx[65..]);
    assert_eq!(sign_transaction(&signed, &key).unwrap(), sig);
}

#[test]
fn sign_transaction_reports_errors() {
    assert_eq!(sign_transaction(&[1, 2, 3], &[0u8; 31]).unwrap_err(), "Private key too short for signing");
    assert_eq!(
        sign_transaction(&[2u8; 100], &rfc_secret()).unwrap_err(),
        "Transaction too short: 100 bytes, message starts at offset 129"
    );
    assert_eq!(sign_transaction(&[], &rfc_secret()).unwrap_err(), "Empty bytes for compact-u16 decode");
}

#[test]
fn rfc8032_one_byte_message_signature() {
    let key = hex::decode("4ccd089b28ff96da9db6c346ec114e0f5b8a319f35aba624da8cf6ed4fb8a6fb").unwrap();
    let mut tx = vec![1u8];
    tx.extend(vec![0u8; 64]);
    // the transaction must extend past its signature slots
    assert!(sign_transaction(&tx, &key).is_err());
    tx.push(0x72);
    let sig = sign_transaction(&tx, &key).unwrap();
    let expected = hex::decode(
        "92a009a9f0d4cab8720e820b5f642540a2b27b5416503f8fb3762223ebdb69da\
         085ac1e43e15996e458f3613d0f11d8c387b2eaeb4302aeeb00d291612bb0c00",
    )
    .unwrap();
    assert_eq!(sig.to_vec(), expected);
}

#[test]
fn sign_serialized_transaction_round_trips_through_base64() {
    let key = rfc_secret();
    let mut tx = vec![1u8];
    tx.extend(vec![0u8; 64]);
    tx.extend(b"swap instructions".to_vec());
    let b64 = base64::engine::general_purpose::STANDARD.encode(&tx);
    let signed_b64 = sign_serialized_transaction(&b64, &key).unwrap();
    assert_ne!(signed_b64, b64);
    let signed = base64::engine::general_purpose::STANDARD.decode(&signed_b64).unwrap();
    let seed: [u8; 32] = key[..32].try_into().unwrap();
    let expected = ed25519_dalek::SigningKey::from_bytes(&seed).sign(b"swap instructions").to_bytes();
    assert_eq!(&signed[1..65], &expected[..]);
    assert_eq!(&signed[65..], b"swap instructions");
}

#[test]
fn sign_serialized_transaction_reports_bad_base64() {
    let err = sign_serialized_transaction("not*base64", &rfc_secret()).unwrap_err();
    assert!(err.starts_with("Failed to decode base64 transaction: "), "{err}");
}

#[test]
fn derive_public_key_matches_rfc8032() {
    assert_eq!(derive_public_key(&rfc_secret()).unwrap(), RFC_PUBLIC_B58);
    let mut keypair = rfc_secret();
    keypair.extend(hex::decode(RFC_PUBLIC).unwrap());
    assert_eq!(derive_public_key(&keypair).unwrap(), RFC_PUBLIC_B58);
    assert_eq!(
        derive_public_key(&[7u8; 31]).unwrap_err(),
        "Private key too short: need at least 32 bytes"
    );
}

#[test]
fn load_wallet_key_accepts_base58_hex_and_json() {
    let mut keypair = rfc_secret();
    keypair.extend(hex::decode(RFC_PUBLIC).unwrap());

    let from_b58 = load_wallet_key(&format!("  {}\n", bs58_encode(&keypair))).unwrap();
    assert_eq!(from_b58.public_key, RFC_PUBLIC_B58);
    assert_eq!(from_b58.private_key_bytes, keypair);

    let from_hex = load_wallet_key(&hex::encode(&keypair)).unwrap();
    assert_eq!(from_hex.public_key, RFC_PUBLIC_B58);
    assert_eq!(from_hex.private_key_bytes, keypair);

    let json = format!("{:?}", keypair);
    let from_json = load_wallet_key(&json).unwrap();
    assert_eq!(from_json.public_key, RFC_PUBLIC_B58);
    assert_eq!(from_json.private_key_bytes, keypair);

    let seed_only = load_wallet_key(&bs58_encode(&rfc_secret())).unwrap();
    assert_eq!(seed_only.public_key, RFC_PUBLIC_B58);
}

#[test]
fn load_wallet_key_reports_each_failure() {
    assert_eq!(
        load_error("[1,2,3]"),
        "Private key too short: 3 bytes (need at least 32)"
    );
    assert!(load_error("[1,2,").starts_with("Failed to parse private key JSON array: "));
    assert!(load_error("[1,2,300]").starts_with("Failed to parse private key JSON array: "));
    let bad_hex = format!("zz{}", "0".repeat(126));
    assert_eq!(
        load_error(&bad_hex),
        "Failed to decode hex private key: Invalid character 'z' at position 0"
    );
    let late_bad_hex = format!("{}g{}", "0".repeat(41), "0".repeat(86));
    assert_eq!(
        load_error(&late_bad_hex),
        "Failed to decode hex private key: Invalid character 'g' at position 41"
    );
    assert_eq!(load_error("0OIl"), "Invalid character in base58: '0'");
    assert_eq!(load_error(""), "Private key too short: 0 bytes (need at least 32)");
}

#[test]
fn decode_key_text_picks_the_format_by_shape() {
    assert_eq!(decode_key_text("[0,255]").unwrap(), vec![0, 255]);
    assert_eq!(decode_key_text(&"ab".repeat(64)).unwrap(), vec![0xab; 64]);
    assert_eq!(decode_key_text("abab").unwrap(), bs58_decode("abab").unwrap());
}
