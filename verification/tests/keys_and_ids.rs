use bulk_keychain::{compute_order_id, validate_hash, validate_pubkey, Keypair};
use sha2::Digest;

#[test]
fn keypair_generation_gives_base58_pubkey() {
    let keypair = Keypair::generate();
    let pubkey = keypair.pubkey().to_base58();
    assert!(!pubkey.is_empty());
    assert!(validate_pubkey(&pubkey));
}

#[test]
fn keypair_roundtrip_base58() {
    let keypair = Keypair::generate();
    let b58 = keypair.to_base58();
    let restored = Keypair::from_base58(&b58).unwrap();
    assert_eq!(
        keypair.pubkey().to_base58(),
        restored.pubkey().to_base58()
    );
    let msg = b"round trip";
    assert_eq!(keypair.sign(msg), restored.sign(msg));
}

#[test]
fn keypair_roundtrip_bytes() {
    let keypair = Keypair::generate();
    let bytes = keypair.to_bytes();
    assert_eq!(bytes.len(), 64);
    let restored = Keypair::from_bytes(&bytes).unwrap();
    assert_eq!(
        keypair.pubkey().to_base58(),
        restored.pubkey().to_base58()
    );
    let msg = b"round trip";
    assert_eq!(keypair.sign(msg), restored.sign(msg));
}

#[test]
fn keypair_from_seed_only() {
    let keypair = Keypair::generate();
    let seed = keypair.secret_key();
    assert_eq!(seed.len(), 32);
    let restored = Keypair::from_bytes(&seed).unwrap();
    assert_eq!(
        keypair.pubkey().to_base58(),
        restored.pubkey().to_base58()
    );
}

#[test]
fn keypair_rejects_bad_lengths() {
    assert!(Keypair::from_bytes(&[0u8; 31]).is_err());
    assert!(Keypair::from_bytes(&[0u8; 33]).is_err());
    assert!(Keypair::from_bytes(&[0u8; 0]).is_err());
    assert!(Keypair::from_base58("not base58 at all!!!").is_err());
}

#[test]
fn keypair_export_normalizes_to_full_form() {
    let keypair = Keypair::generate();
    let seed = keypair.secret_key();
    let from_seed = Keypair::from_bytes(&seed).unwrap();
    assert_eq!(from_seed.to_bytes().len(), 64);
    assert_eq!(from_seed.to_bytes(), keypair.to_bytes());
}

#[test]
fn deterministic_signing() {
    let keypair = Keypair::generate();
    let msg = b"the same bytes";
    assert_eq!(keypair.sign(msg), keypair.sign(msg));
    assert_eq!(keypair.sign(msg).len(), 64);
}

#[test]
fn validators_accept_and_reject() {
    let keypair = Keypair::generate();
    let good = keypair.pubkey().to_base58();
    assert!(validate_pubkey(&good));
    assert!(validate_hash(&good));
    assert!(!validate_pubkey("0OIl"));
    assert!(!validate_pubkey(""));
    assert!(!validate_hash("abc"));
}

#[test]
fn random_hash_is_valid() {
    let h = bulk_keychain::ids::Hash::random();
    let text = h.to_base58();
    assert!(validate_hash(&text));
    let h2 = bulk_keychain::ids::Hash::from_base58(&text).unwrap();
    assert_eq!(h2.to_base58(), text);
}

#[test]
fn order_id_matches_manual_hashing() {
    let bytes = b"some wincode bytes";
    let id = compute_order_id(bytes);
    let digest = sha2::Sha256::digest(bytes.as_slice());
    let expected = bs58::encode(digest).into_string();
    assert_eq!(id, expected);
}

#[test]
fn error_message_accessor() {
    match Keypair::from_bytes(&[0u8; 7]) {
        Err(err) => assert_eq!(err.message(), "key must be 32 or 64 bytes"),
        Ok(_) => panic!("a 7-byte key must be rejected"),
    }
}
