// End-to-end checks of the frozen wire contract: the canonical bytes are
// rebuilt here independently, field by field, and the signed output must
// match what they imply.

use bulk_keychain::{
    compute_order_id, Decimal, Keypair, Order, OrderItem, Signer, TimeInForce,
};
use sha2::Digest;
use ed25519_dalek::Verifier;

fn push_u64_le(out: &mut Vec<u8>, n: u64) {
    out.extend_from_slice(&n.to_le_bytes());
}

fn push_text(out: &mut Vec<u8>, s: &str) {
    push_u64_le(out, s.chars().count() as u64);
    for c in s.chars() {
        out.extend_from_slice(&(c as u32).to_le_bytes());
    }
}

/// The canonical bytes of a single plain limit order, laid out by hand:
/// account, signer, nonce, then tag 0 (order), symbol, isBuy, price, size,
/// reduceOnly, order type (tag 0 limit + tif), client id absence.
fn manual_limit_order_payload(
    account: &[u8],
    signer: &[u8],
    nonce: u64,
    symbol: &str,
    is_buy: bool,
    price_units: u64,
    size_units: u64,
) -> Vec<u8> {
    let mut out = Vec::new();
    out.extend_from_slice(account);
    out.extend_from_slice(signer);
    push_u64_le(&mut out, nonce);
    out.push(0u8);
    push_text(&mut out, symbol);
    out.push(if is_buy { 1 } else { 0 });
    push_u64_le(&mut out, price_units);
    push_u64_le(&mut out, size_units);
    out.push(0u8); // reduceOnly: false
    out.push(0u8); // order type: limit
    out.push(0u8); // tif: GTC
    out.push(0u8); // no client id
    out
}

#[test]
fn end_to_end_example_order() {
    let seed: Vec<u8> = (1u8..=32).collect();
    let keypair = Keypair::from_bytes(&seed).unwrap();
    let pk_bytes = keypair.pubkey().to_bytes();
    let pk_b58 = keypair.pubkey().to_base58();

    let order = Order::limit(
        "BTC-USD".to_string(),
        true,
        Decimal::from_units(100_000_000_000_000),
        Decimal::from_units(100_000_000),
        TimeInForce::Gtc,
    );
    let mut signer = Signer::new(keypair);
    let tx = signer.sign(OrderItem::Order(order), Some(42)).unwrap();

    assert_eq!(tx.account, pk_b58);
    assert_eq!(tx.signer, pk_b58);
    assert!(tx.action.contains("\"type\":\"order\""));
    assert!(tx.action.contains("\"symbol\":\"BTC-USD\""));
    assert!(tx.action.contains("\"isBuy\":true"));
    assert!(tx.action.contains("\"price\":100000.0"));
    assert!(tx.action.contains("\"size\":0.1"));

    let payload = manual_limit_order_payload(
        &pk_bytes,
        &pk_bytes,
        42,
        "BTC-USD",
        true,
        100_000_000_000_000,
        100_000_000,
    );
    let expected_id = bs58::encode(sha2::Sha256::digest(&payload)).into_string();
    assert_eq!(tx.order_id, Some(expected_id));
    assert_eq!(tx.order_id, Some(compute_order_id(&payload)));
}

#[test]
fn prepared_bytes_match_manual_layout() {
    let seed: Vec<u8> = (1u8..=32).collect();
    let keypair = Keypair::from_bytes(&seed).unwrap();
    let account = keypair.pubkey();

    let order = Order::limit(
        "ETH-USD".to_string(),
        false,
        Decimal::from_units(2_000_000_000_000),
        Decimal::from_units(500_000_000),
        TimeInForce::Gtc,
    );
    let prepared =
        bulk_keychain::prepare_message(OrderItem::Order(order), &account, None, Some(7)).unwrap();

    let pk_bytes = account.to_bytes();
    let payload = manual_limit_order_payload(
        &pk_bytes,
        &pk_bytes,
        7,
        "ETH-USD",
        false,
        2_000_000_000_000,
        500_000_000,
    );
    assert_eq!(prepared.message_bytes, payload);
}

#[test]
fn signature_verifies_under_ed25519() {
    let keypair = Keypair::generate();
    let pk_bytes: [u8; 32] = keypair.pubkey().to_bytes().try_into().unwrap();
    let verifying = ed25519_dalek::VerifyingKey::from_bytes(&pk_bytes).unwrap();

    let account = keypair.pubkey();
    let prepared = bulk_keychain::prepare_message(
        OrderItem::Order(Order::limit(
            "BTC-USD".to_string(),
            true,
            Decimal::from_units(1),
            Decimal::from_units(1),
            TimeInForce::Alo,
        )),
        &account,
        None,
        Some(11),
    )
    .unwrap();
    let sig_bytes: [u8; 64] = keypair.sign(&prepared.message_bytes).try_into().unwrap();
    let signature = ed25519_dalek::Signature::from_bytes(&sig_bytes);
    assert!(verifying.verify(&prepared.message_bytes, &signature).is_ok());
}

#[test]
fn decimal_text_edges() {
    let mut signer = Signer::new(Keypair::generate());
    // 0.000000001: the smallest representable step.
    let order = Order::limit(
        "X".to_string(),
        true,
        Decimal::from_units(1),
        Decimal::from_units(1_500_000_000),
        TimeInForce::Gtc,
    );
    let tx = signer.sign(OrderItem::Order(order), Some(1)).unwrap();
    assert!(tx.action.contains("\"price\":0.000000001"));
    assert!(tx.action.contains("\"size\":1.5"));

    let order2 = Order::limit(
        "X".to_string(),
        true,
        Decimal::from_parts(12, 340_000_000).unwrap(),
        Decimal::from_units(0),
        TimeInForce::Gtc,
    );
    let tx2 = signer.sign(OrderItem::Order(order2), Some(2)).unwrap();
    assert!(tx2.action.contains("\"price\":12.34"));
    assert!(tx2.action.contains("\"size\":0.0"));
}

#[test]
fn decimal_from_parts_rejects_bad_inputs() {
    assert!(Decimal::from_parts(1_000_000_000_000, 0).is_err());
    assert!(Decimal::from_parts(1, 1_000_000_000).is_err());
    assert_eq!(Decimal::from_parts(1, 999_999_999).unwrap().units, 1_999_999_999);
}

#[test]
fn json_escapes_symbol_text() {
    let mut signer = Signer::new(Keypair::generate());
    let order = Order::limit(
        "A\"B\\C".to_string(),
        true,
        Decimal::from_units(1),
        Decimal::from_units(1),
        TimeInForce::Gtc,
    );
    let tx = signer.sign(OrderItem::Order(order), Some(1)).unwrap();
    assert!(tx.action.contains("\"symbol\":\"A\\\"B\\\\C\""));
}

#[test]
fn hex_encode_exact_value() {
    assert_eq!(bulk_keychain::hex_encode(&[0x00, 0x0f, 0xa5, 0xff]), "000fa5ff");
    assert_eq!(bulk_keychain::hex_encode(&[]), "");
}
