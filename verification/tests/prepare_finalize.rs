use base64::Engine;
use bulk_keychain::{
    compute_order_id, finalize, prepare_agent_wallet, prepare_all, prepare_faucet, prepare_group,
    prepare_message, Decimal, Keypair, Order, OrderItem, Signer, TimeInForce,
};

fn fixed_keypair() -> Keypair {
    let seed: Vec<u8> = (100u8..=131).collect();
    Keypair::from_bytes(&seed).unwrap()
}

fn btc_limit_order() -> Order {
    Order::limit(
        "BTC-USD".to_string(),
        true,
        Decimal::from_units(100_000_000_000_000),
        Decimal::from_units(100_000_000),
        TimeInForce::Gtc,
    )
}

#[test]
fn prepare_then_finalize_equals_direct_signing() {
    let keypair = fixed_keypair();
    let account = keypair.pubkey();

    let prepared =
        prepare_message(OrderItem::Order(btc_limit_order()), &account, None, Some(42)).unwrap();
    let signature = keypair.sign(&prepared.message_bytes);
    let signature_b58 = bs58::encode(&signature).into_string();
    let finalized = finalize(&prepared, signature_b58);

    let mut signer = Signer::new(keypair);
    let direct = signer.sign(OrderItem::Order(btc_limit_order()), Some(42)).unwrap();

    assert_eq!(finalized.action, direct.action);
    assert_eq!(finalized.account, direct.account);
    assert_eq!(finalized.signer, direct.signer);
    assert_eq!(finalized.signature, direct.signature);
    assert_eq!(finalized.order_id, direct.order_id);
}

#[test]
fn prepared_order_id_matches_direct_path() {
    let keypair = fixed_keypair();
    let account = keypair.pubkey();
    let prepared =
        prepare_message(OrderItem::Order(btc_limit_order()), &account, None, Some(42)).unwrap();
    let mut signer = Signer::new(keypair);
    let direct = signer.sign(OrderItem::Order(btc_limit_order()), Some(42)).unwrap();
    assert_eq!(Some(prepared.order_id.clone()), direct.order_id);
    assert_eq!(prepared.order_id, compute_order_id(&prepared.message_bytes));
}

#[test]
fn prepared_text_encodings_are_views_of_the_bytes() {
    let account = fixed_keypair().pubkey();
    let prepared =
        prepare_message(OrderItem::Order(btc_limit_order()), &account, None, Some(7)).unwrap();

    let expected_b58 = bs58::encode(&prepared.message_bytes).into_string();
    assert_eq!(prepared.message_base58(), expected_b58);

    let expected_b64 =
        base64::engine::general_purpose::STANDARD.encode(&prepared.message_bytes);
    assert_eq!(prepared.message_base64(), expected_b64);

    let expected_hex: String =
        prepared.message_bytes.iter().map(|b| format!("{:02x}", b)).collect();
    assert_eq!(prepared.message_hex(), expected_hex);
}

#[test]
fn prepare_defaults_signer_to_account() {
    let account = fixed_keypair().pubkey();
    let prepared =
        prepare_message(OrderItem::Order(btc_limit_order()), &account, None, Some(1)).unwrap();
    assert_eq!(prepared.account, account.to_base58());
    assert_eq!(prepared.signer, account.to_base58());
    assert_eq!(prepared.nonce, 1);

    let other = Keypair::generate().pubkey();
    let prepared2 =
        prepare_message(OrderItem::Order(btc_limit_order()), &account, Some(&other), Some(1))
            .unwrap();
    assert_eq!(prepared2.account, account.to_base58());
    assert_eq!(prepared2.signer, other.to_base58());
}

#[test]
fn prepare_all_assigns_consecutive_nonces() {
    let account = fixed_keypair().pubkey();
    let items: Vec<OrderItem> =
        (0..4).map(|_| OrderItem::Order(btc_limit_order())).collect();
    let prepared = prepare_all(items, &account, None, Some(1000)).unwrap();
    assert_eq!(prepared.len(), 4);
    for (i, p) in prepared.iter().enumerate() {
        assert_eq!(p.nonce, 1000 + i as u64);
    }
    let mut ids: Vec<String> = prepared.iter().map(|p| p.order_id.clone()).collect();
    ids.sort();
    ids.dedup();
    assert_eq!(ids.len(), 4);
}

#[test]
fn prepare_group_gives_one_message() {
    let keypair = fixed_keypair();
    let account = keypair.pubkey();
    let items = vec![
        OrderItem::Order(btc_limit_order()),
        OrderItem::Order(btc_limit_order()),
    ];
    let prepared = prepare_group(items, &account, None, Some(5)).unwrap();
    assert!(prepared.action.starts_with("{\"type\":\"group\",\"orders\":["));

    let mut signer = Signer::new(keypair);
    let direct = signer
        .sign_group(
            vec![
                OrderItem::Order(btc_limit_order()),
                OrderItem::Order(btc_limit_order()),
            ],
            Some(5),
        )
        .unwrap();
    assert_eq!(Some(prepared.order_id), direct.order_id);
}

#[test]
fn prepare_agent_wallet_and_faucet() {
    let account = fixed_keypair().pubkey();
    let agent = Keypair::generate().pubkey();
    let prepared = prepare_agent_wallet(&agent, true, &account, None, Some(3)).unwrap();
    assert_eq!(
        prepared.action,
        format!(
            "{{\"type\":\"agentWallet\",\"agent\":\"{}\",\"delete\":true}}",
            agent.to_base58()
        )
    );

    let faucet = prepare_faucet(&account, None, Some(4)).unwrap();
    assert_eq!(faucet.action, "{\"type\":\"faucet\"}");
    assert_eq!(faucet.nonce, 4);
}

#[test]
fn prepare_without_nonce_uses_timestamp() {
    let account = fixed_keypair().pubkey();
    let before = bulk_keychain::current_timestamp_millis();
    let prepared =
        prepare_message(OrderItem::Order(btc_limit_order()), &account, None, None).unwrap();
    let after = bulk_keychain::current_timestamp_millis();
    assert!(before <= prepared.nonce && prepared.nonce <= after);
}
