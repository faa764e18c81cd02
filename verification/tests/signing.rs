use bulk_keychain::{
    Cancel, CancelAll, Decimal, Keypair, NonceManager, NonceStrategy, Order, OrderItem, Signer,
    TimeInForce, UserSettings,
};

fn fixed_keypair() -> Keypair {
    let seed: Vec<u8> = (1u8..=32).collect();
    Keypair::from_bytes(&seed).unwrap()
}

fn btc_limit_order() -> Order {
    Order::limit(
        "BTC-USD".to_string(),
        true,
        Decimal::from_units(100_000_000_000_000),
        Decimal::from_units(100_000_000),
        TimeInForce::Gtc,
    )
}

#[test]
fn sign_is_deterministic_with_explicit_nonce() {
    let mut signer = Signer::new(fixed_keypair());
    let a = signer.sign(OrderItem::Order(btc_limit_order()), Some(42)).unwrap();
    let b = signer.sign(OrderItem::Order(btc_limit_order()), Some(42)).unwrap();
    assert_eq!(a.action, b.action);
    assert_eq!(a.account, b.account);
    assert_eq!(a.signer, b.signer);
    assert_eq!(a.signature, b.signature);
    assert_eq!(a.order_id, b.order_id);
}

#[test]
fn sign_single_order_shape() {
    let keypair = fixed_keypair();
    let expected_pk = keypair.pubkey().to_base58();
    let mut signer = Signer::new(keypair);
    let tx = signer.sign(OrderItem::Order(btc_limit_order()), Some(42)).unwrap();
    assert_eq!(tx.account, expected_pk);
    assert_eq!(tx.signer, expected_pk);
    assert_eq!(
        tx.action,
        "{\"type\":\"order\",\"symbol\":\"BTC-USD\",\"isBuy\":true,\"price\":100000.0,\
         \"size\":0.1,\"reduceOnly\":false,\"orderType\":{\"type\":\"limit\",\"tif\":\"GTC\"}}"
    );
    assert!(tx.order_id.is_some());
    assert!(!tx.signature.is_empty());
}

#[test]
fn sign_market_order_action() {
    let mut signer = Signer::new(fixed_keypair());
    let order = Order::market("ETH-USD".to_string(), false, Decimal::from_units(1_000_000_000));
    let tx = signer.sign(OrderItem::Order(order), Some(1)).unwrap();
    assert_eq!(
        tx.action,
        "{\"type\":\"order\",\"symbol\":\"ETH-USD\",\"isBuy\":false,\"price\":0.0,\
         \"size\":1.0,\"reduceOnly\":false,\"orderType\":{\"type\":\"trigger\",\
         \"isMarket\":true,\"triggerPx\":0.0}}"
    );
}

#[test]
fn sign_cancel_and_cancel_all() {
    let mut signer = Signer::new(fixed_keypair());
    let target = bulk_keychain::ids::Hash::random();
    let cancel = Cancel::new("BTC-USD".to_string(), target);
    let tx = signer.sign(OrderItem::Cancel(cancel), Some(5)).unwrap();
    assert!(tx.action.starts_with("{\"type\":\"cancel\",\"symbol\":\"BTC-USD\",\"orderId\":\""));

    let all = CancelAll::for_symbols(vec!["BTC-USD".to_string(), "ETH-USD".to_string()]);
    let tx2 = signer.sign(OrderItem::CancelAll(all), Some(6)).unwrap();
    assert_eq!(
        tx2.action,
        "{\"type\":\"cancelAll\",\"symbols\":[\"BTC-USD\",\"ETH-USD\"]}"
    );

    let none = CancelAll::for_symbols(Vec::new());
    let tx3 = signer.sign(OrderItem::CancelAll(none), Some(7)).unwrap();
    assert_eq!(tx3.action, "{\"type\":\"cancelAll\",\"symbols\":[]}");
}

#[test]
fn sign_all_returns_n_distinct_outputs() {
    let mut signer = Signer::new(fixed_keypair());
    let items: Vec<OrderItem> = (0u64..5)
        .map(|i| {
            OrderItem::Order(Order::limit(
                "BTC-USD".to_string(),
                i % 2 == 0,
                Decimal::from_units(100_000_000_000_000 + i * 10_000_000_000),
                Decimal::from_units(10_000_000),
                TimeInForce::Gtc,
            ))
        })
        .collect();
    let txs = signer.sign_all(items, Some(100)).unwrap();
    assert_eq!(txs.len(), 5);
    let mut ids: Vec<String> = txs.iter().map(|t| t.order_id.clone().unwrap()).collect();
    ids.sort();
    ids.dedup();
    assert_eq!(ids.len(), 5, "order ids must be pairwise distinct");
    let mut sigs: Vec<String> = txs.iter().map(|t| t.signature.clone()).collect();
    sigs.sort();
    sigs.dedup();
    assert_eq!(sigs.len(), 5, "signatures must be pairwise distinct");
}

#[test]
fn sign_all_is_order_preserving_and_nonce_sequential() {
    let mut signer = Signer::new(fixed_keypair());
    let items: Vec<OrderItem> = (0u64..3)
        .map(|i| {
            OrderItem::Order(Order::limit(
                "BTC-USD".to_string(),
                true,
                Decimal::from_units(1_000_000_000 + i),
                Decimal::from_units(1),
                TimeInForce::Ioc,
            ))
        })
        .collect();
    let txs = signer.sign_all(clone_items(&items), Some(500)).unwrap();
    for (i, tx) in txs.iter().enumerate() {
        let one = signer.sign(clone_items(&items).swap_remove(i), Some(500 + i as u64)).unwrap();
        assert_eq!(tx.action, one.action);
        assert_eq!(tx.signature, one.signature);
        assert_eq!(tx.order_id, one.order_id);
    }
}

fn clone_items(items: &[OrderItem]) -> Vec<OrderItem> {
    items
        .iter()
        .map(|it| match it {
            OrderItem::Order(o) => OrderItem::Order(Order {
                symbol: o.symbol.clone(),
                is_buy: o.is_buy,
                price: o.price,
                size: o.size,
                reduce_only: o.reduce_only,
                order_type: o.order_type,
                client_id: o.client_id.as_ref().map(|h| h.clone()),
            }),
            OrderItem::Cancel(c) => OrderItem::Cancel(Cancel {
                symbol: c.symbol.clone(),
                order_id: c.order_id.clone(),
            }),
            OrderItem::CancelAll(ca) => OrderItem::CancelAll(CancelAll {
                symbols: ca.symbols.clone(),
            }),
        })
        .collect()
}

#[test]
fn sign_group_returns_one_output() {
    let mut signer = Signer::new(fixed_keypair());
    let bracket: Vec<OrderItem> = vec![
        OrderItem::Order(btc_limit_order()),
        OrderItem::Order(btc_limit_order()),
        OrderItem::Order(btc_limit_order()),
    ];
    let tx = signer.sign_group(bracket, Some(9)).unwrap();
    assert!(tx.action.starts_with("{\"type\":\"group\",\"orders\":["));
    assert!(tx.order_id.is_some());
}

#[test]
fn sign_faucet_and_agent_wallet_and_settings() {
    let keypair = fixed_keypair();
    let agent = Keypair::generate().pubkey();
    let agent_b58 = agent.to_base58();
    let mut signer = Signer::new(keypair);

    let faucet = signer.sign_faucet(Some(1)).unwrap();
    assert_eq!(faucet.action, "{\"type\":\"faucet\"}");

    let wallet = signer.sign_agent_wallet(agent, false, Some(2)).unwrap();
    assert_eq!(
        wallet.action,
        format!(
            "{{\"type\":\"agentWallet\",\"agent\":\"{}\",\"delete\":false}}",
            agent_b58
        )
    );

    let settings = UserSettings::new(vec![
        ("BTC-USD".to_string(), Decimal::from_units(5_000_000_000)),
        ("ETH-USD".to_string(), Decimal::from_units(3_000_000_000)),
    ]);
    let tx = signer.sign_user_settings(settings, Some(3)).unwrap();
    assert_eq!(
        tx.action,
        "{\"type\":\"userSettings\",\"maxLeverage\":[[\"BTC-USD\",5.0],[\"ETH-USD\",3.0]]}"
    );
}

#[test]
fn sign_order_alias_equals_sign_group() {
    let mut signer = Signer::new(fixed_keypair());
    let items = vec![OrderItem::Order(btc_limit_order()), OrderItem::Order(btc_limit_order())];
    let via_alias = signer.sign_order(clone_items(&items), Some(7)).unwrap();
    let via_group = signer.sign_group(items, Some(7)).unwrap();
    assert_eq!(via_alias.action, via_group.action);
    assert_eq!(via_alias.account, via_group.account);
    assert_eq!(via_alias.signer, via_group.signer);
    assert_eq!(via_alias.signature, via_group.signature);
    assert_eq!(via_alias.order_id, via_group.order_id);
}

#[test]
fn sign_orders_batch_equals_per_batch_groups() {
    let mut signer = Signer::new(fixed_keypair());
    let batch1 = vec![OrderItem::Order(btc_limit_order())];
    let batch2 = vec![OrderItem::Order(btc_limit_order()), OrderItem::Order(btc_limit_order())];
    let txs = signer
        .sign_orders_batch(vec![clone_items(&batch1), clone_items(&batch2)], Some(10))
        .unwrap();
    assert_eq!(txs.len(), 2);
    let g1 = signer.sign_group(batch1, Some(10)).unwrap();
    let g2 = signer.sign_group(batch2, Some(11)).unwrap();
    assert_eq!(txs[0].signature, g1.signature);
    assert_eq!(txs[0].order_id, g1.order_id);
    assert_eq!(txs[1].signature, g2.signature);
    assert_eq!(txs[1].order_id, g2.order_id);
}

#[test]
fn signer_with_counter_manager_issues_sequential_nonces() {
    let keypair = fixed_keypair();
    let manager = NonceManager::new(NonceStrategy::Counter);
    let mut signer = Signer::with_nonce_manager(keypair, manager);
    let a = signer.sign(OrderItem::Order(btc_limit_order()), None).unwrap();
    let b = signer.sign(OrderItem::Order(btc_limit_order()), None).unwrap();
    assert_ne!(a.order_id, b.order_id, "distinct nonces give distinct ids");
}
