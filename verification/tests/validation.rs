use bulk_keychain::{
    order_items_from_requests, Decimal, Error, OrderItem, OrderRequest, OrderTypeRequest,
};

fn order_request() -> OrderRequest {
    OrderRequest {
        item_type: "order".to_string(),
        symbol: Some("BTC-USD".to_string()),
        is_buy: Some(true),
        price: Some(Decimal::from_units(100_000_000_000_000)),
        size: Some(Decimal::from_units(100_000_000)),
        reduce_only: None,
        order_type: None,
        client_id: None,
        order_id: None,
        symbols: None,
    }
}

fn expect_validation(r: Result<OrderItem, Error>, msg: &str) {
    match r {
        Err(Error::Validation(m)) => assert_eq!(m, msg),
        other => panic!("expected a validation error, got {:?}", other.is_ok()),
    }
}

#[test]
fn valid_order_converts_with_defaults() {
    let item = OrderItem::from_request(order_request()).unwrap();
    match item {
        OrderItem::Order(o) => {
            assert_eq!(o.symbol, "BTC-USD");
            assert!(o.is_buy);
            assert!(!o.reduce_only);
            assert!(o.client_id.is_none());
        },
        _ => panic!("expected an order item"),
    }
}

#[test]
fn order_missing_price_is_rejected_by_name() {
    let mut req = order_request();
    req.price = None;
    expect_validation(OrderItem::from_request(req), "order.price is required");
}

#[test]
fn order_missing_fields_are_rejected_by_name() {
    let mut req = order_request();
    req.symbol = None;
    expect_validation(OrderItem::from_request(req), "order.symbol is required");

    let mut req = order_request();
    req.is_buy = None;
    expect_validation(OrderItem::from_request(req), "order.isBuy is required");

    let mut req = order_request();
    req.size = None;
    expect_validation(OrderItem::from_request(req), "order.size is required");
}

#[test]
fn invalid_tif_is_rejected_by_name() {
    let mut req = order_request();
    req.order_type = Some(OrderTypeRequest {
        kind_name: "limit".to_string(),
        tif: Some("XYZ".to_string()),
        is_market: None,
        trigger_px: None,
    });
    expect_validation(OrderItem::from_request(req), "Invalid tif: XYZ");
}

#[test]
fn tif_is_case_insensitive() {
    let mut req = order_request();
    req.order_type = Some(OrderTypeRequest {
        kind_name: "limit".to_string(),
        tif: Some("iOc".to_string()),
        is_market: None,
        trigger_px: None,
    });
    let item = OrderItem::from_request(req).unwrap();
    match item {
        OrderItem::Order(o) => match o.order_type {
            bulk_keychain::OrderType::Limit { tif } => {
                assert!(matches!(tif, bulk_keychain::TimeInForce::Ioc))
            },
            _ => panic!("expected a limit order"),
        },
        _ => panic!("expected an order item"),
    }
}

#[test]
fn invalid_order_type_name_is_rejected() {
    let mut req = order_request();
    req.order_type = Some(OrderTypeRequest {
        kind_name: "stop".to_string(),
        tif: None,
        is_market: None,
        trigger_px: None,
    });
    expect_validation(OrderItem::from_request(req), "Invalid orderType: stop");
}

#[test]
fn invalid_item_type_is_rejected() {
    let mut req = order_request();
    req.item_type = "swap".to_string();
    expect_validation(OrderItem::from_request(req), "Invalid item type: swap");
}

#[test]
fn cancel_requires_decodable_order_id() {
    let req = OrderRequest {
        item_type: "cancel".to_string(),
        symbol: Some("BTC-USD".to_string()),
        is_buy: None,
        price: None,
        size: None,
        reduce_only: None,
        order_type: None,
        client_id: None,
        order_id: Some("not-base58-0OIl".to_string()),
        symbols: None,
    };
    match OrderItem::from_request(req) {
        Err(Error::Decode(m)) => assert!(m.starts_with("Invalid orderId: ")),
        _ => panic!("expected a decode error"),
    }
}

#[test]
fn cancel_missing_fields_are_rejected_by_name() {
    let mut req = order_request();
    req.item_type = "cancel".to_string();
    req.symbol = None;
    expect_validation(OrderItem::from_request(req), "cancel.symbol is required");

    let mut req = order_request();
    req.item_type = "cancel".to_string();
    req.order_id = None;
    expect_validation(OrderItem::from_request(req), "cancel.orderId is required");
}

#[test]
fn cancel_all_defaults_to_every_symbol() {
    let mut req = order_request();
    req.item_type = "cancelAll".to_string();
    req.symbols = None;
    match OrderItem::from_request(req).unwrap() {
        OrderItem::CancelAll(ca) => assert!(ca.symbols.is_empty()),
        _ => panic!("expected cancel-all"),
    }
}

#[test]
fn order_client_id_roundtrips() {
    let h = bulk_keychain::ids::Hash::random();
    let text = h.to_base58();
    let mut req = order_request();
    req.client_id = Some(text.clone());
    match OrderItem::from_request(req).unwrap() {
        OrderItem::Order(o) => assert_eq!(o.client_id.unwrap().to_base58(), text),
        _ => panic!("expected an order item"),
    }
}

#[test]
fn batch_conversion_is_fail_fast() {
    let mut bad = order_request();
    bad.price = None;
    let result = order_items_from_requests(vec![order_request(), bad, order_request()]);
    match result {
        Err(Error::Validation(m)) => assert_eq!(m, "order.price is required"),
        _ => panic!("expected the first invalid input's error"),
    }

    let items = order_items_from_requests(vec![order_request(), order_request()]).unwrap();
    assert_eq!(items.len(), 2);
}
