//! Conversion of the loosely-typed boundary input into the closed
//! `OrderItem` form: explicit, total validation with named-field errors.
//! Batch conversion is fail-fast: the first invalid input aborts the call.

use vstd::prelude::*;
use crate::action::{Cancel, CancelAll, Order, OrderItem, OrderType, TimeInForce};
use crate::basex::b58_of;
use crate::decimal::Decimal;
use crate::errors::Error;
use crate::ids::is_b58_of_32_bytes;

verus! {

/// The loosely-typed shape of an order-type field.
pub struct OrderTypeRequest {
    pub kind_name: String,
    pub tif: Option<String>,
    pub is_market: Option<bool>,
    pub trigger_px: Option<Decimal>,
}

/// The loosely-typed shape of one order-family input, as the boundary
/// hands it over.
pub struct OrderRequest {
    pub item_type: String,
    pub symbol: Option<String>,
    pub is_buy: Option<bool>,
    pub price: Option<Decimal>,
    pub size: Option<Decimal>,
    pub reduce_only: Option<bool>,
    pub order_type: Option<OrderTypeRequest>,
    pub client_id: Option<String>,
    pub order_id: Option<String>,
    pub symbols: Option<Vec<String>>,
}

/// Case-insensitive match of `a` against an upper-case ASCII letter `b`,
/// and a plain match against anything else.
pub open spec fn char_matches_upper(a: char, b: char) -> bool {
    a == b || (65 <= b as u32 <= 90 && a as u32 == b as u32 + 32)
}

/// Whether `s` equals the upper-case ASCII text `t` up to ASCII case.
pub open spec fn eq_ignore_case(s: Seq<char>, t: Seq<char>) -> bool {
    s.len() == t.len() && (forall|i: int| 0 <= i < s.len() ==> char_matches_upper(s[i], #[trigger] t[i]))
}

/// Whether the text names one of the three accepted times in force, in
/// any ASCII case.
pub open spec fn tif_text_valid(s: Seq<char>) -> bool {
    eq_ignore_case(s, "GTC"@) || eq_ignore_case(s, "IOC"@) || eq_ignore_case(s, "ALO"@)
}

/// The time in force a valid text names.
pub open spec fn tif_of_text(s: Seq<char>) -> TimeInForce {
    if eq_ignore_case(s, "GTC"@) {
        TimeInForce::Gtc
    } else if eq_ignore_case(s, "IOC"@) {
        TimeInForce::Ioc
    } else {
        TimeInForce::Alo
    }
}

/// Whether an explicit order-type input is acceptable: a known type name,
/// and for a limit order a known time in force (absence defaults to GTC).
pub open spec fn order_type_request_valid(ot: OrderTypeRequest) -> bool {
    if ot.kind_name@ == "limit"@ {
        match ot.tif {
            None => true,
            Some(t) => tif_text_valid(t@),
        }
    } else {
        ot.kind_name@ == "trigger"@ || ot.kind_name@ == "market"@
    }
}

/// The order type a request resolves to: limit/GTC when absent, the named
/// time in force for a limit, and a trigger with `is_market` defaulting to
/// true and the trigger price to zero.
pub open spec fn request_order_type(req: OrderRequest) -> OrderType {
    match req.order_type {
        None => OrderType::Limit { tif: TimeInForce::Gtc },
        Some(ot) => if ot.kind_name@ == "limit"@ {
            OrderType::Limit {
                tif: match ot.tif {
                    None => TimeInForce::Gtc,
                    Some(t) => tif_of_text(t@),
                },
            }
        } else {
            OrderType::Trigger {
                is_market: match ot.is_market {
                    None => true,
                    Some(m) => m,
                },
                trigger_px: match ot.trigger_px {
                    None => Decimal { units: 0 },
                    Some(d) => d,
                },
            }
        },
    }
}

/// Whether the input converts: each action kind's required fields are
/// present and each enum-valued or encoded field is well-formed.
pub open spec fn order_request_valid(req: OrderRequest) -> bool {
    if req.item_type@ == "order"@ {
        &&& req.symbol is Some
        &&& req.is_buy is Some
        &&& req.price is Some
        &&& req.size is Some
        &&& (match req.order_type {
            None => true,
            Some(ot) => order_type_request_valid(ot),
        })
        &&& (match req.client_id {
            None => true,
            Some(s) => is_b58_of_32_bytes(s@),
        })
    } else if req.item_type@ == "cancel"@ {
        &&& req.symbol is Some
        &&& (match req.order_id {
            None => false,
            Some(s) => is_b58_of_32_bytes(s@),
        })
    } else {
        req.item_type@ == "cancelAll"@
    }
}

/// Whether `it` is the item that the (valid) input describes, field for
/// field, with the documented defaults filled in.
pub open spec fn item_matches_request(it: OrderItem, req: OrderRequest) -> bool {
    if req.item_type@ == "order"@ {
        it matches OrderItem::Order(o) && {
            &&& (match req.symbol {
                Some(s) => o.symbol@ == s@,
                None => false,
            })
            &&& (match req.is_buy {
                Some(b) => o.is_buy == b,
                None => false,
            })
            &&& (match req.price {
                Some(d) => o.price == d,
                None => false,
            })
            &&& (match req.size {
                Some(d) => o.size == d,
                None => false,
            })
            &&& o.reduce_only == (match req.reduce_only {
                Some(b) => b,
                None => false,
            })
            &&& o.order_type == request_order_type(req)
            &&& (match req.client_id {
                None => o.client_id is None,
                Some(s) => o.client_id matches Some(h) && s@ == b58_of(h.bytes@) && h.wf(),
            })
        }
    } else if req.item_type@ == "cancel"@ {
        it matches OrderItem::Cancel(c) && {
            &&& (match req.symbol {
                Some(s) => c.symbol@ == s@,
                None => false,
            })
            &&& (match req.order_id {
                Some(s) => s@ == b58_of(c.order_id.bytes@) && c.order_id.wf(),
                None => false,
            })
        }
    } else {
        it matches OrderItem::CancelAll(ca) && (match req.symbols {
            Some(v) => ca.symbols@ == v@,
            None => ca.symbols@.len() == 0,
        })
    }
}

/// Whether `s` equals the upper-case ASCII text of `t` up to ASCII case.
fn eq_ignore_case_exec(s: &str, t: &str) -> (r: bool)
    ensures
        r == eq_ignore_case(s@, t@),
{
    let sl = s.unicode_len();
    let tl = t.unicode_len();
    if sl != tl {
        return false;
    }
    let mut i: usize = 0;
    while i < sl
        invariant
            i <= sl,
            sl == s@.len(),
            sl == t@.len(),
            forall|k: int| 0 <= k < i ==> char_matches_upper(s@[k], #[trigger] t@[k]),
        decreases sl - i,
    {
        let a = s.get_char(i);
        let b = t.get_char(i);
        let ok = a == b || ((b as u32) >= 65 && (b as u32) <= 90 && (a as u32) == (b as u32) + 32);
        if !ok {
            return false;
        }
        i = i + 1;
    }
    true
}

fn validation_error(msg: &str) -> (r: Error)
    ensures
        r is Validation,
        r.text() == msg@,
{
    Error::Validation(String::from_str(msg))
}

impl OrderItem {
    /// Converts one loosely-typed input into its closed form. Succeeds
    /// exactly on valid inputs; a missing required field or an unknown
    /// enum name is rejected with a validation error naming it, and an
    /// undecodable id with a decode error.
    pub fn from_request(req: OrderRequest) -> (r: Result<OrderItem, Error>)
        ensures
            r is Ok <==> order_request_valid(req),
            r matches Ok(it) ==> item_matches_request(it, req) && it.wf(),
            r matches Err(e) ==> (e is Validation || e is Decode),
            (req.item_type@ != "order"@ && req.item_type@ != "cancel"@ && req.item_type@
                != "cancelAll"@) ==> (r matches Err(e) && e is Validation && e.text()
                == "Invalid item type: "@ + req.item_type@),
            (req.item_type@ == "order"@ && req.symbol is None) ==> (r matches Err(e)
                && e is Validation && e.text() == "order.symbol is required"@),
            (req.item_type@ == "order"@ && req.symbol is Some && req.is_buy is None) ==> (
            r matches Err(e) && e is Validation && e.text() == "order.isBuy is required"@),
            (req.item_type@ == "order"@ && req.symbol is Some && req.is_buy is Some
                && req.price is None) ==> (r matches Err(e) && e is Validation && e.text()
                == "order.price is required"@),
            (req.item_type@ == "order"@ && req.symbol is Some && req.is_buy is Some
                && req.price is Some && req.size is None) ==> (r matches Err(e) && e is Validation
                && e.text() == "order.size is required"@),
            (req.item_type@ == "cancel"@ && req.symbol is None) ==> (r matches Err(e)
                && e is Validation && e.text() == "cancel.symbol is required"@),
            (req.item_type@ == "cancel"@ && req.symbol is Some && req.order_id is None) ==> (
            r matches Err(e) && e is Validation && e.text() == "cancel.orderId is required"@),
    {
        proof {
            reveal_strlit("order");
            reveal_strlit("cancel");
            reveal_strlit("cancelAll");
            assert("order"@.len() == 5 && "cancel"@.len() == 6 && "cancelAll"@.len() == 9);
            assert("order"@ != "cancel"@ && "order"@ != "cancelAll"@ && "cancel"@
                != "cancelAll"@);
        }
        let order_lit = String::from_str("order");
        let cancel_lit = String::from_str("cancel");
        let cancel_all_lit = String::from_str("cancelAll");
        if req.item_type == order_lit {
            let symbol = match req.symbol {
                Some(s) => s,
                None => {
                    return Err(validation_error("order.symbol is required"));
                },
            };
            let is_buy = match req.is_buy {
                Some(b) => b,
                None => {
                    return Err(validation_error("order.isBuy is required"));
                },
            };
            let price = match req.price {
                Some(d) => d,
                None => {
                    return Err(validation_error("order.price is required"));
                },
            };
            let size = match req.size {
                Some(d) => d,
                None => {
                    return Err(validation_error("order.size is required"));
                },
            };
            let reduce_only = match req.reduce_only {
                Some(b) => b,
                None => false,
            };
            let limit_lit = String::from_str("limit");
            let trigger_lit = String::from_str("trigger");
            let market_lit = String::from_str("market");
            let order_type: OrderType = match &req.order_type {
                None => OrderType::Limit { tif: TimeInForce::Gtc },
                Some(ot) => {
                    if ot.kind_name == limit_lit {
                        let tif = match &ot.tif {
                            None => TimeInForce::Gtc,
                            Some(t) => {
                                if eq_ignore_case_exec(t.as_str(), "GTC") {
                                    TimeInForce::Gtc
                                } else if eq_ignore_case_exec(t.as_str(), "IOC") {
                                    TimeInForce::Ioc
                                } else if eq_ignore_case_exec(t.as_str(), "ALO") {
                                    TimeInForce::Alo
                                } else {
                                    let mut m = String::from_str("Invalid tif: ");
                                    m.append(t.as_str());
                                    return Err(Error::Validation(m));
                                }
                            },
                        };
                        OrderType::Limit { tif }
                    } else if ot.kind_name == trigger_lit || ot.kind_name == market_lit {
                        let is_market = match ot.is_market {
                            Some(m) => m,
                            None => true,
                        };
                        let trigger_px = match ot.trigger_px {
                            Some(d) => d,
                            None => Decimal { units: 0 },
                        };
                        OrderType::Trigger { is_market, trigger_px }
                    } else {
                        let mut m = String::from_str("Invalid orderType: ");
                        m.append(ot.kind_name.as_str());
                        return Err(Error::Validation(m));
                    }
                },
            };
            let client_id = match &req.client_id {
                None => None,
                Some(s) => match crate::ids::Hash::from_base58(s.as_str()) {
                    Ok(h) => Some(h),
                    Err(_) => {
                        let mut m = String::from_str("Invalid clientId: ");
                        m.append(s.as_str());
                        return Err(Error::Decode(m));
                    },
                },
            };
            proof {
                assert(request_order_type(req) == order_type);
            }
            Ok(
                OrderItem::Order(
                    Order { symbol, is_buy, price, size, reduce_only, order_type, client_id },
                ),
            )
        } else if req.item_type == cancel_lit {
            let symbol = match req.symbol {
                Some(s) => s,
                None => {
                    return Err(validation_error("cancel.symbol is required"));
                },
            };
            let order_id_text = match &req.order_id {
                Some(s) => s,
                None => {
                    return Err(validation_error("cancel.orderId is required"));
                },
            };
            let order_id = match crate::ids::Hash::from_base58(order_id_text.as_str()) {
                Ok(h) => h,
                Err(_) => {
                    let mut m = String::from_str("Invalid orderId: ");
                    m.append(order_id_text.as_str());
                    return Err(Error::Decode(m));
                },
            };
            Ok(OrderItem::Cancel(Cancel { symbol, order_id }))
        } else if req.item_type == cancel_all_lit {
            let symbols = match req.symbols {
                Some(v) => v,
                None => Vec::new(),
            };
            Ok(OrderItem::CancelAll(CancelAll { symbols }))
        } else {
            let mut m = String::from_str("Invalid item type: ");
            m.append(req.item_type.as_str());
            Err(Error::Validation(m))
        }
    }
}

/// Converts a whole batch, fail-fast: either every input is valid and the
/// output lists their items in order, or the first invalid input's error
/// comes back and nothing is converted.
pub fn order_items_from_requests(reqs: Vec<OrderRequest>) -> (r: Result<Vec<OrderItem>, Error>)
    ensures
        r is Ok <==> (forall|i: int| 0 <= i < reqs@.len() ==> order_request_valid(#[trigger] reqs@[i])),
        r matches Ok(items) ==> items@.len() == reqs@.len() && (forall|i: int|
            0 <= i < reqs@.len() ==> item_matches_request(#[trigger] items@[i], reqs@[i])
                && items@[i].wf()),
        r matches Err(e) ==> (e is Validation || e is Decode) && (exists|i: int|
            0 <= i < reqs@.len() && !order_request_valid(#[trigger] reqs@[i])),
{
    let ghost all = reqs@;
    let mut rest = reqs;
    let mut items: Vec<OrderItem> = Vec::new();
    while rest.len() > 0
        invariant
            all == reqs@,
            items@.len() + rest@.len() == all.len(),
            rest@ == all.subrange(items@.len() as int, all.len() as int),
            forall|k: int|
                0 <= k < items@.len() ==> order_request_valid(#[trigger] all[k])
                    && item_matches_request(items@[k], all[k]) && items@[k].wf(),
        decreases rest@.len(),
    {
        proof {
            assert(rest@[0] == all[items@.len() as int]);
        }
        let req = rest.remove(0);
        match OrderItem::from_request(req) {
            Ok(it) => items.push(it),
            Err(e) => {
                proof {
                    let k = items@.len() as int;
                    assert(0 <= k < all.len() && !order_request_valid(all[k]));
                }
                return Err(e);
            },
        }
    }
    proof {
        assert(all == reqs@);
        assert(forall|i: int| 0 <= i < all.len() ==> order_request_valid(#[trigger] all[i]));
        assert forall|i: int|
            0 <= i < all.len() implies item_matches_request(#[trigger] items@[i], all[i])
                && items@[i].wf() by {
            assert(order_request_valid(all[i]) && item_matches_request(items@[i], all[i])
                && items@[i].wf());
        }
    }
    Ok(items)
}

} // verus!
