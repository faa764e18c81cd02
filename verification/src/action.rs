//! The closed set of signable intents: the order-family items (order,
//! cancel, cancel-all) and the dedicated action kinds (user settings, agent
//! wallet, faucet).

use vstd::prelude::*;
use crate::decimal::Decimal;
use crate::ids::Pubkey;

verus! {

/// How long a resting limit order stays in force.
#[derive(Clone, Copy, PartialEq, Eq, Structural)]
pub enum TimeInForce {
    /// Good till cancelled.
    Gtc,
    /// Immediate or cancel.
    Ioc,
    /// Add liquidity only.
    Alo,
}

/// The execution style of an order.
#[derive(Clone, Copy, PartialEq, Eq, Structural)]
pub enum OrderType {
    /// A resting limit order with its time in force.
    Limit { tif: TimeInForce },
    /// A trigger order; `is_market` fires at market, and `trigger_px` is the
    /// trigger price.
    Trigger { is_market: bool, trigger_px: Decimal },
}

impl OrderType {
    /// A limit order with the given time in force.
    pub fn limit(tif: TimeInForce) -> (r: OrderType)
        ensures
            r == (OrderType::Limit { tif }),
    {
        OrderType::Limit { tif }
    }
}

/// A new order to place.
pub struct Order {
    pub symbol: String,
    pub is_buy: bool,
    pub price: Decimal,
    pub size: Decimal,
    pub reduce_only: bool,
    pub order_type: OrderType,
    /// An optional client-supplied correlation id.
    pub client_id: Option<crate::ids::Hash>,
}

impl Order {
    /// Whether any embedded client id has its 32-byte shape.
    pub open spec fn wf(&self) -> bool {
        self.client_id matches Some(h) ==> h.wf()
    }

    /// A plain limit order without a client id.
    pub fn limit(symbol: String, is_buy: bool, price: Decimal, size: Decimal, tif: TimeInForce) -> (
        r: Order)
        ensures
            r.symbol@ == symbol@,
            r.is_buy == is_buy,
            r.price == price,
            r.size == size,
            r.reduce_only == false,
            r.order_type == (OrderType::Limit { tif }),
            r.client_id is None,
            r.wf(),
    {
        Order {
            symbol,
            is_buy,
            price,
            size,
            reduce_only: false,
            order_type: OrderType::Limit { tif },
            client_id: None,
        }
    }

    /// A market order: a trigger order firing at market, with a zero
    /// trigger price.
    pub fn market(symbol: String, is_buy: bool, size: Decimal) -> (r: Order)
        ensures
            r.symbol@ == symbol@,
            r.is_buy == is_buy,
            r.price.units == 0,
            r.size == size,
            r.reduce_only == false,
            r.order_type == (OrderType::Trigger {
                is_market: true,
                trigger_px: Decimal { units: 0 },
            }),
            r.client_id is None,
            r.wf(),
    {
        Order {
            symbol,
            is_buy,
            price: Decimal { units: 0 },
            size,
            reduce_only: false,
            order_type: OrderType::Trigger { is_market: true, trigger_px: Decimal { units: 0 } },
            client_id: None,
        }
    }
}

/// A cancellation of one resting order, addressed by its content id.
pub struct Cancel {
    pub symbol: String,
    pub order_id: crate::ids::Hash,
}

impl Cancel {
    pub open spec fn wf(&self) -> bool {
        self.order_id.wf()
    }

    /// A cancel for the given symbol and order id.
    pub fn new(symbol: String, order_id: crate::ids::Hash) -> (r: Cancel)
        ensures
            r.symbol@ == symbol@,
            r.order_id.bytes@ == order_id.bytes@,
    {
        Cancel { symbol, order_id }
    }
}

/// A cancellation of every resting order on the listed symbols; an empty
/// list means all symbols.
pub struct CancelAll {
    pub symbols: Vec<String>,
}

impl CancelAll {
    /// A cancel-all limited to the given symbols.
    pub fn for_symbols(symbols: Vec<String>) -> (r: CancelAll)
        ensures
            r.symbols@ == symbols@,
    {
        CancelAll { symbols }
    }
}

/// An ordered list of per-symbol maximum-leverage settings. A list rather
/// than a map: submission order may matter to the receiving system.
pub struct UserSettings {
    pub max_leverage: Vec<(String, Decimal)>,
}

impl UserSettings {
    /// Settings over the given (symbol, leverage) pairs, in order.
    pub fn new(max_leverage: Vec<(String, Decimal)>) -> (r: UserSettings)
        ensures
            r.max_leverage@ == max_leverage@,
    {
        UserSettings { max_leverage }
    }
}

/// One signable order-family item.
pub enum OrderItem {
    Order(Order),
    Cancel(Cancel),
    CancelAll(CancelAll),
}

impl OrderItem {
    /// Whether every embedded identifier has its 32-byte shape.
    pub open spec fn wf(&self) -> bool {
        match self {
            OrderItem::Order(o) => o.wf(),
            OrderItem::Cancel(c) => c.wf(),
            OrderItem::CancelAll(_) => true,
        }
    }
}

impl From<Order> for OrderItem {
    fn from(o: Order) -> (r: OrderItem) {
        OrderItem::Order(o)
    }
}

impl vstd::std_specs::convert::FromSpecImpl<Order> for OrderItem {
    open spec fn obeys_from_spec() -> bool {
        true
    }

    open spec fn from_spec(o: Order) -> OrderItem {
        OrderItem::Order(o)
    }
}

impl From<Cancel> for OrderItem {
    fn from(c: Cancel) -> (r: OrderItem) {
        OrderItem::Cancel(c)
    }
}

impl vstd::std_specs::convert::FromSpecImpl<Cancel> for OrderItem {
    open spec fn obeys_from_spec() -> bool {
        true
    }

    open spec fn from_spec(c: Cancel) -> OrderItem {
        OrderItem::Cancel(c)
    }
}

impl From<CancelAll> for OrderItem {
    fn from(c: CancelAll) -> (r: OrderItem) {
        OrderItem::CancelAll(c)
    }
}

impl vstd::std_specs::convert::FromSpecImpl<CancelAll> for OrderItem {
    open spec fn obeys_from_spec() -> bool {
        true
    }

    open spec fn from_spec(c: CancelAll) -> OrderItem {
        OrderItem::CancelAll(c)
    }
}

/// The full action carried by one signed transaction.
pub enum Action {
    /// One order-family item on its own.
    Single(OrderItem),
    /// Several order-family items signed atomically as one unit.
    Group(Vec<OrderItem>),
    /// Creation (or deletion) of an agent wallet.
    AgentWallet { agent: Pubkey, delete: bool },
    /// An update of per-symbol settings.
    Settings(UserSettings),
    /// A faucet funding request (testnet only).
    Faucet,
}

} // verus!
