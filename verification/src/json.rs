//! The JSON text of an action, as carried inside a signed transaction.
//! Rendering is deterministic: fixed key order, exact decimal text, and
//! minimal string escaping.

use vstd::prelude::*;
use crate::action::{Action, Cancel, CancelAll, Order, OrderItem, OrderType, TimeInForce,
    UserSettings};
use crate::basex::{b58_encode, b58_of, hex_digit};
use crate::decimal::{append_decimal, decimal_chars, Decimal};

verus! {

/// How one character appears inside a JSON string: quote and backslash are
/// escaped, control characters become `\u00XX`, and everything else stands
/// as itself.
pub open spec fn esc_char(c: char) -> Seq<char> {
    if c == '"' {
        seq!['\\', '"']
    } else if c == '\\' {
        seq!['\\', '\\']
    } else if (c as u32) < 0x20 {
        seq!['\\', 'u', '0', '0', hex_digit((c as u32 / 16) as u8), hex_digit((c as u32 % 16) as u8)]
    } else {
        seq![c]
    }
}

/// The escaped body of a JSON string.
pub open spec fn json_escaped(s: Seq<char>) -> Seq<char>
    decreases s.len(),
{
    if s.len() == 0 {
        Seq::empty()
    } else {
        esc_char(s[0]) + json_escaped(s.drop_first())
    }
}

/// A JSON string: the escaped body between double quotes.
pub open spec fn json_string(s: Seq<char>) -> Seq<char> {
    seq!['"'] + json_escaped(s) + seq!['"']
}

/// A JSON boolean.
pub open spec fn json_bool(b: bool) -> Seq<char> {
    if b {
        "true"@
    } else {
        "false"@
    }
}

/// The name of a time in force.
pub open spec fn tif_chars(t: TimeInForce) -> Seq<char> {
    match t {
        TimeInForce::Gtc => "GTC"@,
        TimeInForce::Ioc => "IOC"@,
        TimeInForce::Alo => "ALO"@,
    }
}

/// The JSON of an order type.
pub open spec fn order_type_json(t: OrderType) -> Seq<char> {
    match t {
        OrderType::Limit { tif } => "{\"type\":\"limit\",\"tif\":\""@ + tif_chars(tif) + "\"}"@,
        OrderType::Trigger { is_market, trigger_px } => "{\"type\":\"trigger\",\"isMarket\":"@
            + json_bool(is_market) + ",\"triggerPx\":"@ + decimal_chars(trigger_px.units) + "}"@,
    }
}

/// The JSON of an order, with `clientId` present only when one was given.
pub open spec fn order_json(o: Order) -> Seq<char> {
    "{\"type\":\"order\",\"symbol\":"@ + json_string(o.symbol@) + ",\"isBuy\":"@ + json_bool(
        o.is_buy,
    ) + ",\"price\":"@ + decimal_chars(o.price.units) + ",\"size\":"@ + decimal_chars(
        o.size.units,
    ) + ",\"reduceOnly\":"@ + json_bool(o.reduce_only) + ",\"orderType\":"@ + order_type_json(
        o.order_type,
    ) + (match o.client_id {
        None => Seq::<char>::empty(),
        Some(h) => ",\"clientId\":\""@ + b58_of(h.bytes@) + "\""@,
    }) + "}"@
}

/// The JSON of a cancel.
pub open spec fn cancel_json(c: Cancel) -> Seq<char> {
    "{\"type\":\"cancel\",\"symbol\":"@ + json_string(c.symbol@) + ",\"orderId\":\""@ + b58_of(
        c.order_id.bytes@,
    ) + "\"}"@
}

/// The elements after the first of a JSON array of strings, each preceded
/// by a comma.
pub open spec fn strings_json_tail(ss: Seq<String>) -> Seq<char>
    decreases ss.len(),
{
    if ss.len() == 0 {
        Seq::empty()
    } else {
        seq![','] + json_string(ss[0]@) + strings_json_tail(ss.drop_first())
    }
}

/// The comma-separated body of a JSON array of strings.
pub open spec fn strings_json(ss: Seq<String>) -> Seq<char> {
    if ss.len() == 0 {
        Seq::empty()
    } else {
        json_string(ss[0]@) + strings_json_tail(ss.drop_first())
    }
}

/// The JSON of a cancel-all over its symbol list.
pub open spec fn cancel_all_json(ca: CancelAll) -> Seq<char> {
    "{\"type\":\"cancelAll\",\"symbols\":["@ + strings_json(ca.symbols@) + "]}"@
}

/// The JSON of one order-family item.
pub open spec fn item_json(it: OrderItem) -> Seq<char> {
    match it {
        OrderItem::Order(o) => order_json(o),
        OrderItem::Cancel(c) => cancel_json(c),
        OrderItem::CancelAll(ca) => cancel_all_json(ca),
    }
}

/// The elements after the first of a JSON array of items.
pub open spec fn items_json_tail(items: Seq<OrderItem>) -> Seq<char>
    decreases items.len(),
{
    if items.len() == 0 {
        Seq::empty()
    } else {
        seq![','] + item_json(items[0]) + items_json_tail(items.drop_first())
    }
}

/// The comma-separated body of a JSON array of items.
pub open spec fn items_json(items: Seq<OrderItem>) -> Seq<char> {
    if items.len() == 0 {
        Seq::empty()
    } else {
        item_json(items[0]) + items_json_tail(items.drop_first())
    }
}

/// One (symbol, leverage) pair as a two-element JSON array.
pub open spec fn setting_json(p: (String, Decimal)) -> Seq<char> {
    seq!['['] + json_string(p.0@) + seq![','] + decimal_chars(p.1.units) + seq![']']
}

/// The elements after the first of the settings array.
pub open spec fn settings_json_tail(ps: Seq<(String, Decimal)>) -> Seq<char>
    decreases ps.len(),
{
    if ps.len() == 0 {
        Seq::empty()
    } else {
        seq![','] + setting_json(ps[0]) + settings_json_tail(ps.drop_first())
    }
}

/// The comma-separated body of the settings array.
pub open spec fn settings_json(ps: Seq<(String, Decimal)>) -> Seq<char> {
    if ps.len() == 0 {
        Seq::empty()
    } else {
        setting_json(ps[0]) + settings_json_tail(ps.drop_first())
    }
}

/// The JSON of a full action.
pub open spec fn action_json(a: Action) -> Seq<char> {
    match a {
        Action::Single(it) => item_json(it),
        Action::Group(items) => "{\"type\":\"group\",\"orders\":["@ + items_json(items@) + "]}"@,
        Action::AgentWallet { agent, delete } => "{\"type\":\"agentWallet\",\"agent\":\""@
            + b58_of(agent.bytes@) + "\",\"delete\":"@ + json_bool(delete) + "}"@,
        Action::Settings(s) => "{\"type\":\"userSettings\",\"maxLeverage\":["@ + settings_json(
            s.max_leverage@,
        ) + "]}"@,
        Action::Faucet => "{\"type\":\"faucet\"}"@,
    }
}

fn append_bool(out: &mut String, b: bool)
    ensures
        final(out)@ == old(out)@ + json_bool(b),
{
    if b {
        out.append("true");
    } else {
        out.append("false");
    }
}

fn append_json_string(out: &mut String, s: &str)
    ensures
        final(out)@ == old(out)@ + json_string(s@),
{
    let hex = "0123456789abcdef";
    proof {
        reveal_strlit("0123456789abcdef");
    }
    out.append("\"");
    proof {
        reveal_strlit("\"");
    }
    let ghost mid = out@;
    let len = s.unicode_len();
    let mut i: usize = 0;
    while i < len
        invariant
            i <= len,
            len == s@.len(),
            hex@ == "0123456789abcdef"@,
            hex@.len() == 16,
            out@ == mid + json_escaped(s@.take(i as int)),
            mid == old(out)@ + seq!['"'],
        decreases len - i,
    {
        let c = s.get_char(i);
        let cu = c as u32;
        if cu == 0x22 {
            out.append("\\\"");
            proof {
                reveal_strlit("\\\"");
                assert("\\\""@ =~= esc_char(c));
            }
        } else if cu == 0x5c {
            out.append("\\\\");
            proof {
                reveal_strlit("\\\\");
                assert("\\\\"@ =~= esc_char(c));
            }
        } else if cu < 0x20 {
            out.append("\\u00");
            let hi = (cu / 16) as usize;
            let lo = (cu % 16) as usize;
            let hs = hex.substring_char(hi, hi + 1);
            let ls = hex.substring_char(lo, lo + 1);
            out.append(hs);
            out.append(ls);
            proof {
                reveal_strlit("\\u00");
                assert(hs@ =~= seq![hex_digit((c as u32 / 16) as u8)]);
                assert(ls@ =~= seq![hex_digit((c as u32 % 16) as u8)]);
                assert("\\u00"@ + hs@ + ls@ =~= esc_char(c));
            }
        } else {
            let piece = s.substring_char(i, i + 1);
            out.append(piece);
            proof {
                assert(piece@ =~= esc_char(c));
            }
        }
        proof {
            lemma_json_escaped_snoc(s@.take(i as int), c);
            assert(s@.take(i as int).push(s@[i as int]) =~= s@.take(i + 1));
        }
        i = i + 1;
    }
    out.append("\"");
    proof {
        reveal_strlit("\"");
        assert(s@.take(s@.len() as int) =~= s@);
        assert(final(out)@ =~= old(out)@ + json_string(s@));
    }
}

proof fn lemma_json_escaped_snoc(s: Seq<char>, c: char)
    ensures
        json_escaped(s.push(c)) == json_escaped(s) + esc_char(c),
    decreases s.len(),
{
    if s.len() == 0 {
        assert(s.push(c)[0] == c);
        assert(s.push(c).drop_first() =~= Seq::<char>::empty());
        assert(json_escaped(s.push(c)) == esc_char(c) + json_escaped(Seq::<char>::empty()));
        assert(json_escaped(Seq::<char>::empty()) == Seq::<char>::empty());
        assert(s =~= Seq::<char>::empty());
        assert(json_escaped(s.push(c)) =~= json_escaped(s) + esc_char(c));
    } else {
        assert(s.push(c)[0] == s[0]);
        assert(s.push(c).drop_first() =~= s.drop_first().push(c));
        lemma_json_escaped_snoc(s.drop_first(), c);
        assert(json_escaped(s.push(c)) == esc_char(s[0]) + json_escaped(s.drop_first().push(c)));
        assert(json_escaped(s.push(c)) =~= json_escaped(s) + esc_char(c));
    }
}

fn append_order_type(out: &mut String, t: &OrderType)
    ensures
        final(out)@ == old(out)@ + order_type_json(*t),
{
    match t {
        OrderType::Limit { tif } => {
            out.append("{\"type\":\"limit\",\"tif\":\"");
            match tif {
                TimeInForce::Gtc => out.append("GTC"),
                TimeInForce::Ioc => out.append("IOC"),
                TimeInForce::Alo => out.append("ALO"),
            }
            out.append("\"}");
        },
        OrderType::Trigger { is_market, trigger_px } => {
            out.append("{\"type\":\"trigger\",\"isMarket\":");
            append_bool(out, *is_market);
            out.append(",\"triggerPx\":");
            append_decimal(out, *trigger_px);
            out.append("}");
        },
    }
}

#[verifier::rlimit(30)]
fn append_order(out: &mut String, o: &Order)
    ensures
        final(out)@ == old(out)@ + order_json(*o),
{
    out.append("{\"type\":\"order\",\"symbol\":");
    append_json_string(out, o.symbol.as_str());
    out.append(",\"isBuy\":");
    append_bool(out, o.is_buy);
    out.append(",\"price\":");
    append_decimal(out, o.price);
    out.append(",\"size\":");
    append_decimal(out, o.size);
    out.append(",\"reduceOnly\":");
    append_bool(out, o.reduce_only);
    out.append(",\"orderType\":");
    append_order_type(out, &o.order_type);
    match &o.client_id {
        None => (),
        Some(h) => {
            out.append(",\"clientId\":\"");
            let b58 = b58_encode(h.bytes.as_slice());
            out.append(b58.as_str());
            out.append("\"");
        },
    }
    out.append("}");
    proof {
        assert(final(out)@ =~= old(out)@ + order_json(*o));
    }
}

fn append_cancel(out: &mut String, c: &Cancel)
    ensures
        final(out)@ == old(out)@ + cancel_json(*c),
{
    out.append("{\"type\":\"cancel\",\"symbol\":");
    append_json_string(out, c.symbol.as_str());
    out.append(",\"orderId\":\"");
    let b58 = b58_encode(c.order_id.bytes.as_slice());
    out.append(b58.as_str());
    out.append("\"}");
    proof {
        assert(final(out)@ =~= old(out)@ + cancel_json(*c));
    }
}

proof fn lemma_strings_json_snoc(ss: Seq<String>, s: String)
    ensures
        ss.len() == 0 ==> strings_json(ss.push(s)) == strings_json(ss) + json_string(s@),
        ss.len() > 0 ==> strings_json(ss.push(s)) == strings_json(ss) + seq![','] + json_string(
            s@,
        ),
    decreases ss.len(),
{
    if ss.len() == 0 {
        assert(ss.push(s)[0] == s);
        assert(ss.push(s).drop_first() =~= Seq::<String>::empty());
        assert(strings_json(ss.push(s)) =~= strings_json(ss) + json_string(s@));
    } else {
        assert(ss.push(s)[0] == ss[0]);
        assert(ss.push(s).drop_first() =~= ss.drop_first().push(s));
        lemma_strings_json_tail_snoc(ss.drop_first(), s);
        assert(strings_json(ss.push(s)) =~= strings_json(ss) + seq![','] + json_string(s@));
    }
}

proof fn lemma_strings_json_tail_snoc(ss: Seq<String>, s: String)
    ensures
        strings_json_tail(ss.push(s)) == strings_json_tail(ss) + seq![','] + json_string(s@),
    decreases ss.len(),
{
    if ss.len() == 0 {
        assert(ss.push(s)[0] == s);
        assert(ss.push(s).drop_first() =~= Seq::<String>::empty());
        assert(strings_json_tail(ss.push(s)) == seq![','] + json_string(s@) + strings_json_tail(
            Seq::<String>::empty(),
        ));
        assert(strings_json_tail(ss.push(s)) =~= strings_json_tail(ss) + seq![','] + json_string(
            s@,
        ));
    } else {
        assert(ss.push(s)[0] == ss[0]);
        assert(ss.push(s).drop_first() =~= ss.drop_first().push(s));
        lemma_strings_json_tail_snoc(ss.drop_first(), s);
        assert(strings_json_tail(ss.push(s)) == seq![','] + json_string(ss[0]@)
            + strings_json_tail(ss.drop_first().push(s)));
        assert(strings_json_tail(ss.push(s)) =~= strings_json_tail(ss) + seq![','] + json_string(
            s@,
        ));
    }
}

fn append_cancel_all(out: &mut String, ca: &CancelAll)
    ensures
        final(out)@ == old(out)@ + cancel_all_json(*ca),
{
    out.append("{\"type\":\"cancelAll\",\"symbols\":[");
    let ghost mid = out@;
    let mut i: usize = 0;
    while i < ca.symbols.len()
        invariant
            i <= ca.symbols@.len(),
            out@ == mid + strings_json(ca.symbols@.take(i as int)),
        decreases ca.symbols@.len() - i,
    {
        if i > 0 {
            out.append(",");
        }
        append_json_string(out, ca.symbols[i].as_str());
        proof {
            reveal_strlit(",");
            lemma_strings_json_snoc(ca.symbols@.take(i as int), ca.symbols@[i as int]);
            assert(ca.symbols@.take(i as int).push(ca.symbols@[i as int]) =~= ca.symbols@.take(
                i + 1,
            ));
        }
        i = i + 1;
    }
    out.append("]}");
    proof {
        assert(ca.symbols@.take(ca.symbols@.len() as int) =~= ca.symbols@);
        assert(final(out)@ =~= old(out)@ + cancel_all_json(*ca));
    }
}

fn append_item(out: &mut String, it: &OrderItem)
    ensures
        final(out)@ == old(out)@ + item_json(*it),
{
    match it {
        OrderItem::Order(o) => append_order(out, o),
        OrderItem::Cancel(c) => append_cancel(out, c),
        OrderItem::CancelAll(ca) => append_cancel_all(out, ca),
    }
}

proof fn lemma_items_json_snoc(items: Seq<OrderItem>, it: OrderItem)
    ensures
        items.len() == 0 ==> items_json(items.push(it)) == items_json(items) + item_json(it),
        items.len() > 0 ==> items_json(items.push(it)) == items_json(items) + seq![',']
            + item_json(it),
    decreases items.len(),
{
    if items.len() == 0 {
        assert(items.push(it)[0] == it);
        assert(items.push(it).drop_first() =~= Seq::<OrderItem>::empty());
        assert(items_json(items.push(it)) =~= items_json(items) + item_json(it));
    } else {
        assert(items.push(it)[0] == items[0]);
        assert(items.push(it).drop_first() =~= items.drop_first().push(it));
        lemma_items_json_tail_snoc(items.drop_first(), it);
        assert(items_json(items.push(it)) =~= items_json(items) + seq![','] + item_json(it));
    }
}

proof fn lemma_items_json_tail_snoc(items: Seq<OrderItem>, it: OrderItem)
    ensures
        items_json_tail(items.push(it)) == items_json_tail(items) + seq![','] + item_json(it),
    decreases items.len(),
{
    if items.len() == 0 {
        assert(items.push(it)[0] == it);
        assert(items.push(it).drop_first() =~= Seq::<OrderItem>::empty());
        assert(items_json_tail(items.push(it)) == seq![','] + item_json(it) + items_json_tail(
            Seq::<OrderItem>::empty(),
        ));
        assert(items_json_tail(items.push(it)) =~= items_json_tail(items) + seq![','] + item_json(
            it,
        ));
    } else {
        assert(items.push(it)[0] == items[0]);
        assert(items.push(it).drop_first() =~= items.drop_first().push(it));
        lemma_items_json_tail_snoc(items.drop_first(), it);
        assert(items_json_tail(items.push(it)) == seq![','] + item_json(items[0])
            + items_json_tail(items.drop_first().push(it)));
        assert(items_json_tail(items.push(it)) =~= items_json_tail(items) + seq![','] + item_json(
            it,
        ));
    }
}

proof fn lemma_settings_json_snoc(ps: Seq<(String, Decimal)>, p: (String, Decimal))
    ensures
        ps.len() == 0 ==> settings_json(ps.push(p)) == settings_json(ps) + setting_json(p),
        ps.len() > 0 ==> settings_json(ps.push(p)) == settings_json(ps) + seq![','] + setting_json(
            p,
        ),
    decreases ps.len(),
{
    if ps.len() == 0 {
        assert(ps.push(p)[0] == p);
        assert(ps.push(p).drop_first() =~= Seq::<(String, Decimal)>::empty());
        assert(settings_json(ps.push(p)) =~= settings_json(ps) + setting_json(p));
    } else {
        assert(ps.push(p)[0] == ps[0]);
        assert(ps.push(p).drop_first() =~= ps.drop_first().push(p));
        lemma_settings_json_tail_snoc(ps.drop_first(), p);
        assert(settings_json(ps.push(p)) =~= settings_json(ps) + seq![','] + setting_json(p));
    }
}

proof fn lemma_settings_json_tail_snoc(ps: Seq<(String, Decimal)>, p: (String, Decimal))
    ensures
        settings_json_tail(ps.push(p)) == settings_json_tail(ps) + seq![','] + setting_json(p),
    decreases ps.len(),
{
    if ps.len() == 0 {
        assert(ps.push(p)[0] == p);
        assert(ps.push(p).drop_first() =~= Seq::<(String, Decimal)>::empty());
        assert(settings_json_tail(ps.push(p)) == seq![','] + setting_json(p) + settings_json_tail(
            Seq::<(String, Decimal)>::empty(),
        ));
        assert(settings_json_tail(ps.push(p)) =~= settings_json_tail(ps) + seq![',']
            + setting_json(p));
    } else {
        assert(ps.push(p)[0] == ps[0]);
        assert(ps.push(p).drop_first() =~= ps.drop_first().push(p));
        lemma_settings_json_tail_snoc(ps.drop_first(), p);
        assert(settings_json_tail(ps.push(p)) == seq![','] + setting_json(ps[0])
            + settings_json_tail(ps.drop_first().push(p)));
        assert(settings_json_tail(ps.push(p)) =~= settings_json_tail(ps) + seq![',']
            + setting_json(p));
    }
}

fn append_setting(out: &mut String, p: &(String, Decimal))
    ensures
        final(out)@ == old(out)@ + setting_json(*p),
{
    out.append("[");
    append_json_string(out, p.0.as_str());
    out.append(",");
    append_decimal(out, p.1);
    out.append("]");
    proof {
        reveal_strlit("[");
        reveal_strlit(",");
        reveal_strlit("]");
        assert(final(out)@ =~= old(out)@ + setting_json(*p));
    }
}

/// Renders the JSON text of an action.
pub fn render_action_json(a: &Action) -> (r: String)
    ensures
        r@ == action_json(*a),
{
    let mut out = String::new();
    match a {
        Action::Single(it) => append_item(&mut out, it),
        Action::Group(items) => {
            out.append("{\"type\":\"group\",\"orders\":[");
            let ghost mid = out@;
            let mut i: usize = 0;
            while i < items.len()
                invariant
                    i <= items@.len(),
                    out@ == mid + items_json(items@.take(i as int)),
                decreases items@.len() - i,
            {
                if i > 0 {
                    out.append(",");
                }
                append_item(&mut out, &items[i]);
                proof {
                    reveal_strlit(",");
                    lemma_items_json_snoc(items@.take(i as int), items@[i as int]);
                    assert(items@.take(i as int).push(items@[i as int]) =~= items@.take(i + 1));
                }
                i = i + 1;
            }
            out.append("]}");
            proof {
                assert(items@.take(items@.len() as int) =~= items@);
                assert(out@ =~= action_json(*a));
            }
        },
        Action::AgentWallet { agent, delete } => {
            out.append("{\"type\":\"agentWallet\",\"agent\":\"");
            let b58 = b58_encode(agent.bytes.as_slice());
            out.append(b58.as_str());
            out.append("\",\"delete\":");
            append_bool(&mut out, *delete);
            out.append("}");
            proof {
                assert(out@ =~= action_json(*a));
            }
        },
        Action::Settings(s) => {
            out.append("{\"type\":\"userSettings\",\"maxLeverage\":[");
            let ghost mid = out@;
            let mut i: usize = 0;
            while i < s.max_leverage.len()
                invariant
                    i <= s.max_leverage@.len(),
                    out@ == mid + settings_json(s.max_leverage@.take(i as int)),
                decreases s.max_leverage@.len() - i,
            {
                if i > 0 {
                    out.append(",");
                }
                append_setting(&mut out, &s.max_leverage[i]);
                proof {
                    reveal_strlit(",");
                    lemma_settings_json_snoc(
                        s.max_leverage@.take(i as int),
                        s.max_leverage@[i as int],
                    );
                    assert(s.max_leverage@.take(i as int).push(s.max_leverage@[i as int])
                        =~= s.max_leverage@.take(i + 1));
                }
                i = i + 1;
            }
            out.append("]}");
            proof {
                assert(s.max_leverage@.take(s.max_leverage@.len() as int) =~= s.max_leverage@);
                assert(out@ =~= action_json(*a));
            }
        },
        Action::Faucet => {
            out.append("{\"type\":\"faucet\"}");
        },
    }
    out
}

} // verus!
