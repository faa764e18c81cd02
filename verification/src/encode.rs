//! The canonical binary encoding of an action plus its signing metadata.
//!
//! This byte layout is a frozen wire contract: it is the only byte stream
//! ever signed or hashed, and an external verifier reproduces it bit for
//! bit. Field order is fixed, every number is fixed-width little-endian,
//! text is length-prefixed UTF-32, and every variant carries an explicit
//! one-byte discriminant.

use vstd::prelude::*;
use crate::action::{Action, Order, OrderItem, OrderType, TimeInForce};
use crate::decimal::Decimal;
use crate::ids::Pubkey;

verus! {

/// The eight little-endian bytes of a 64-bit number.
pub open spec fn le_bytes_u64(n: u64) -> Seq<u8> {
    seq![
        (n & 0xff) as u8,
        ((n >> 8) & 0xff) as u8,
        ((n >> 16) & 0xff) as u8,
        ((n >> 24) & 0xff) as u8,
        ((n >> 32) & 0xff) as u8,
        ((n >> 40) & 0xff) as u8,
        ((n >> 48) & 0xff) as u8,
        ((n >> 56) & 0xff) as u8,
    ]
}

/// The four little-endian bytes of a 32-bit number.
pub open spec fn le_bytes_u32(n: u32) -> Seq<u8> {
    seq![(n & 0xff) as u8, ((n >> 8) & 0xff) as u8, ((n >> 16) & 0xff) as u8, ((n >> 24)
        & 0xff) as u8]
}

/// One byte for a flag: 1 for true, 0 for false.
pub open spec fn bool_byte(b: bool) -> u8 {
    if b {
        1
    } else {
        0
    }
}

/// Each character as its Unicode scalar value, four little-endian bytes.
pub open spec fn chars_bytes(s: Seq<char>) -> Seq<u8>
    decreases s.len(),
{
    if s.len() == 0 {
        Seq::empty()
    } else {
        le_bytes_u32(s[0] as u32) + chars_bytes(s.drop_first())
    }
}

/// Text: a 64-bit character count, then each character as four bytes.
pub open spec fn string_bytes(s: Seq<char>) -> Seq<u8> {
    le_bytes_u64(s.len() as u64) + chars_bytes(s)
}

/// The one-byte discriminant of a time in force.
pub open spec fn tif_byte(t: TimeInForce) -> u8 {
    match t {
        TimeInForce::Gtc => 0,
        TimeInForce::Ioc => 1,
        TimeInForce::Alo => 2,
    }
}

/// An order type: tag 0 and the time in force for a limit order; tag 1,
/// the market flag and the trigger price for a trigger order.
pub open spec fn order_type_bytes(t: OrderType) -> Seq<u8> {
    match t {
        OrderType::Limit { tif } => seq![0u8, tif_byte(tif)],
        OrderType::Trigger { is_market, trigger_px } => seq![1u8, bool_byte(is_market)]
            + le_bytes_u64(trigger_px.units),
    }
}

/// An optional client id: absence tag 0, or presence tag 1 and the 32
/// hash bytes.
pub open spec fn option_hash_bytes(h: Option<crate::ids::Hash>) -> Seq<u8> {
    match h {
        None => seq![0u8],
        Some(hash) => seq![1u8] + hash.bytes@,
    }
}

/// The fields of an order, in their frozen order.
pub open spec fn order_bytes(o: Order) -> Seq<u8> {
    string_bytes(o.symbol@) + seq![bool_byte(o.is_buy)] + le_bytes_u64(o.price.units)
        + le_bytes_u64(o.size.units) + seq![bool_byte(o.reduce_only)] + order_type_bytes(
        o.order_type,
    ) + option_hash_bytes(o.client_id)
}

/// A list of symbols: a 64-bit count, then each symbol as text.
pub open spec fn strings_bytes(ss: Seq<String>) -> Seq<u8>
    decreases ss.len(),
{
    if ss.len() == 0 {
        Seq::empty()
    } else {
        string_bytes(ss[0]@) + strings_bytes(ss.drop_first())
    }
}

/// One order-family item with its one-byte discriminant: 0 order, 1
/// cancel, 2 cancel-all.
pub open spec fn item_bytes(it: OrderItem) -> Seq<u8> {
    match it {
        OrderItem::Order(o) => seq![0u8] + order_bytes(o),
        OrderItem::Cancel(c) => seq![1u8] + string_bytes(c.symbol@) + c.order_id.bytes@,
        OrderItem::CancelAll(ca) => seq![2u8] + le_bytes_u64(ca.symbols@.len() as u64)
            + strings_bytes(ca.symbols@),
    }
}

/// A list of items, each with its own discriminant.
pub open spec fn items_bytes(items: Seq<OrderItem>) -> Seq<u8>
    decreases items.len(),
{
    if items.len() == 0 {
        Seq::empty()
    } else {
        item_bytes(items[0]) + items_bytes(items.drop_first())
    }
}

/// A list of (symbol, leverage) settings, in submission order.
pub open spec fn settings_bytes(ps: Seq<(String, Decimal)>) -> Seq<u8>
    decreases ps.len(),
{
    if ps.len() == 0 {
        Seq::empty()
    } else {
        string_bytes(ps[0].0@) + le_bytes_u64(ps[0].1.units) + settings_bytes(ps.drop_first())
    }
}

/// A full action. A single item keeps its item discriminant (0 to 2); the
/// composite kinds use 3 (atomic group), 4 (agent wallet), 5 (settings)
/// and 6 (faucet).
pub open spec fn action_bytes(a: Action) -> Seq<u8> {
    match a {
        Action::Single(it) => item_bytes(it),
        Action::Group(items) => seq![3u8] + le_bytes_u64(items@.len() as u64) + items_bytes(
            items@,
        ),
        Action::AgentWallet { agent, delete } => seq![4u8] + agent.bytes@ + seq![
            bool_byte(delete),
        ],
        Action::Settings(s) => seq![5u8] + le_bytes_u64(s.max_leverage@.len() as u64)
            + settings_bytes(s.max_leverage@),
        Action::Faucet => seq![6u8],
    }
}

/// The canonical bytes of a whole transaction: the 32-byte account key,
/// the 32-byte signer key, the nonce, then the action. These bytes are
/// what is signed and what the content id is the hash of.
pub open spec fn payload_bytes(a: Action, account: Seq<u8>, signer: Seq<u8>, nonce: u64) -> Seq<
    u8,
> {
    account + signer + le_bytes_u64(nonce) + action_bytes(a)
}

/// Two payloads over the same account and signer but different nonces are
/// never byte-identical: the nonce sits at a fixed offset, whatever the
/// actions are. Each entry of a batch is therefore signed and hashed over
/// its own distinct byte stream.
pub proof fn lemma_distinct_nonces_distinct_payloads(
    a1: Action,
    a2: Action,
    account: Seq<u8>,
    signer: Seq<u8>,
    n1: u64,
    n2: u64,
)
    requires
        account.len() == 32,
        signer.len() == 32,
        n1 != n2,
    ensures
        payload_bytes(a1, account, signer, n1) != payload_bytes(a2, account, signer, n2),
{
    let p1 = payload_bytes(a1, account, signer, n1);
    let p2 = payload_bytes(a2, account, signer, n2);
    assert(le_bytes_u64(n1) != le_bytes_u64(n2)) by {
        lemma_le_bytes_u64_injective(n1, n2);
    }
    if p1 == p2 {
        let k = choose|k: int| 0 <= k < 8 && le_bytes_u64(n1)[k] != le_bytes_u64(n2)[k];
        assert(exists|k: int| 0 <= k < 8 && le_bytes_u64(n1)[k] != le_bytes_u64(n2)[k]) by {
            assert(le_bytes_u64(n1).len() == 8 && le_bytes_u64(n2).len() == 8);
            if forall|j: int| 0 <= j < 8 ==> le_bytes_u64(n1)[j] == #[trigger] le_bytes_u64(
                n2,
            )[j] {
                assert(le_bytes_u64(n1) =~= le_bytes_u64(n2));
            }
        }
        assert(p1[64 + k] == le_bytes_u64(n1)[k]);
        assert(p2[64 + k] == le_bytes_u64(n2)[k]);
    }
}

proof fn lemma_le_bytes_u64_injective(n1: u64, n2: u64)
    requires
        n1 != n2,
    ensures
        le_bytes_u64(n1) != le_bytes_u64(n2),
{
    if le_bytes_u64(n1) == le_bytes_u64(n2) {
        assert(le_bytes_u64(n1)[0] == le_bytes_u64(n2)[0]);
        assert(le_bytes_u64(n1)[1] == le_bytes_u64(n2)[1]);
        assert(le_bytes_u64(n1)[2] == le_bytes_u64(n2)[2]);
        assert(le_bytes_u64(n1)[3] == le_bytes_u64(n2)[3]);
        assert(le_bytes_u64(n1)[4] == le_bytes_u64(n2)[4]);
        assert(le_bytes_u64(n1)[5] == le_bytes_u64(n2)[5]);
        assert(le_bytes_u64(n1)[6] == le_bytes_u64(n2)[6]);
        assert(le_bytes_u64(n1)[7] == le_bytes_u64(n2)[7]);
        assert(false) by (bit_vector)
            requires
                (n1 & 0xff) as u8 == (n2 & 0xff) as u8,
                ((n1 >> 8) & 0xff) as u8 == ((n2 >> 8) & 0xff) as u8,
                ((n1 >> 16) & 0xff) as u8 == ((n2 >> 16) & 0xff) as u8,
                ((n1 >> 24) & 0xff) as u8 == ((n2 >> 24) & 0xff) as u8,
                ((n1 >> 32) & 0xff) as u8 == ((n2 >> 32) & 0xff) as u8,
                ((n1 >> 40) & 0xff) as u8 == ((n2 >> 40) & 0xff) as u8,
                ((n1 >> 48) & 0xff) as u8 == ((n2 >> 48) & 0xff) as u8,
                ((n1 >> 56) & 0xff) as u8 == ((n2 >> 56) & 0xff) as u8,
                n1 != n2,
        ;
    }
}

fn push_u64_le(out: &mut Vec<u8>, n: u64)
    ensures
        final(out)@ == old(out)@ + le_bytes_u64(n),
{
    out.push((n & 0xff) as u8);
    out.push(((n >> 8) & 0xff) as u8);
    out.push(((n >> 16) & 0xff) as u8);
    out.push(((n >> 24) & 0xff) as u8);
    out.push(((n >> 32) & 0xff) as u8);
    out.push(((n >> 40) & 0xff) as u8);
    out.push(((n >> 48) & 0xff) as u8);
    out.push(((n >> 56) & 0xff) as u8);
    proof {
        assert(final(out)@ =~= old(out)@ + le_bytes_u64(n));
    }
}

fn push_u32_le(out: &mut Vec<u8>, n: u32)
    ensures
        final(out)@ == old(out)@ + le_bytes_u32(n),
{
    out.push((n & 0xff) as u8);
    out.push(((n >> 8) & 0xff) as u8);
    out.push(((n >> 16) & 0xff) as u8);
    out.push(((n >> 24) & 0xff) as u8);
    proof {
        assert(final(out)@ =~= old(out)@ + le_bytes_u32(n));
    }
}

fn push_bool(out: &mut Vec<u8>, b: bool)
    ensures
        final(out)@ == old(out)@ + seq![bool_byte(b)],
{
    if b {
        out.push(1u8);
    } else {
        out.push(0u8);
    }
    proof {
        assert(final(out)@ =~= old(out)@ + seq![bool_byte(b)]);
    }
}

fn push_slice(out: &mut Vec<u8>, bytes: &[u8])
    ensures
        final(out)@ == old(out)@ + bytes@,
{
    let mut i: usize = 0;
    while i < bytes.len()
        invariant
            i <= bytes@.len(),
            out@ == old(out)@ + bytes@.take(i as int),
        decreases bytes@.len() - i,
    {
        out.push(bytes[i]);
        proof {
            assert(old(out)@ + bytes@.take(i as int).push(bytes@[i as int]) =~= old(out)@
                + bytes@.take(i + 1));
        }
        i = i + 1;
    }
    proof {
        assert(bytes@.take(bytes@.len() as int) =~= bytes@);
    }
}

proof fn lemma_chars_bytes_snoc(s: Seq<char>, c: char)
    ensures
        chars_bytes(s.push(c)) == chars_bytes(s) + le_bytes_u32(c as u32),
    decreases s.len(),
{
    if s.len() == 0 {
        assert(s.push(c)[0] == c);
        assert(s.push(c).drop_first() =~= Seq::<char>::empty());
        assert(chars_bytes(s.push(c)) == le_bytes_u32(c as u32) + chars_bytes(
            Seq::<char>::empty(),
        ));
        assert(chars_bytes(Seq::<char>::empty()) == Seq::<u8>::empty());
        assert(s =~= Seq::<char>::empty());
        assert(chars_bytes(s.push(c)) =~= chars_bytes(s) + le_bytes_u32(c as u32));
    } else {
        assert(s.push(c)[0] == s[0]);
        assert(s.push(c).drop_first() =~= s.drop_first().push(c));
        lemma_chars_bytes_snoc(s.drop_first(), c);
        assert(chars_bytes(s.push(c)) == le_bytes_u32(s[0] as u32) + chars_bytes(
            s.drop_first().push(c),
        ));
        assert(chars_bytes(s.push(c)) =~= chars_bytes(s) + le_bytes_u32(c as u32));
    }
}

fn push_string(out: &mut Vec<u8>, s: &str)
    ensures
        final(out)@ == old(out)@ + string_bytes(s@),
{
    let len = s.unicode_len();
    push_u64_le(out, len as u64);
    let ghost mid = out@;
    let mut i: usize = 0;
    while i < len
        invariant
            i <= len,
            len == s@.len(),
            out@ == mid + chars_bytes(s@.take(i as int)),
            mid == old(out)@ + le_bytes_u64(len as u64),
        decreases len - i,
    {
        let c = s.get_char(i);
        push_u32_le(out, c as u32);
        proof {
            lemma_chars_bytes_snoc(s@.take(i as int), c);
            assert(s@.take(i as int).push(s@[i as int]) =~= s@.take(i + 1));
        }
        i = i + 1;
    }
    proof {
        assert(s@.take(s@.len() as int) =~= s@);
    }
}

proof fn lemma_strings_bytes_snoc(ss: Seq<String>, s: String)
    ensures
        strings_bytes(ss.push(s)) == strings_bytes(ss) + string_bytes(s@),
    decreases ss.len(),
{
    if ss.len() == 0 {
        assert(ss.push(s)[0] == s);
        assert(ss.push(s).drop_first() =~= Seq::<String>::empty());
        assert(strings_bytes(ss.push(s)) == string_bytes(s@) + strings_bytes(
            Seq::<String>::empty(),
        ));
        assert(strings_bytes(Seq::<String>::empty()) == Seq::<u8>::empty());
        assert(ss =~= Seq::<String>::empty());
        assert(strings_bytes(ss.push(s)) =~= strings_bytes(ss) + string_bytes(s@));
    } else {
        assert(ss.push(s)[0] == ss[0]);
        assert(ss.push(s).drop_first() =~= ss.drop_first().push(s));
        lemma_strings_bytes_snoc(ss.drop_first(), s);
        assert(strings_bytes(ss.push(s)) == string_bytes(ss[0]@) + strings_bytes(
            ss.drop_first().push(s),
        ));
        assert(strings_bytes(ss.push(s)) =~= strings_bytes(ss) + string_bytes(s@));
    }
}

fn push_strings(out: &mut Vec<u8>, ss: &Vec<String>)
    ensures
        final(out)@ == old(out)@ + strings_bytes(ss@),
{
    let mut i: usize = 0;
    while i < ss.len()
        invariant
            i <= ss@.len(),
            out@ == old(out)@ + strings_bytes(ss@.take(i as int)),
        decreases ss@.len() - i,
    {
        push_string(out, ss[i].as_str());
        proof {
            lemma_strings_bytes_snoc(ss@.take(i as int), ss@[i as int]);
            assert(ss@.take(i as int).push(ss@[i as int]) =~= ss@.take(i + 1));
        }
        i = i + 1;
    }
    proof {
        assert(ss@.take(ss@.len() as int) =~= ss@);
    }
}

#[verifier::rlimit(50)]
fn push_order(out: &mut Vec<u8>, o: &Order)
    ensures
        final(out)@ == old(out)@ + order_bytes(*o),
{
    push_string(out, o.symbol.as_str());
    push_bool(out, o.is_buy);
    push_u64_le(out, o.price.units);
    push_u64_le(out, o.size.units);
    push_bool(out, o.reduce_only);
    match &o.order_type {
        OrderType::Limit { tif } => {
            out.push(0u8);
            match tif {
                TimeInForce::Gtc => out.push(0u8),
                TimeInForce::Ioc => out.push(1u8),
                TimeInForce::Alo => out.push(2u8),
            }
        },
        OrderType::Trigger { is_market, trigger_px } => {
            out.push(1u8);
            push_bool(out, *is_market);
            push_u64_le(out, trigger_px.units);
        },
    }
    match &o.client_id {
        None => out.push(0u8),
        Some(h) => {
            out.push(1u8);
            push_slice(out, h.bytes.as_slice());
        },
    }
    proof {
        assert(final(out)@ =~= old(out)@ + order_bytes(*o));
    }
}

fn push_item(out: &mut Vec<u8>, it: &OrderItem)
    ensures
        final(out)@ == old(out)@ + item_bytes(*it),
{
    match it {
        OrderItem::Order(o) => {
            out.push(0u8);
            push_order(out, o);
        },
        OrderItem::Cancel(c) => {
            out.push(1u8);
            push_string(out, c.symbol.as_str());
            push_slice(out, c.order_id.bytes.as_slice());
        },
        OrderItem::CancelAll(ca) => {
            out.push(2u8);
            push_u64_le(out, ca.symbols.len() as u64);
            push_strings(out, &ca.symbols);
        },
    }
    proof {
        assert(final(out)@ =~= old(out)@ + item_bytes(*it));
    }
}

proof fn lemma_items_bytes_snoc(items: Seq<OrderItem>, it: OrderItem)
    ensures
        items_bytes(items.push(it)) == items_bytes(items) + item_bytes(it),
    decreases items.len(),
{
    if items.len() == 0 {
        assert(items.push(it)[0] == it);
        assert(items.push(it).drop_first() =~= Seq::<OrderItem>::empty());
        assert(items_bytes(items.push(it)) == item_bytes(it) + items_bytes(
            Seq::<OrderItem>::empty(),
        ));
        assert(items_bytes(Seq::<OrderItem>::empty()) == Seq::<u8>::empty());
        assert(items =~= Seq::<OrderItem>::empty());
        assert(items_bytes(items.push(it)) =~= items_bytes(items) + item_bytes(it));
    } else {
        assert(items.push(it)[0] == items[0]);
        assert(items.push(it).drop_first() =~= items.drop_first().push(it));
        lemma_items_bytes_snoc(items.drop_first(), it);
        assert(items_bytes(items.push(it)) == item_bytes(items[0]) + items_bytes(
            items.drop_first().push(it),
        ));
        assert(items_bytes(items.push(it)) =~= items_bytes(items) + item_bytes(it));
    }
}

fn push_items(out: &mut Vec<u8>, items: &Vec<OrderItem>)
    ensures
        final(out)@ == old(out)@ + items_bytes(items@),
{
    let mut i: usize = 0;
    while i < items.len()
        invariant
            i <= items@.len(),
            out@ == old(out)@ + items_bytes(items@.take(i as int)),
        decreases items@.len() - i,
    {
        push_item(out, &items[i]);
        proof {
            lemma_items_bytes_snoc(items@.take(i as int), items@[i as int]);
            assert(items@.take(i as int).push(items@[i as int]) =~= items@.take(i + 1));
        }
        i = i + 1;
    }
    proof {
        assert(items@.take(items@.len() as int) =~= items@);
    }
}

proof fn lemma_settings_bytes_snoc(ps: Seq<(String, Decimal)>, p: (String, Decimal))
    ensures
        settings_bytes(ps.push(p)) == settings_bytes(ps) + string_bytes(p.0@) + le_bytes_u64(
            p.1.units,
        ),
    decreases ps.len(),
{
    if ps.len() == 0 {
        assert(ps.push(p)[0] == p);
        assert(ps.push(p).drop_first() =~= Seq::<(String, Decimal)>::empty());
        assert(settings_bytes(ps.push(p)) == string_bytes(p.0@) + le_bytes_u64(p.1.units)
            + settings_bytes(Seq::<(String, Decimal)>::empty()));
        assert(settings_bytes(Seq::<(String, Decimal)>::empty()) == Seq::<u8>::empty());
        assert(ps =~= Seq::<(String, Decimal)>::empty());
        assert(settings_bytes(ps.push(p)) =~= settings_bytes(ps) + string_bytes(p.0@)
            + le_bytes_u64(p.1.units));
    } else {
        assert(ps.push(p)[0] == ps[0]);
        assert(ps.push(p).drop_first() =~= ps.drop_first().push(p));
        lemma_settings_bytes_snoc(ps.drop_first(), p);
        assert(settings_bytes(ps.push(p)) == string_bytes(ps[0].0@) + le_bytes_u64(ps[0].1.units)
            + settings_bytes(ps.drop_first().push(p)));
        assert(settings_bytes(ps.push(p)) =~= settings_bytes(ps) + string_bytes(p.0@)
            + le_bytes_u64(p.1.units));
    }
}

fn push_settings(out: &mut Vec<u8>, ps: &Vec<(String, Decimal)>)
    ensures
        final(out)@ == old(out)@ + settings_bytes(ps@),
{
    let mut i: usize = 0;
    while i < ps.len()
        invariant
            i <= ps@.len(),
            out@ == old(out)@ + settings_bytes(ps@.take(i as int)),
        decreases ps@.len() - i,
    {
        push_string(out, ps[i].0.as_str());
        push_u64_le(out, ps[i].1.units);
        proof {
            lemma_settings_bytes_snoc(ps@.take(i as int), ps@[i as int]);
            assert(ps@.take(i as int).push(ps@[i as int]) =~= ps@.take(i + 1));
        }
        i = i + 1;
    }
    proof {
        assert(ps@.take(ps@.len() as int) =~= ps@);
    }
}

/// Encodes a whole transaction into its canonical bytes: account key,
/// signer key, nonce, action. Identical logical input always yields
/// byte-identical output, whichever signing path runs it.
pub fn encode_payload(action: &Action, account: &Pubkey, signer: &Pubkey, nonce: u64) -> (r: Vec<
    u8,
>)
    ensures
        r@ == payload_bytes(*action, account.bytes@, signer.bytes@, nonce),
{
    let mut out: Vec<u8> = Vec::new();
    push_slice(&mut out, account.bytes.as_slice());
    push_slice(&mut out, signer.bytes.as_slice());
    push_u64_le(&mut out, nonce);
    match action {
        Action::Single(it) => push_item(&mut out, it),
        Action::Group(items) => {
            out.push(3u8);
            push_u64_le(&mut out, items.len() as u64);
            push_items(&mut out, items);
        },
        Action::AgentWallet { agent, delete } => {
            out.push(4u8);
            push_slice(&mut out, agent.bytes.as_slice());
            push_bool(&mut out, *delete);
        },
        Action::Settings(s) => {
            out.push(5u8);
            push_u64_le(&mut out, s.max_leverage.len() as u64);
            push_settings(&mut out, &s.max_leverage);
        },
        Action::Faucet => out.push(6u8),
    }
    proof {
        assert(out@ =~= payload_bytes(*action, account.bytes@, signer.bytes@, nonce));
    }
    out
}

} // verus!
