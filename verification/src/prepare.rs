//! The two-phase path for externally held keys: prepare the canonical
//! bytes and metadata, sign elsewhere, then finalize into the same output
//! shape the direct signer produces. No re-encoding happens at finalize
//! time, and no signature is verified here: the server is the verifier of
//! record.

use vstd::prelude::*;
use crate::action::{Action, OrderItem};
use crate::basex::{b58_encode, b58_of, b64_encode, b64_of, hex_encode, hex_of};
use crate::crypto::{ed25519_sig_of, sha256_of};
use crate::encode::{encode_payload, payload_bytes};
use crate::errors::Error;
use crate::ids::{compute_order_id, Pubkey};
use crate::json::{action_json, render_action_json};
use crate::nonce::current_timestamp_millis;
use crate::signer::{is_signed_tx, nonce_at, SignedTransaction};

verus! {

/// A message prepared for an external wallet: the canonical bytes to sign
/// and everything needed to rebuild a signed transaction afterwards. The
/// text encodings are views of `message_bytes`, not separate truths.
pub struct PreparedMessage {
    pub message_bytes: Vec<u8>,
    pub order_id: String,
    pub action: String,
    pub account: String,
    pub signer: String,
    pub nonce: u64,
}

/// What it means for `p` to be the prepared message over action `a`,
/// account key `account`, signer key `signer_pk` and `nonce`: the bytes
/// are the one canonical payload, and every other field derives from it.
pub open spec fn is_prepared(
    p: PreparedMessage,
    a: Action,
    account: Seq<u8>,
    signer_pk: Seq<u8>,
    nonce: u64,
) -> bool {
    let payload = payload_bytes(a, account, signer_pk, nonce);
    &&& p.message_bytes@ == payload
    &&& p.order_id@ == b58_of(sha256_of(payload))
    &&& p.action@ == action_json(a)
    &&& p.account@ == b58_of(account)
    &&& p.signer@ == b58_of(signer_pk)
    &&& p.nonce == nonce
}

/// The signer key a prepare call resolves to: the explicit one, or the
/// account itself when none was given.
pub open spec fn resolved_signer(account: Seq<u8>, signer: Option<&Pubkey>) -> Seq<u8> {
    match signer {
        Some(s) => s.bytes@,
        None => account,
    }
}

impl PreparedMessage {
    /// The canonical bytes as base58 text.
    pub fn message_base58(&self) -> (r: String)
        ensures
            r@ == b58_of(self.message_bytes@),
    {
        b58_encode(self.message_bytes.as_slice())
    }

    /// The canonical bytes as base64 text.
    pub fn message_base64(&self) -> (r: String)
        ensures
            r@ == b64_of(self.message_bytes@),
    {
        b64_encode(self.message_bytes.as_slice())
    }

    /// The canonical bytes as lower-case hex text.
    pub fn message_hex(&self) -> (r: String)
        ensures
            r@ == hex_of(self.message_bytes@),
    {
        hex_encode(self.message_bytes.as_slice())
    }
}

/// Builds the prepared message for one action under resolved keys and an
/// already-resolved nonce: the same encoder and the same id derivation the
/// direct signer runs.
fn prepare_action(a: &Action, account: &Pubkey, signer_pk: &Pubkey, nonce: u64) -> (p:
    PreparedMessage)
    ensures
        is_prepared(p, *a, account.bytes@, signer_pk.bytes@, nonce),
{
    let payload = encode_payload(a, account, signer_pk, nonce);
    let order_id = compute_order_id(payload.as_slice());
    PreparedMessage {
        order_id,
        action: render_action_json(a),
        account: account.to_base58(),
        signer: signer_pk.to_base58(),
        nonce,
        message_bytes: payload,
    }
}

/// The explicit signer key, or a copy of the account key.
fn resolve_signer(account: &Pubkey, signer: Option<&Pubkey>) -> (r: Pubkey)
    ensures
        r.bytes@ == resolved_signer(account.bytes@, signer),
{
    match signer {
        Some(s) => s.clone(),
        None => account.clone(),
    }
}

/// The explicit nonce, or the wall clock in milliseconds.
fn resolve_nonce(nonce: Option<u64>) -> (r: u64)
    ensures
        nonce matches Some(n) ==> r == n,
{
    match nonce {
        Some(n) => n,
        None => current_timestamp_millis(),
    }
}

/// Prepares one order-family item for external signing. The signer key
/// defaults to the account; the nonce defaults to the current timestamp.
pub fn prepare_message(
    item: OrderItem,
    account: &Pubkey,
    signer: Option<&Pubkey>,
    nonce: Option<u64>,
) -> (r: Result<PreparedMessage, Error>)
    ensures
        r is Ok,
        r matches Ok(p) ==> is_prepared(
            p,
            Action::Single(item),
            account.bytes@,
            resolved_signer(account.bytes@, signer),
            p.nonce,
        ),
        r matches Ok(p) ==> nonce matches Some(n) ==> p.nonce == n,
{
    let signer_pk = resolve_signer(account, signer);
    let n = resolve_nonce(nonce);
    let a = Action::Single(item);
    let p = prepare_action(&a, account, &signer_pk, n);
    Ok(p)
}

/// Each prepared message of `ps` carries the item of `items` at the same
/// position, under the nonce derived consecutively from `base`.
pub open spec fn all_prepared_from_base(
    ps: Seq<PreparedMessage>,
    items: Seq<OrderItem>,
    account: Seq<u8>,
    signer_pk: Seq<u8>,
    base: u64,
) -> bool {
    forall|i: int|
        0 <= i < items.len() ==> is_prepared(
            #[trigger] ps[i],
            Action::Single(items[i]),
            account,
            signer_pk,
            nonce_at(base, i),
        )
}

/// Prepares each item as its own independent message, one nonce per item
/// derived consecutively from the base (explicit, or the current
/// timestamp). Output order follows input order.
pub fn prepare_all(
    items: Vec<OrderItem>,
    account: &Pubkey,
    signer: Option<&Pubkey>,
    base_nonce: Option<u64>,
) -> (r: Result<Vec<PreparedMessage>, Error>)
    ensures
        r is Ok,
        r matches Ok(ps) ==> ps@.len() == items@.len(),
        r matches Ok(ps) ==> ps@.len() > 0 ==> all_prepared_from_base(
            ps@,
            items@,
            account.bytes@,
            resolved_signer(account.bytes@, signer),
            ps@[0].nonce,
        ),
        r matches Ok(ps) ==> base_nonce matches Some(base) ==> all_prepared_from_base(
            ps@,
            items@,
            account.bytes@,
            resolved_signer(account.bytes@, signer),
            base,
        ),
{
    let signer_pk = resolve_signer(account, signer);
    let base = resolve_nonce(base_nonce);
    let ghost all = items@;
    let mut rest = items;
    let mut ps: Vec<PreparedMessage> = Vec::new();
    while rest.len() > 0
        invariant
            ps@.len() + rest@.len() == all.len(),
            rest@ == all.subrange(ps@.len() as int, all.len() as int),
            signer_pk.bytes@ == resolved_signer(account.bytes@, signer),
            forall|k: int|
                0 <= k < ps@.len() ==> is_prepared(
                    #[trigger] ps@[k],
                    Action::Single(all[k]),
                    account.bytes@,
                    signer_pk.bytes@,
                    nonce_at(base, k),
                ),
        decreases rest@.len(),
    {
        let i = ps.len();
        let offset = i as u64;
        let n: u64 = if offset <= u64::MAX - base {
            base + offset
        } else {
            offset - (u64::MAX - base) - 1
        };
        proof {
            assert(n == nonce_at(base, i as int));
            assert(rest@[0] == all[i as int]);
        }
        let item = rest.remove(0);
        let a = Action::Single(item);
        let p = prepare_action(&a, account, &signer_pk, n);
        ps.push(p);
        proof {
            assert(rest@ =~= all.subrange(ps@.len() as int, all.len() as int));
        }
    }
    proof {
        assert(all_prepared_from_base(
            ps@,
            all,
            account.bytes@,
            resolved_signer(account.bytes@, signer),
            base,
        ));
        if ps@.len() > 0 {
            assert(is_prepared(
                ps@[0],
                Action::Single(all[0]),
                account.bytes@,
                resolved_signer(account.bytes@, signer),
                nonce_at(base, 0),
            ));
            assert(ps@[0].nonce == base);
        }
    }
    Ok(ps)
}

/// Prepares several items as one atomic group message.
pub fn prepare_group(
    items: Vec<OrderItem>,
    account: &Pubkey,
    signer: Option<&Pubkey>,
    nonce: Option<u64>,
) -> (r: Result<PreparedMessage, Error>)
    ensures
        r is Ok,
        r matches Ok(p) ==> is_prepared(
            p,
            Action::Group(items),
            account.bytes@,
            resolved_signer(account.bytes@, signer),
            p.nonce,
        ),
        r matches Ok(p) ==> nonce matches Some(n) ==> p.nonce == n,
{
    let signer_pk = resolve_signer(account, signer);
    let n = resolve_nonce(nonce);
    let a = Action::Group(items);
    let p = prepare_action(&a, account, &signer_pk, n);
    Ok(p)
}

/// Prepares an agent-wallet creation (or deletion) message.
pub fn prepare_agent_wallet(
    agent: &Pubkey,
    delete: bool,
    account: &Pubkey,
    signer: Option<&Pubkey>,
    nonce: Option<u64>,
) -> (r: Result<PreparedMessage, Error>)
    ensures
        r is Ok,
        r matches Ok(p) ==> is_prepared(
            p,
            Action::AgentWallet { agent: *agent, delete },
            account.bytes@,
            resolved_signer(account.bytes@, signer),
            p.nonce,
        ),
        r matches Ok(p) ==> nonce matches Some(n) ==> p.nonce == n,
{
    let signer_pk = resolve_signer(account, signer);
    let n = resolve_nonce(nonce);
    let a = Action::AgentWallet { agent: agent.clone(), delete };
    let p = prepare_action(&a, account, &signer_pk, n);
    proof {
        let ghost a2 = Action::AgentWallet { agent: *agent, delete };
        assert(crate::encode::action_bytes(a) == crate::encode::action_bytes(a2));
        assert(crate::json::action_json(a) == crate::json::action_json(a2));
        assert(is_prepared(
            p,
            a2,
            account.bytes@,
            resolved_signer(account.bytes@, signer),
            n,
        ));
    }
    Ok(p)
}

/// Prepares a faucet funding request message.
pub fn prepare_faucet(account: &Pubkey, signer: Option<&Pubkey>, nonce: Option<u64>) -> (r: Result<
    PreparedMessage,
    Error,
>)
    ensures
        r is Ok,
        r matches Ok(p) ==> is_prepared(
            p,
            Action::Faucet,
            account.bytes@,
            resolved_signer(account.bytes@, signer),
            p.nonce,
        ),
        r matches Ok(p) ==> nonce matches Some(n) ==> p.nonce == n,
{
    let signer_pk = resolve_signer(account, signer);
    let n = resolve_nonce(nonce);
    let a = Action::Faucet;
    Ok(prepare_action(&a, account, &signer_pk, n))
}

/// Pairs an externally produced signature with a prepared message. The
/// action, keys and order id are carried over unchanged; nothing is
/// re-encoded and the signature is not checked here.
pub fn finalize(prepared: &PreparedMessage, signature: String) -> (tx: SignedTransaction)
    ensures
        tx.action@ == prepared.action@,
        tx.account@ == prepared.account@,
        tx.signer@ == prepared.signer@,
        tx.signature@ == signature@,
        tx.order_id matches Some(oid) && oid@ == prepared.order_id@,
{
    SignedTransaction {
        action: prepared.action.clone(),
        account: prepared.account.clone(),
        signer: prepared.signer.clone(),
        signature,
        order_id: Some(prepared.order_id.clone()),
    }
}

/// The two signing paths agree: finalizing a well-formed prepared message
/// with the signature that the key with seed `seed` produces over exactly
/// the prepared bytes yields a transaction satisfying the very predicate
/// the direct signer ensures — same action text, same keys, same
/// signature, and the same content-addressed order id.
pub proof fn lemma_finalize_matches_direct_signing(
    p: PreparedMessage,
    a: Action,
    account: Seq<u8>,
    signer_pk: Seq<u8>,
    seed: Seq<u8>,
    nonce: u64,
    tx: SignedTransaction,
)
    requires
        is_prepared(p, a, account, signer_pk, nonce),
        tx.action@ == p.action@,
        tx.account@ == p.account@,
        tx.signer@ == p.signer@,
        tx.signature@ == b58_of(ed25519_sig_of(seed, p.message_bytes@)),
        tx.order_id matches Some(oid) && oid@ == p.order_id@,
    ensures
        is_signed_tx(tx, a, account, signer_pk, seed, nonce),
{
}

} // verus!
