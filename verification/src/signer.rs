//! The signer: it owns a keypair and a nonce manager and turns actions
//! into signed, content-addressed transactions, singly, as independent
//! batches, or as one atomic group.

use vstd::prelude::*;
use crate::action::{Action, OrderItem, UserSettings};
use crate::basex::{b58_encode, b58_of};
use crate::crypto::{ed25519_sig_of, sha256_of};
use crate::encode::{encode_payload, payload_bytes};
use crate::errors::Error;
use crate::ids::{compute_order_id, Pubkey};
use crate::json::{action_json, render_action_json};
use crate::keys::Keypair;
use crate::nonce::{NonceManager, NonceStrategy};

verus! {

/// A signed transaction, ready for submission: the action as JSON text,
/// the account and signer keys and the signature as base58 text, and the
/// precomputed content-addressed id.
pub struct SignedTransaction {
    pub action: String,
    pub account: String,
    pub signer: String,
    pub signature: String,
    pub order_id: Option<String>,
}

/// What it means for `tx` to be the signed transaction over action `a`,
/// account key `account`, signer key `signer_pk` and `nonce`, signed by the
/// seed `seed`: every field is pinned to the one canonical byte payload.
pub open spec fn is_signed_tx(
    tx: SignedTransaction,
    a: Action,
    account: Seq<u8>,
    signer_pk: Seq<u8>,
    seed: Seq<u8>,
    nonce: u64,
) -> bool {
    let payload = payload_bytes(a, account, signer_pk, nonce);
    &&& tx.action@ == action_json(a)
    &&& tx.account@ == b58_of(account)
    &&& tx.signer@ == b58_of(signer_pk)
    &&& tx.signature@ == b58_of(ed25519_sig_of(seed, payload))
    &&& (tx.order_id matches Some(oid) && oid@ == b58_of(sha256_of(payload)))
}

/// The nonce assigned to the item at offset `i` of a batch whose base
/// nonce is `base`: consecutive values, wrapping at the top of the 64-bit
/// range.
pub open spec fn nonce_at(base: u64, i: int) -> u64 {
    if base + i <= u64::MAX {
        (base + i) as u64
    } else {
        (base + i - 0x10000000000000000) as u64
    }
}

/// Distinct offsets within one batch always get distinct nonces.
pub proof fn lemma_batch_nonces_distinct(base: u64, i: int, j: int)
    requires
        0 <= i < j,
        j <= u64::MAX,
    ensures
        nonce_at(base, i) != nonce_at(base, j),
{
}

/// Each transaction of `txs` signs the item of `items` at the same
/// position, under the nonce derived consecutively from `base`.
pub open spec fn all_signed_from_base(
    txs: Seq<SignedTransaction>,
    items: Seq<OrderItem>,
    pk: Seq<u8>,
    seed: Seq<u8>,
    base: u64,
) -> bool {
    forall|i: int|
        0 <= i < items.len() ==> is_signed_tx(
            #[trigger] txs[i],
            Action::Single(items[i]),
            pk,
            pk,
            seed,
            nonce_at(base, i),
        )
}

/// Each transaction of `txs` signs, as one atomic group, the batch of
/// `batches` at the same position, under the nonce derived consecutively
/// from `base`.
pub open spec fn all_groups_from_base(
    txs: Seq<SignedTransaction>,
    batches: Seq<Vec<OrderItem>>,
    pk: Seq<u8>,
    seed: Seq<u8>,
    base: u64,
) -> bool {
    forall|i: int|
        0 <= i < batches.len() ==> is_signed_tx(
            #[trigger] txs[i],
            Action::Group(batches[i]),
            pk,
            pk,
            seed,
            nonce_at(base, i),
        )
}

/// Signs transactions with one keypair; the account and the signer are
/// that keypair's public key.
pub struct Signer {
    pub keypair: Keypair,
    pub nonce_manager: NonceManager,
}

impl Signer {
    /// The keypair is well-formed.
    pub open spec fn wf(&self) -> bool {
        self.keypair.wf()
    }

    /// A signer around the keypair, with a timestamp nonce manager.
    pub fn new(keypair: Keypair) -> (r: Signer)
        ensures
            r.keypair.seed@ == keypair.seed@,
            r.keypair.pk@ == keypair.pk@,
            r.nonce_manager.strategy is Timestamp,
    {
        Signer { keypair, nonce_manager: NonceManager::new(NonceStrategy::Timestamp) }
    }

    /// A signer around the keypair with the given nonce manager.
    pub fn with_nonce_manager(keypair: Keypair, nonce_manager: NonceManager) -> (r: Signer)
        ensures
            r.keypair.seed@ == keypair.seed@,
            r.keypair.pk@ == keypair.pk@,
            r.nonce_manager == nonce_manager,
    {
        Signer { keypair, nonce_manager }
    }

    /// The signer's public key.
    pub fn pubkey(&self) -> (r: Pubkey)
        requires
            self.wf(),
        ensures
            r.bytes@ == self.keypair.pk@,
            r.wf(),
    {
        self.keypair.pubkey()
    }

    /// Encodes, signs and packages one action under one already-resolved
    /// nonce: the single pipeline both batch shapes and every action kind
    /// run through.
    fn sign_action(&self, a: &Action, nonce: u64) -> (tx: SignedTransaction)
        requires
            self.wf(),
        ensures
            is_signed_tx(tx, *a, self.keypair.pk@, self.keypair.pk@, self.keypair.seed@, nonce),
    {
        let account = self.keypair.pubkey();
        let payload = encode_payload(a, &account, &account, nonce);
        let signature = self.keypair.sign(payload.as_slice());
        SignedTransaction {
            action: render_action_json(a),
            account: account.to_base58(),
            signer: account.to_base58(),
            signature: b58_encode(signature.as_slice()),
            order_id: Some(compute_order_id(payload.as_slice())),
        }
    }

    /// The given nonce, or the next one from the manager.
    fn resolve_nonce(&mut self, nonce: Option<u64>) -> (r: u64)
        ensures
            final(self).keypair == old(self).keypair,
            final(self).nonce_manager.strategy == old(self).nonce_manager.strategy,
            nonce matches Some(n) ==> r == n && *final(self) == *old(self),
            (nonce is None && old(self).nonce_manager.strategy is Counter) ==> {
                &&& r == old(self).nonce_manager.counter
                &&& final(self).nonce_manager.counter == (if old(self).nonce_manager.counter
                    < u64::MAX {
                    old(self).nonce_manager.counter + 1
                } else {
                    u64::MAX as int
                })
            },
    {
        match nonce {
            Some(n) => n,
            None => self.nonce_manager.next_nonce(),
        }
    }

    /// Signs one order-family item. With an explicit nonce the output is a
    /// pure function of the inputs; without one, a nonce is drawn from the
    /// manager. Signing never fails for a well-formed signer.
    pub fn sign(&mut self, item: OrderItem, nonce: Option<u64>) -> (r: Result<
        SignedTransaction,
        Error,
    >)
        requires
            old(self).wf(),
        ensures
            final(self).keypair == old(self).keypair,
            r matches Ok(tx) && (exists|n: u64|
                is_signed_tx(
                    tx,
                    Action::Single(item),
                    old(self).keypair.pk@,
                    old(self).keypair.pk@,
                    old(self).keypair.seed@,
                    n,
                )),
            nonce matches Some(n) ==> (r matches Ok(tx) && is_signed_tx(
                tx,
                Action::Single(item),
                old(self).keypair.pk@,
                old(self).keypair.pk@,
                old(self).keypair.seed@,
                n,
            ) && *final(self) == *old(self)),
            (nonce is None && old(self).nonce_manager.strategy is Counter) ==> (r matches Ok(tx)
                && is_signed_tx(
                tx,
                Action::Single(item),
                old(self).keypair.pk@,
                old(self).keypair.pk@,
                old(self).keypair.seed@,
                old(self).nonce_manager.counter,
            ) && final(self).nonce_manager.counter == (if old(self).nonce_manager.counter
                < u64::MAX {
                old(self).nonce_manager.counter + 1
            } else {
                u64::MAX as int
            })),
    {
        let n = self.resolve_nonce(nonce);
        let a = Action::Single(item);
        Ok(self.sign_action(&a, n))
    }

    /// Signs each item as its own independent transaction, one nonce per
    /// item derived consecutively from the base (explicit, or drawn once
    /// from the manager). Output order follows input order, and every item
    /// gets a distinct nonce.
    pub fn sign_all(&mut self, items: Vec<OrderItem>, base_nonce: Option<u64>) -> (r: Result<
        Vec<SignedTransaction>,
        Error,
    >)
        requires
            old(self).wf(),
        ensures
            final(self).keypair == old(self).keypair,
            r matches Ok(txs) && txs@.len() == items@.len(),
            r matches Ok(txs) ==> (exists|base: u64|
                #[trigger] all_signed_from_base(
                    txs@,
                    items@,
                    old(self).keypair.pk@,
                    old(self).keypair.seed@,
                    base,
                )),
            r matches Ok(txs) ==> base_nonce matches Some(base) ==> (forall|i: int|
                0 <= i < items@.len() ==> is_signed_tx(
                    #[trigger] txs@[i],
                    Action::Single(items@[i]),
                    old(self).keypair.pk@,
                    old(self).keypair.pk@,
                    old(self).keypair.seed@,
                    nonce_at(base, i),
                )),
    {
        let base = self.resolve_nonce(base_nonce);
        let ghost pk = self.keypair.pk@;
        let ghost seed = self.keypair.seed@;
        let ghost all = items@;
        let mut rest = items;
        let mut txs: Vec<SignedTransaction> = Vec::new();
        while rest.len() > 0
            invariant
                self.wf(),
                self.keypair.pk@ == pk,
                self.keypair.seed@ == seed,
                txs@.len() + rest@.len() == all.len(),
                rest@ == all.subrange(txs@.len() as int, all.len() as int),
                forall|k: int|
                    0 <= k < txs@.len() ==> is_signed_tx(
                        #[trigger] txs@[k],
                        Action::Single(all[k]),
                        pk,
                        pk,
                        seed,
                        nonce_at(base, k),
                    ),
            decreases rest@.len(),
        {
            let i = txs.len();
            let offset = i as u64;
            let n: u64 = if offset <= u64::MAX - base {
                base + offset
            } else {
                offset - (u64::MAX - base) - 1
            };
            proof {
                assert(n == nonce_at(base, i as int));
                assert(rest@[0] == all[i as int]);
            }
            let item = rest.remove(0);
            let a = Action::Single(item);
            let tx = self.sign_action(&a, n);
            txs.push(tx);
            proof {
                assert(rest@ =~= all.subrange(txs@.len() as int, all.len() as int));
            }
        }
        proof {
            assert(all_signed_from_base(txs@, all, pk, seed, base));
        }
        Ok(txs)
    }

    /// Signs several items atomically as one transaction: one nonce, one
    /// signature covering all of them; partial application is not
    /// representable.
    pub fn sign_group(&mut self, items: Vec<OrderItem>, nonce: Option<u64>) -> (r: Result<
        SignedTransaction,
        Error,
    >)
        requires
            old(self).wf(),
        ensures
            final(self).keypair == old(self).keypair,
            r matches Ok(tx) && (exists|n: u64|
                is_signed_tx(
                    tx,
                    Action::Group(items),
                    old(self).keypair.pk@,
                    old(self).keypair.pk@,
                    old(self).keypair.seed@,
                    n,
                )),
            nonce matches Some(n) ==> (r matches Ok(tx) && is_signed_tx(
                tx,
                Action::Group(items),
                old(self).keypair.pk@,
                old(self).keypair.pk@,
                old(self).keypair.seed@,
                n,
            ) && *final(self) == *old(self)),
    {
        let n = self.resolve_nonce(nonce);
        let a = Action::Group(items);
        Ok(self.sign_action(&a, n))
    }

    /// Signs a faucet funding request (testnet only).
    pub fn sign_faucet(&mut self, nonce: Option<u64>) -> (r: Result<SignedTransaction, Error>)
        requires
            old(self).wf(),
        ensures
            final(self).keypair == old(self).keypair,
            r matches Ok(tx) && (exists|n: u64|
                is_signed_tx(
                    tx,
                    Action::Faucet,
                    old(self).keypair.pk@,
                    old(self).keypair.pk@,
                    old(self).keypair.seed@,
                    n,
                )),
            nonce matches Some(n) ==> (r matches Ok(tx) && is_signed_tx(
                tx,
                Action::Faucet,
                old(self).keypair.pk@,
                old(self).keypair.pk@,
                old(self).keypair.seed@,
                n,
            ) && *final(self) == *old(self)),
    {
        let n = self.resolve_nonce(nonce);
        let a = Action::Faucet;
        Ok(self.sign_action(&a, n))
    }

    /// Signs the creation (or deletion) of an agent wallet.
    pub fn sign_agent_wallet(&mut self, agent: Pubkey, delete: bool, nonce: Option<u64>) -> (r:
        Result<SignedTransaction, Error>)
        requires
            old(self).wf(),
        ensures
            final(self).keypair == old(self).keypair,
            r matches Ok(tx) && (exists|n: u64|
                is_signed_tx(
                    tx,
                    Action::AgentWallet { agent, delete },
                    old(self).keypair.pk@,
                    old(self).keypair.pk@,
                    old(self).keypair.seed@,
                    n,
                )),
            nonce matches Some(n) ==> (r matches Ok(tx) && is_signed_tx(
                tx,
                Action::AgentWallet { agent, delete },
                old(self).keypair.pk@,
                old(self).keypair.pk@,
                old(self).keypair.seed@,
                n,
            ) && *final(self) == *old(self)),
    {
        let n = self.resolve_nonce(nonce);
        let a = Action::AgentWallet { agent, delete };
        Ok(self.sign_action(&a, n))
    }

    /// Signs an update of per-symbol settings.
    pub fn sign_user_settings(&mut self, settings: UserSettings, nonce: Option<u64>) -> (r: Result<
        SignedTransaction,
        Error,
    >)
        requires
            old(self).wf(),
        ensures
            final(self).keypair == old(self).keypair,
            r matches Ok(tx) && (exists|n: u64|
                is_signed_tx(
                    tx,
                    Action::Settings(settings),
                    old(self).keypair.pk@,
                    old(self).keypair.pk@,
                    old(self).keypair.seed@,
                    n,
                )),
            nonce matches Some(n) ==> (r matches Ok(tx) && is_signed_tx(
                tx,
                Action::Settings(settings),
                old(self).keypair.pk@,
                old(self).keypair.pk@,
                old(self).keypair.seed@,
                n,
            ) && *final(self) == *old(self)),
    {
        let n = self.resolve_nonce(nonce);
        let a = Action::Settings(settings);
        Ok(self.sign_action(&a, n))
    }

    /// A kept alias of `sign_group`: it signs the items as one atomic
    /// transaction under the same contract, with no behavioural drift.
    pub fn sign_order(&mut self, items: Vec<OrderItem>, nonce: Option<u64>) -> (r: Result<
        SignedTransaction,
        Error,
    >)
        requires
            old(self).wf(),
        ensures
            final(self).keypair == old(self).keypair,
            r matches Ok(tx) && (exists|n: u64|
                is_signed_tx(
                    tx,
                    Action::Group(items),
                    old(self).keypair.pk@,
                    old(self).keypair.pk@,
                    old(self).keypair.seed@,
                    n,
                )),
            nonce matches Some(n) ==> (r matches Ok(tx) && is_signed_tx(
                tx,
                Action::Group(items),
                old(self).keypair.pk@,
                old(self).keypair.pk@,
                old(self).keypair.seed@,
                n,
            ) && *final(self) == *old(self)),
    {
        self.sign_group(items, nonce)
    }

    /// A kept alias for per-batch signing: each batch becomes one atomic
    /// group transaction, with consecutive nonces from the base (explicit,
    /// or drawn once from the manager).
    pub fn sign_orders_batch(&mut self, batches: Vec<Vec<OrderItem>>, base_nonce: Option<u64>) -> (
        r: Result<Vec<SignedTransaction>, Error>)
        requires
            old(self).wf(),
        ensures
            final(self).keypair == old(self).keypair,
            r matches Ok(txs) && txs@.len() == batches@.len(),
            r matches Ok(txs) ==> (exists|base: u64|
                #[trigger] all_groups_from_base(
                    txs@,
                    batches@,
                    old(self).keypair.pk@,
                    old(self).keypair.seed@,
                    base,
                )),
            r matches Ok(txs) ==> base_nonce matches Some(base) ==> (forall|i: int|
                0 <= i < batches@.len() ==> is_signed_tx(
                    #[trigger] txs@[i],
                    Action::Group(batches@[i]),
                    old(self).keypair.pk@,
                    old(self).keypair.pk@,
                    old(self).keypair.seed@,
                    nonce_at(base, i),
                )),
    {
        let base = self.resolve_nonce(base_nonce);
        let ghost pk = self.keypair.pk@;
        let ghost seed = self.keypair.seed@;
        let ghost all = batches@;
        let mut rest = batches;
        let mut txs: Vec<SignedTransaction> = Vec::new();
        while rest.len() > 0
            invariant
                self.wf(),
                self.keypair.pk@ == pk,
                self.keypair.seed@ == seed,
                txs@.len() + rest@.len() == all.len(),
                rest@ == all.subrange(txs@.len() as int, all.len() as int),
                forall|k: int|
                    0 <= k < txs@.len() ==> is_signed_tx(
                        #[trigger] txs@[k],
                        Action::Group(all[k]),
                        pk,
                        pk,
                        seed,
                        nonce_at(base, k),
                    ),
            decreases rest@.len(),
        {
            let i = txs.len();
            let offset = i as u64;
            let n: u64 = if offset <= u64::MAX - base {
                base + offset
            } else {
                offset - (u64::MAX - base) - 1
            };
            proof {
                assert(n == nonce_at(base, i as int));
                assert(rest@[0] == all[i as int]);
            }
            let batch = rest.remove(0);
            let a = Action::Group(batch);
            let tx = self.sign_action(&a, n);
            txs.push(tx);
            proof {
                assert(rest@ =~= all.subrange(txs@.len() as int, all.len() as int));
            }
        }
        proof {
            assert(all_groups_from_base(txs@, all, pk, seed, base));
        }
        Ok(txs)
    }
}

} // verus!
