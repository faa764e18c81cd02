//! Transaction-signing core for the BULK exchange protocol.
//!
//! Given a trading action (order, cancel, cancel-all, user settings, agent
//! wallet, faucet) and a key, this crate produces a canonically encoded,
//! ed25519-signed, content-addressed transaction, or a prepared message for
//! an externally held key to sign.

pub mod action;
pub mod basex;
pub mod crypto;
pub mod decimal;
pub mod encode;
pub mod errors;
pub mod ids;
pub mod json;
pub mod keys;
pub mod nonce;
pub mod prepare;
pub mod request;
pub mod signer;

pub use action::{Action, Cancel, CancelAll, Order, OrderItem, OrderType, TimeInForce,
    UserSettings};
pub use basex::hex_encode;
pub use decimal::Decimal;
pub use errors::Error;
pub use ids::{compute_order_id, validate_hash, validate_pubkey, Pubkey};
pub use keys::Keypair;
pub use nonce::{current_timestamp_millis, NonceManager, NonceStrategy};
pub use prepare::{finalize, prepare_agent_wallet, prepare_all, prepare_faucet, prepare_group,
    prepare_message, PreparedMessage};
pub use request::{order_items_from_requests, OrderRequest, OrderTypeRequest};
pub use signer::{SignedTransaction, Signer};
