//! Accounting core of a custodial two-ledger bridge.
//!
//! The source side is a [`VaultContract`] that takes deposits, keeps a locked
//! balance per depositor and a running total. The destination side is an
//! [`InkPool`] that pays out of a pre-funded reserve on the administrator's
//! instruction and keeps a running total of what it released. Every host
//! interaction (authorisation, asset transfers, the live reserve balance) is
//! handed to these state machines as a plain value, and every notification is
//! returned as a plain value for the host to publish.
pub mod account;
pub mod error;
pub mod pool;
pub mod vault;

pub use account::AccountId;
pub use error::BridgeError;
pub use pool::{FundsReceived, InkPool, LiquidityReleased};
pub use vault::{LockEntry, LockEvent, ReleaseEvent, UnlockEvent, VaultContract};


