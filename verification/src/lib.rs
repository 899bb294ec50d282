//! A wallet under the control of several owners.
//!
//! A fixed set of owners shares the wallet. Anybody may submit a transaction,
//! a call to some target with an amount and a payload. Owners confirm it, and
//! may revoke their confirmation, until enough of them have confirmed: then
//! it can be executed, once and for good.
//!
//! [`Counter`] is the wallet. It reads no clock, no storage and no caller's
//! identity: the caller of each operation hands in who is asking, and gets
//! back what to report ([`Event`]) and, for an execution, the call to make
//! ([`PendingCall`]). [`model`] says what each operation does to the wallet,
//! and [`laws`] what holds of every wallet.

pub mod address;
pub mod error;
pub mod event;
pub mod laws;
pub mod model;
pub mod uint;
pub mod wallet;

pub use address::Address;
pub use error::MultiSigError;
pub use event::{Event, PendingCall};
pub use uint::U256;
pub use wallet::{Counter, StoredTransaction};
