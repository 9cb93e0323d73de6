//! On-chain validators for a two-party payment channel protocol on a
//! UTXO ledger, extended with virtual channels routed through an
//! intermediary.
//!
//! The crate models a candidate transaction as plain data (cells,
//! witnesses, headers) and decides, for each of the protocol's scripts,
//! whether the transaction is accepted:
//!
//! * the channel type script guards the lifecycle of a ledger channel
//!   cell (open, fund, dispute, close, force close, abort);
//! * the funds lock script binds collateral cells to their channel cell;
//! * the virtual channel type script guards the lifecycle of a virtual
//!   channel cell and its cross-channel invariants.
//!
//! Records that travel in cell data, script args and witnesses use a
//! length-prefixed, field-offset binary layout; parsing accepts exactly
//! the bytes that serializing the parsed value reproduces.

pub mod balances;
pub mod codec;
pub mod crypto;
pub mod error;
pub mod laws;
pub mod pcts;
pub mod pfls;
pub mod records;
pub mod tx;
pub mod vcls;
pub mod vcts;
pub mod util;
pub mod wire;

pub use error::Error;
