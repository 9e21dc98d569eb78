//! Escrow and settlement ledger for pay-per-call APIs.
//!
//! A client pre-funds a buffer that a neutral ledger holds, so that a server
//! can answer requests at once and settle the payments later against the
//! buffer.
//!
//! `ledger` holds the executable ledger, `model` the mathematical state
//! machine that specifies it, and `laws` what is proved of that machine:
//! one escrow for each pair, conservation of balances, settlement exactly
//! once, and closure by consent of both parties.

pub mod party;
pub mod records;
pub mod model;
pub mod laws;
pub mod ledger;

pub use crate::ledger::X402EscrowContract;
pub use crate::party::{Party, PARTY_ID_LEN};
pub use crate::records::{Escrow, EscrowError, Notification, Operation, Payment, PaymentStatus};
