//! The records that the ledger keeps, the notifications it emits and the
//! errors it reports.

use vstd::prelude::*;
use crate::party::Party;

verus! {

/// The funding relationship between one client and one server.
#[derive(Clone, Copy, Debug, PartialEq, Eq)]
pub struct Escrow {
    pub client: Party,
    pub server: Party,
    /// Unspent buffer: everything deposited minus everything settled.
    pub balance: i128,
    pub client_closed: bool,
    pub server_closed: bool,
}

/// A settlement intent drawn against one escrow.
#[derive(Clone, Copy, Debug, PartialEq, Eq, Structural)]
pub struct Payment {
    pub escrow_id: u64,
    pub amount: i128,
    pub settled: bool,
    pub timestamp: u64,
}

/// Where a payment stands.
#[derive(Clone, Copy, Debug, PartialEq, Eq, Structural)]
pub enum PaymentStatus {
    Pending,
    Settled,
    /// Reserved for settlement layers that report a failed transfer; the
    /// ledger itself never yields it.
    Failed,
}

impl Payment {
    /// `Settled` once the payment has been debited, `Pending` before.
    pub fn status(&self) -> (status: PaymentStatus)
        ensures
            status == (if self.settled {
                PaymentStatus::Settled
            } else {
                PaymentStatus::Pending
            }),
    {
        if self.settled {
            PaymentStatus::Settled
        } else {
            PaymentStatus::Pending
        }
    }
}

/// A state change that the embedding component publishes on its event bus.
#[derive(Clone, Copy, Debug, PartialEq, Eq)]
pub enum Notification {
    Opened { escrow_id: u64, client: Party, server: Party },
    PaymentCreated { payment_id: u64, amount: i128, server: Party, client: Party },
    Settled { payment_id: u64, amount: i128 },
    Deposited { escrow_id: u64, amount: i128 },
    Closed { escrow_id: u64, remaining: i128 },
}

/// Why an operation was refused. A refused operation changes nothing.
#[derive(Clone, Copy, Debug, PartialEq, Eq, Structural)]
pub enum EscrowError {
    /// The authorization oracle did not confirm the required party.
    AuthFailure,
    EscrowNotFound,
    PaymentNotFound,
    /// A live escrow already exists for the ordered (client, server) pair.
    DuplicateEscrow,
    /// The payment amount exceeds the escrow's current balance.
    InsufficientBalance,
    PaymentAlreadySettled,
}

impl EscrowError {
    /// A short description of the error, fit for a log line or an abort
    /// message.
    pub fn message(&self) -> (text: &'static str)
        ensures
            text@ == (match *self {
                EscrowError::AuthFailure => "Authorization failed"@,
                EscrowError::EscrowNotFound => "Escrow not found"@,
                EscrowError::PaymentNotFound => "Payment not found"@,
                EscrowError::DuplicateEscrow => "Escrow already exists for this client-server pair"@,
                EscrowError::InsufficientBalance => "Insufficient escrow balance"@,
                EscrowError::PaymentAlreadySettled => "Payment already settled"@,
            }),
    {
        match self {
            EscrowError::AuthFailure => "Authorization failed",
            EscrowError::EscrowNotFound => "Escrow not found",
            EscrowError::PaymentNotFound => "Payment not found",
            EscrowError::DuplicateEscrow => "Escrow already exists for this client-server pair",
            EscrowError::InsufficientBalance => "Insufficient escrow balance",
            EscrowError::PaymentAlreadySettled => "Payment already settled",
        }
    }
}

/// A request to change the ledger.
#[derive(Clone, Copy, Debug, PartialEq, Eq)]
pub enum Operation {
    OpenEscrow { client: Party, server: Party, amount: i128 },
    CreatePayment { escrow_id: u64, amount: i128, timestamp: u64 },
    SettlePayment { payment_id: u64 },
    Deposit { escrow_id: u64, amount: i128 },
    ClientClose { escrow_id: u64 },
    ServerClose { escrow_id: u64 },
}

} // verus!
