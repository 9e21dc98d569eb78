//! The ledger as a mathematical object.
//!
//! A `LedgerState` is what the ledger holds at one moment; `check` says
//! whether a request is accepted in a state and `step` says what the state is
//! afterwards. The executable ledger is specified against these functions, and
//! the laws of the ledger are proved about them.

use vstd::prelude::*;
use crate::party::Party;
use crate::records::{Escrow, EscrowError, Notification, Operation, Payment};

verus! {

pub struct LedgerState {
    /// The live escrows by id. A closed escrow is no longer here.
    pub escrows: Map<u64, Escrow>,
    /// Every payment ever created; the payment with id `i` is at index `i`.
    pub payments: Seq<Payment>,
    /// Number of escrows ever opened, which is the id of the next one.
    pub escrow_counter: nat,
    /// Notifications emitted and not yet handed to the event bus, oldest first.
    pub notifications: Seq<Notification>,
}

impl LedgerState {
    /// The state of a ledger on which nothing has happened yet.
    pub open spec fn empty() -> LedgerState {
        LedgerState {
            escrows: Map::empty(),
            payments: Seq::empty(),
            escrow_counter: 0,
            notifications: Seq::empty(),
        }
    }

    /// The state that stored records denote: `slots[i]` is the escrow with id
    /// `i` if it is live, and `payments[i]` is the payment with id `i`.
    pub open spec fn from_records(
        slots: Seq<Option<Escrow>>,
        payments: Seq<Payment>,
        notifications: Seq<Notification>,
    ) -> LedgerState {
        LedgerState {
            escrows: Map::new(
                |id: u64| id < slots.len() && slots[id as int] is Some,
                |id: u64| slots[id as int]->0,
            ),
            payments,
            escrow_counter: slots.len(),
            notifications,
        }
    }

    /// Whether `id` names a live escrow.
    pub open spec fn is_live(self, id: u64) -> bool {
        self.escrows.dom().contains(id)
    }

    /// The live escrow `id`, if there is one.
    pub open spec fn escrow(self, id: u64) -> Option<Escrow> {
        if self.is_live(id) {
            Some(self.escrows[id])
        } else {
            None
        }
    }

    /// The payment `id`, if it was ever created.
    pub open spec fn payment(self, id: u64) -> Option<Payment> {
        if id < self.payments.len() {
            Some(self.payments[id as int])
        } else {
            None
        }
    }

    /// Number of payments ever created, which is the id of the next one.
    pub open spec fn payment_counter(self) -> nat {
        self.payments.len()
    }

    /// Whether `id` is the live escrow of the ordered pair (`client`, `server`).
    pub open spec fn pairs(self, id: u64, client: Party, server: Party) -> bool {
        &&& self.is_live(id)
        &&& self.escrows[id].client == client
        &&& self.escrows[id].server == server
    }

    /// Whether the ordered pair (`client`, `server`) has a live escrow.
    pub open spec fn has_pair(self, client: Party, server: Party) -> bool {
        exists|id: u64| self.pairs(id, client, server)
    }

    /// The pairing index: the live escrow of the ordered pair, if it has one.
    pub open spec fn find_escrow(self, client: Party, server: Party) -> Option<u64> {
        if self.has_pair(client, server) {
            Some(choose|id: u64| self.pairs(id, client, server))
        } else {
            None
        }
    }

    /// The consistency that every operation keeps.
    pub open spec fn wf(self) -> bool {
        &&& self.escrow_counter <= u64::MAX
        &&& self.payments.len() <= u64::MAX
        // ids are handed out in order and never reused
        &&& forall|id: u64| #[trigger] self.is_live(id) ==> id < self.escrow_counter
        // at most one live escrow for each ordered pair
        &&& forall|a: u64, b: u64|
            #![trigger self.is_live(a), self.is_live(b)]
            self.is_live(a) && self.is_live(b) && self.escrows[a].client == self.escrows[b].client
                && self.escrows[a].server == self.escrows[b].server ==> a == b
        // an escrow that both parties have closed is gone
        &&& forall|id: u64| #[trigger]
            self.is_live(id) ==> !(self.escrows[id].client_closed && self.escrows[id].server_closed)
        // a payment refers to an escrow that was opened before it
        &&& forall|i: int|
            0 <= i < self.payments.len() ==> (#[trigger] self.payments[i]).escrow_id
                < self.escrow_counter
    }

    /// The party whose authorization `op` needs, or the error with which `op`
    /// fails before the authorization oracle is even asked.
    pub open spec fn signer(self, op: Operation) -> Result<Party, EscrowError> {
        match op {
            Operation::OpenEscrow { client, .. } => Ok(client),
            Operation::CreatePayment { escrow_id, .. } => match self.escrow(escrow_id) {
                Some(escrow) => Ok(escrow.server),
                None => Err(EscrowError::EscrowNotFound),
            },
            Operation::SettlePayment { payment_id } => match self.payment(payment_id) {
                None => Err(EscrowError::PaymentNotFound),
                Some(payment) => if payment.settled {
                    Err(EscrowError::PaymentAlreadySettled)
                } else {
                    match self.escrow(payment.escrow_id) {
                        Some(escrow) => Ok(escrow.server),
                        None => Err(EscrowError::EscrowNotFound),
                    }
                },
            },
            Operation::Deposit { escrow_id, .. } => match self.escrow(escrow_id) {
                Some(escrow) => Ok(escrow.client),
                None => Err(EscrowError::EscrowNotFound),
            },
            Operation::ClientClose { escrow_id } => match self.escrow(escrow_id) {
                Some(escrow) => Ok(escrow.client),
                None => Err(EscrowError::EscrowNotFound),
            },
            Operation::ServerClose { escrow_id } => match self.escrow(escrow_id) {
                Some(escrow) => Ok(escrow.server),
                None => Err(EscrowError::EscrowNotFound),
            },
        }
    }

    /// Whether `op` is accepted, where `authorized` is the oracle's verdict on
    /// the party that `signer` names. The checks come in this order: the
    /// records that `op` names exist, the party is authorized, the rule of the
    /// operation itself holds.
    pub open spec fn check(self, op: Operation, authorized: bool) -> Result<(), EscrowError> {
        match self.signer(op) {
            Err(e) => Err(e),
            Ok(_) => if !authorized {
                Err(EscrowError::AuthFailure)
            } else {
                match op {
                    Operation::OpenEscrow { client, server, .. } => if self.has_pair(
                        client,
                        server,
                    ) {
                        Err(EscrowError::DuplicateEscrow)
                    } else {
                        Ok(())
                    },
                    Operation::CreatePayment { escrow_id, amount, .. } => if self.escrows[escrow_id].balance
                        < amount {
                        Err(EscrowError::InsufficientBalance)
                    } else {
                        Ok(())
                    },
                    _ => Ok(()),
                }
            },
        }
    }

    /// The state after an accepted `op`.
    pub open spec fn apply(self, op: Operation) -> LedgerState {
        match op {
            Operation::OpenEscrow { client, server, amount } => {
                let escrow_id = self.escrow_counter as u64;
                let escrow = Escrow {
                    client,
                    server,
                    balance: amount,
                    client_closed: false,
                    server_closed: false,
                };
                LedgerState {
                    escrows: self.escrows.insert(escrow_id, escrow),
                    escrow_counter: self.escrow_counter + 1,
                    notifications: self.notifications.push(
                        Notification::Opened { escrow_id, client, server },
                    ),
                    ..self
                }
            },
            Operation::CreatePayment { escrow_id, amount, timestamp } => {
                let escrow = self.escrows[escrow_id];
                let payment = Payment { escrow_id, amount, settled: false, timestamp };
                LedgerState {
                    payments: self.payments.push(payment),
                    notifications: self.notifications.push(
                        Notification::PaymentCreated {
                            payment_id: self.payments.len() as u64,
                            amount,
                            server: escrow.server,
                            client: escrow.client,
                        },
                    ),
                    ..self
                }
            },
            Operation::SettlePayment { payment_id } => {
                let payment = self.payments[payment_id as int];
                let escrow = self.escrows[payment.escrow_id];
                LedgerState {
                    escrows: self.escrows.insert(
                        payment.escrow_id,
                        Escrow { balance: (escrow.balance - payment.amount) as i128, ..escrow },
                    ),
                    payments: self.payments.update(
                        payment_id as int,
                        Payment { settled: true, ..payment },
                    ),
                    notifications: self.notifications.push(
                        Notification::Settled { payment_id, amount: payment.amount },
                    ),
                    ..self
                }
            },
            Operation::Deposit { escrow_id, amount } => {
                let escrow = self.escrows[escrow_id];
                LedgerState {
                    escrows: self.escrows.insert(
                        escrow_id,
                        Escrow { balance: (escrow.balance + amount) as i128, ..escrow },
                    ),
                    notifications: self.notifications.push(
                        Notification::Deposited { escrow_id, amount },
                    ),
                    ..self
                }
            },
            Operation::ClientClose { escrow_id } => {
                let escrow = self.escrows[escrow_id];
                if escrow.server_closed {
                    self.closed(escrow_id)
                } else {
                    LedgerState {
                        escrows: self.escrows.insert(
                            escrow_id,
                            Escrow { client_closed: true, ..escrow },
                        ),
                        ..self
                    }
                }
            },
            Operation::ServerClose { escrow_id } => {
                let escrow = self.escrows[escrow_id];
                if escrow.client_closed {
                    self.closed(escrow_id)
                } else {
                    LedgerState {
                        escrows: self.escrows.insert(
                            escrow_id,
                            Escrow { server_closed: true, ..escrow },
                        ),
                        ..self
                    }
                }
            },
        }
    }

    /// The state after the second party has closed the live escrow
    /// `escrow_id`: the escrow is deleted, and with it the pairing of its
    /// client and server.
    pub open spec fn closed(self, escrow_id: u64) -> LedgerState {
        LedgerState {
            escrows: self.escrows.remove(escrow_id),
            notifications: self.notifications.push(
                Notification::Closed { escrow_id, remaining: self.escrows[escrow_id].balance },
            ),
            ..self
        }
    }

    /// The state after `op` was requested: changed as `apply` says where `op`
    /// is accepted, unchanged where it is refused.
    pub open spec fn step(self, op: Operation, authorized: bool) -> LedgerState {
        if self.check(op, authorized) is Ok {
            self.apply(op)
        } else {
            self
        }
    }

    /// What closing one side of the live escrow `escrow_id` releases, the
    /// request being accepted: the balance if the other party had closed
    /// already, nothing yet otherwise. `client_side` says which side closes.
    pub open spec fn released(self, escrow_id: u64, client_side: bool) -> Option<i128> {
        let escrow = self.escrows[escrow_id];
        let other_closed = if client_side {
            escrow.server_closed
        } else {
            escrow.client_closed
        };
        if other_closed {
            Some(escrow.balance)
        } else {
            None
        }
    }

    /// What a request to close one side of escrow `escrow_id` returns.
    pub open spec fn close_outcome(self, escrow_id: u64, client_side: bool, authorized: bool) -> Result<
        Option<i128>,
        EscrowError,
    > {
        let op = if client_side {
            Operation::ClientClose { escrow_id }
        } else {
            Operation::ServerClose { escrow_id }
        };
        match self.check(op, authorized) {
            Ok(_) => Ok(self.released(escrow_id, client_side)),
            Err(e) => Err(e),
        }
    }

    /// Whether the machine can carry out `op`: an accepted request must not
    /// take a balance out of the range of `i128`, nor a counter out of the
    /// range of `u64`.
    pub open spec fn admits(self, op: Operation, authorized: bool) -> bool {
        self.check(op, authorized) is Ok ==> match op {
            Operation::OpenEscrow { .. } => self.escrow_counter < u64::MAX,
            Operation::CreatePayment { .. } => self.payments.len() < u64::MAX,
            Operation::SettlePayment { payment_id } => {
                let payment = self.payments[payment_id as int];
                i128::MIN <= self.escrows[payment.escrow_id].balance - payment.amount <= i128::MAX
            },
            Operation::Deposit { escrow_id, amount } => i128::MIN <= self.escrows[escrow_id].balance
                + amount <= i128::MAX,
            _ => true,
        }
    }
}

/// One request together with the verdict that the authorization oracle gave
/// on it.
pub struct Call {
    pub op: Operation,
    pub authorized: bool,
}

impl LedgerState {
    /// The state after the requests of `calls` were made one after the other,
    /// the first of them in state `self`.
    pub open spec fn run(self, calls: Seq<Call>) -> LedgerState
        decreases calls.len(),
    {
        if calls.len() == 0 {
            self
        } else {
            self.run(calls.drop_last()).step(calls.last().op, calls.last().authorized)
        }
    }

    /// Whether the machine can carry out each request of `calls` in the state
    /// in which it is made.
    pub open spec fn admits_all(self, calls: Seq<Call>) -> bool
        decreases calls.len(),
    {
        calls.len() == 0 || {
            &&& self.admits_all(calls.drop_last())
            &&& self.run(calls.drop_last()).admits(calls.last().op, calls.last().authorized)
        }
    }

    /// What one request, made in state `self`, adds to the balance of escrow
    /// `id`: the first amount where it opens that escrow, the amount where it
    /// deposits into it, minus the amount of the payment where it settles a
    /// payment drawn on it, and nothing where it does anything else or is
    /// refused.
    pub open spec fn credit(self, call: Call, id: u64) -> int {
        if self.check(call.op, call.authorized) is Ok {
            match call.op {
                Operation::OpenEscrow { amount, .. } => if id == self.escrow_counter {
                    amount as int
                } else {
                    0
                },
                Operation::Deposit { escrow_id, amount } => if id == escrow_id {
                    amount as int
                } else {
                    0
                },
                Operation::SettlePayment { payment_id } => if id
                    == self.payments[payment_id as int].escrow_id {
                    -(self.payments[payment_id as int].amount as int)
                } else {
                    0
                },
                _ => 0,
            }
        } else {
            0
        }
    }

    /// The sum of what the requests of `calls`, made one after the other from
    /// state `self` on, add to the balance of escrow `id`.
    pub open spec fn net_credit(self, calls: Seq<Call>, id: u64) -> int
        decreases calls.len(),
    {
        if calls.len() == 0 {
            0
        } else {
            self.net_credit(calls.drop_last(), id) + self.run(calls.drop_last()).credit(
                calls.last(),
                id,
            )
        }
    }
}

} // verus!
