//! The executable ledger.
//!
//! The ledger is a value that the embedding component owns and passes to every
//! operation. It reaches no collaborator itself. The embedding component asks
//! the authorization oracle about the party that `required_signer` names and
//! hands the verdict in as `authorized`; it reads the clock and hands the time
//! in; and it takes the notifications out with `take_notifications` to
//! publish them.

use vstd::prelude::*;
use crate::party::Party;
use crate::records::{Escrow, EscrowError, Notification, Operation, Payment};
use crate::model::LedgerState;
use crate::laws::{
    lemma_closure_unpairs, lemma_find_escrow_is_the_pairing, lemma_step_keeps_wf,
    lemma_wf_ignores_notifications,
};

verus! {

/// The escrow ledger: escrows, payments and the notifications not yet
/// published.
pub struct X402EscrowContract {
    /// Slot `i` holds the escrow with id `i` while it is live.
    escrows: Vec<Option<Escrow>>,
    /// Slot `i` holds the payment with id `i`.
    payments: Vec<Payment>,
    outbox: Vec<Notification>,
}

impl View for X402EscrowContract {
    type V = LedgerState;

    closed spec fn view(&self) -> LedgerState {
        LedgerState::from_records(self.escrows@, self.payments@, self.outbox@)
    }
}

impl X402EscrowContract {
    /// The consistency of the ledger: that of its state.
    pub open spec fn wf(&self) -> bool {
        self@.wf()
    }

    /// A ledger on which nothing has happened yet.
    pub fn new() -> (ledger: X402EscrowContract)
        ensures
            ledger.wf(),
            ledger@ == LedgerState::empty(),
    {
        let ledger = X402EscrowContract {
            escrows: Vec::new(),
            payments: Vec::new(),
            outbox: Vec::new(),
        };
        assert(ledger@.escrows =~= Map::empty());
        ledger
    }

    /// Rebuilds a ledger from stored records: `slots[i]` is the escrow with id
    /// `i`, or nothing where that escrow was closed, and `payments[i]` is the
    /// payment with id `i`. Returns nothing where the records are not
    /// consistent with each other: where two live escrows have the same
    /// client and the same server, where a live escrow is closed on both
    /// sides, or where a payment names an escrow that was never opened.
    pub fn restore(slots: Vec<Option<Escrow>>, payments: Vec<Payment>) -> (ledger: Option<
        X402EscrowContract,
    >)
        ensures
            match ledger {
                Some(ledger) => {
                    &&& ledger.wf()
                    &&& ledger@ == LedgerState::from_records(slots@, payments@, Seq::empty())
                },
                None => !LedgerState::from_records(slots@, payments@, Seq::empty()).wf(),
            },
    {
        let ghost state = LedgerState::from_records(slots@, payments@, Seq::empty());
        let n = slots.len();
        let mut i: usize = 0;
        while i < n
            invariant
                n == slots.len(),
                i <= n,
                state == LedgerState::from_records(slots@, payments@, Seq::empty()),
                forall|a: u64|
                    a < i && #[trigger] state.is_live(a) ==> !(state.escrows[a].client_closed
                        && state.escrows[a].server_closed),
                forall|a: u64, b: u64|
                    #![trigger state.is_live(a), state.is_live(b)]
                    a < i && a < b && state.is_live(a) && state.is_live(b) ==> !(
                    state.escrows[a].client == state.escrows[b].client && state.escrows[a].server
                        == state.escrows[b].server),
            decreases n - i,
        {
            match slots[i] {
                Some(escrow) => {
                    if escrow.client_closed && escrow.server_closed {
                        assert(state.is_live(i as u64));
                        return None;
                    }
                    let mut j: usize = i + 1;
                    while j < n
                        invariant
                            n == slots.len(),
                            i < j <= n,
                            slots@[i as int] == Some(escrow),
                            state == LedgerState::from_records(slots@, payments@, Seq::empty()),
                            forall|b: u64|
                                i < b < j && #[trigger] state.is_live(b) ==> !(escrow.client
                                    == state.escrows[b].client && escrow.server
                                    == state.escrows[b].server),
                        decreases n - j,
                    {
                        match slots[j] {
                            Some(other) => {
                                if other.client.same_as(&escrow.client) && other.server.same_as(
                                    &escrow.server,
                                ) {
                                    assert(state.is_live(i as u64) && state.is_live(j as u64));
                                    return None;
                                }
                            },
                            None => {},
                        }
                        j = j + 1;
                    }
                },
                None => {},
            }
            i = i + 1;
        }
        let mut k: usize = 0;
        while k < payments.len()
            invariant
                n == slots.len(),
                k <= payments.len(),
                state == LedgerState::from_records(slots@, payments@, Seq::empty()),
                forall|m: int| 0 <= m < k ==> (#[trigger] payments@[m]).escrow_id < n,
            decreases payments.len() - k,
        {
            if payments[k].escrow_id >= n as u64 {
                assert(state.payments[k as int].escrow_id >= state.escrow_counter);
                return None;
            }
            k = k + 1;
        }
        proof {
            assert forall|a: u64, b: u64|
                state.is_live(a) && state.is_live(b) && state.escrows[a].client
                    == state.escrows[b].client && state.escrows[a].server
                    == state.escrows[b].server implies a == b by {
                if a < b {
                    assert(state.is_live(a) && state.is_live(b));
                } else if b < a {
                    assert(state.is_live(b) && state.is_live(a));
                }
            }
            assert(state.wf());
        }
        Some(X402EscrowContract { escrows: slots, payments, outbox: Vec::new() })
    }

    /// Number of escrows ever opened, which is the id that the next one gets.
    pub fn escrow_counter(&self) -> (count: u64)
        ensures
            count == self@.escrow_counter,
    {
        self.escrows.len() as u64
    }

    /// Number of payments ever created, which is the id that the next one
    /// gets.
    pub fn payment_counter(&self) -> (count: u64)
        ensures
            count == self@.payment_counter(),
    {
        self.payments.len() as u64
    }

    /// The escrow in slot `escrow_id`, if it is live.
    fn slot(&self, escrow_id: u64) -> (escrow: Option<Escrow>)
        ensures
            escrow == self@.escrow(escrow_id),
            escrow is Some ==> escrow_id < self.escrows.len(),
    {
        if escrow_id >= self.escrows.len() as u64 {
            None
        } else {
            self.escrows[escrow_id as usize]
        }
    }

    /// Opens an escrow between `client` and `server` with `amount` as its
    /// first balance, and returns its id. `authorized` is the oracle's verdict
    /// on `client`.
    ///
    /// Refused with `AuthFailure` without authorization, and with
    /// `DuplicateEscrow` where the ordered pair already has a live escrow.
    pub fn open_escrow(
        &mut self,
        client: Party,
        server: Party,
        amount: i128,
        authorized: bool,
    ) -> (result: Result<u64, EscrowError>)
        requires
            old(self).wf(),
        ensures
            final(self).wf(),
            result is Err ==> final(self)@ == old(self)@,
            final(self)@ == old(self)@.step(
                (Operation::OpenEscrow { client, server, amount }),
                authorized,
            ),
            result == (match old(self)@.check(
                (Operation::OpenEscrow { client, server, amount }),
                authorized,
            ) {
                Ok(_) => Ok(old(self)@.escrow_counter as u64),
                Err(e) => Err(e),
            }),
            result matches Ok(id) ==> {
                &&& final(self)@.escrow(id) == Some(
                    (Escrow {
                        client,
                        server,
                        balance: amount,
                        client_closed: false,
                        server_closed: false,
                    }),
                )
                &&& final(self)@.find_escrow(client, server) == Some(id)
            },
    {
        let ghost op = Operation::OpenEscrow { client, server, amount };
        if !authorized {
            return Err(EscrowError::AuthFailure);
        }
        if self.find_escrow(client, server).is_some() {
            return Err(EscrowError::DuplicateEscrow);
        }
        let escrow_id = self.escrows.len() as u64;
        let escrow = Escrow { client, server, balance: amount, client_closed: false, server_closed: false };
        self.escrows.push(Some(escrow));
        self.outbox.push(Notification::Opened { escrow_id, client, server });
        proof {
            assert(self.escrows.len() == old(self).escrows.len() + 1);
            assert(self@.escrows =~= old(self)@.escrows.insert(escrow_id, escrow));
            assert(self@ == old(self)@.step(op, authorized));
            lemma_step_keeps_wf(old(self)@, op, authorized);
            lemma_find_escrow_is_the_pairing(self@, client, server, escrow_id);
        }
        Ok(escrow_id)
    }

    /// Records the intent to pay `amount` out of escrow `escrow_id` at time
    /// `now`, and returns the payment's id. The balance is checked and not
    /// yet debited. `authorized` is the oracle's verdict on the escrow's
    /// server.
    ///
    /// Refused with `EscrowNotFound`, then `AuthFailure`, then
    /// `InsufficientBalance` where the balance is below `amount`.
    pub fn create_payment(
        &mut self,
        escrow_id: u64,
        amount: i128,
        now: u64,
        authorized: bool,
    ) -> (result: Result<u64, EscrowError>)
        requires
            old(self).wf(),
        ensures
            final(self).wf(),
            result is Err ==> final(self)@ == old(self)@,
            final(self)@ == old(self)@.step(
                (Operation::CreatePayment { escrow_id, amount, timestamp: now }),
                authorized,
            ),
            result == (match old(self)@.check(
                (Operation::CreatePayment { escrow_id, amount, timestamp: now }),
                authorized,
            ) {
                Ok(_) => Ok(old(self)@.payment_counter() as u64),
                Err(e) => Err(e),
            }),
            final(self)@.escrows == old(self)@.escrows,
            result is Ok ==> final(self)@.payment(result->Ok_0) == Some(
                (Payment { escrow_id, amount, settled: false, timestamp: now }),
            ),
    {
        let ghost op = Operation::CreatePayment { escrow_id, amount, timestamp: now };
        let escrow = match self.slot(escrow_id) {
            Some(escrow) => escrow,
            None => {
                return Err(EscrowError::EscrowNotFound);
            },
        };
        if !authorized {
            return Err(EscrowError::AuthFailure);
        }
        if escrow.balance < amount {
            return Err(EscrowError::InsufficientBalance);
        }
        let payment_id = self.payments.len() as u64;
        self.payments.push(Payment { escrow_id, amount, settled: false, timestamp: now });
        self.outbox.push(
            Notification::PaymentCreated {
                payment_id,
                amount,
                server: escrow.server,
                client: escrow.client,
            },
        );
        proof {
            assert(self.payments.len() == old(self).payments.len() + 1);
            assert(self@.escrows =~= old(self)@.escrows);
            assert(self@ == old(self)@.step(op, authorized));
            lemma_step_keeps_wf(old(self)@, op, authorized);
        }
        Ok(payment_id)
    }

    /// Settles payment `payment_id`: debits its amount from the balance of
    /// its escrow, which may go below zero, and marks it settled.
    /// `authorized` is the oracle's verdict on the escrow's server.
    ///
    /// Refused with `PaymentNotFound`, then `PaymentAlreadySettled`, then
    /// `EscrowNotFound` where the escrow has been closed, then `AuthFailure`.
    pub fn settle_payment(&mut self, payment_id: u64, authorized: bool) -> (result: Result<
        bool,
        EscrowError,
    >)
        requires
            old(self).wf(),
            old(self)@.admits((Operation::SettlePayment { payment_id }), authorized),
        ensures
            final(self).wf(),
            result is Err ==> final(self)@ == old(self)@,
            final(self)@ == old(self)@.step((Operation::SettlePayment { payment_id }), authorized),
            result == (match old(self)@.check(
                (Operation::SettlePayment { payment_id }),
                authorized,
            ) {
                Ok(_) => Ok(true),
                Err(e) => Err(e),
            }),
            result is Ok ==> {
                let payment = old(self)@.payments[payment_id as int];
                &&& final(self)@.payment(payment_id) == Some(
                    (Payment { settled: true, ..payment }),
                )
                &&& final(self)@.escrows[payment.escrow_id].balance == old(
                    self,
                )@.escrows[payment.escrow_id].balance - payment.amount
            },
    {
        let ghost op = Operation::SettlePayment { payment_id };
        if payment_id >= self.payments.len() as u64 {
            return Err(EscrowError::PaymentNotFound);
        }
        let payment = self.payments[payment_id as usize];
        if payment.settled {
            return Err(EscrowError::PaymentAlreadySettled);
        }
        let escrow = match self.slot(payment.escrow_id) {
            Some(escrow) => escrow,
            None => {
                return Err(EscrowError::EscrowNotFound);
            },
        };
        if !authorized {
            return Err(EscrowError::AuthFailure);
        }
        let debited = Escrow { balance: escrow.balance - payment.amount, ..escrow };
        self.store(payment.escrow_id, debited);
        self.payments.set(payment_id as usize, Payment { settled: true, ..payment });
        self.outbox.push(Notification::Settled { payment_id, amount: payment.amount });
        proof {
            assert(self@ == old(self)@.step(op, authorized));
            lemma_step_keeps_wf(old(self)@, op, authorized);
        }
        Ok(true)
    }

    /// Adds `amount` to the balance of escrow `escrow_id`. `authorized` is
    /// the oracle's verdict on the escrow's client. No amount is rejected,
    /// not even a negative one.
    ///
    /// Refused with `EscrowNotFound`, then `AuthFailure`.
    pub fn deposit(&mut self, escrow_id: u64, amount: i128, authorized: bool) -> (result: Result<
        (),
        EscrowError,
    >)
        requires
            old(self).wf(),
            old(self)@.admits((Operation::Deposit { escrow_id, amount }), authorized),
        ensures
            final(self).wf(),
            result is Err ==> final(self)@ == old(self)@,
            final(self)@ == old(self)@.step((Operation::Deposit { escrow_id, amount }), authorized),
            result == old(self)@.check((Operation::Deposit { escrow_id, amount }), authorized),
            result is Ok ==> final(self)@.escrows[escrow_id].balance == old(
                self,
            )@.escrows[escrow_id].balance + amount,
    {
        let ghost op = Operation::Deposit { escrow_id, amount };
        let escrow = match self.slot(escrow_id) {
            Some(escrow) => escrow,
            None => {
                return Err(EscrowError::EscrowNotFound);
            },
        };
        if !authorized {
            return Err(EscrowError::AuthFailure);
        }
        let credited = Escrow { balance: escrow.balance + amount, ..escrow };
        self.store(escrow_id, credited);
        self.outbox.push(Notification::Deposited { escrow_id, amount });
        proof {
            assert(self@ == old(self)@.step(op, authorized));
            lemma_step_keeps_wf(old(self)@, op, authorized);
        }
        Ok(())
    }

    /// Records that the client closes escrow `escrow_id`. If the server has
    /// closed already, the escrow is deleted and its remaining balance is
    /// returned; otherwise the escrow stays, marked, and nothing is returned
    /// yet. `authorized` is the oracle's verdict on the escrow's client.
    ///
    /// Refused with `EscrowNotFound`, then `AuthFailure`.
    pub fn client_close_escrow(&mut self, escrow_id: u64, authorized: bool) -> (result: Result<
        Option<i128>,
        EscrowError,
    >)
        requires
            old(self).wf(),
        ensures
            final(self).wf(),
            result is Err ==> final(self)@ == old(self)@,
            final(self)@ == old(self)@.step((Operation::ClientClose { escrow_id }), authorized),
            result == old(self)@.close_outcome(escrow_id, true, authorized),
            result matches Ok(Some(_)) ==> {
                &&& !final(self)@.is_live(escrow_id)
                &&& final(self)@.find_escrow(
                    old(self)@.escrows[escrow_id].client,
                    old(self)@.escrows[escrow_id].server,
                ) is None
            },
            result matches Ok(None) ==> final(self)@.escrow(escrow_id) == Some(
                (Escrow { client_closed: true, ..old(self)@.escrows[escrow_id] }),
            ),
    {
        let ghost op = Operation::ClientClose { escrow_id };
        let escrow = match self.slot(escrow_id) {
            Some(escrow) => escrow,
            None => {
                return Err(EscrowError::EscrowNotFound);
            },
        };
        if !authorized {
            return Err(EscrowError::AuthFailure);
        }
        if escrow.server_closed {
            self.remove_escrow(escrow_id, escrow.balance);
            proof {
                lemma_step_keeps_wf(old(self)@, op, authorized);
                lemma_closure_unpairs(old(self)@, escrow_id);
            }
            Ok(Some(escrow.balance))
        } else {
            let marked = Escrow { client_closed: true, ..escrow };
            self.store(escrow_id, marked);
            proof {
                assert(self@ == old(self)@.step(op, authorized));
                lemma_step_keeps_wf(old(self)@, op, authorized);
            }
            Ok(None)
        }
    }

    /// Records that the server closes escrow `escrow_id`. If the client has
    /// closed already, the escrow is deleted and its remaining balance is
    /// returned; otherwise the escrow stays, marked, and nothing is returned
    /// yet. `authorized` is the oracle's verdict on the escrow's server.
    ///
    /// Refused with `EscrowNotFound`, then `AuthFailure`.
    pub fn server_close_escrow(&mut self, escrow_id: u64, authorized: bool) -> (result: Result<
        Option<i128>,
        EscrowError,
    >)
        requires
            old(self).wf(),
        ensures
            final(self).wf(),
            result is Err ==> final(self)@ == old(self)@,
            final(self)@ == old(self)@.step((Operation::ServerClose { escrow_id }), authorized),
            result == old(self)@.close_outcome(escrow_id, false, authorized),
            result matches Ok(Some(_)) ==> {
                &&& !final(self)@.is_live(escrow_id)
                &&& final(self)@.find_escrow(
                    old(self)@.escrows[escrow_id].client,
                    old(self)@.escrows[escrow_id].server,
                ) is None
            },
            result matches Ok(None) ==> final(self)@.escrow(escrow_id) == Some(
                (Escrow { server_closed: true, ..old(self)@.escrows[escrow_id] }),
            ),
    {
        let ghost op = Operation::ServerClose { escrow_id };
        let escrow = match self.slot(escrow_id) {
            Some(escrow) => escrow,
            None => {
                return Err(EscrowError::EscrowNotFound);
            },
        };
        if !authorized {
            return Err(EscrowError::AuthFailure);
        }
        if escrow.client_closed {
            self.remove_escrow(escrow_id, escrow.balance);
            proof {
                lemma_step_keeps_wf(old(self)@, op, authorized);
                lemma_closure_unpairs(old(self)@, escrow_id);
            }
            Ok(Some(escrow.balance))
        } else {
            let marked = Escrow { server_closed: true, ..escrow };
            self.store(escrow_id, marked);
            proof {
                assert(self@ == old(self)@.step(op, authorized));
                lemma_step_keeps_wf(old(self)@, op, authorized);
            }
            Ok(None)
        }
    }

    /// Replaces the record of the live escrow `escrow_id`.
    fn store(&mut self, escrow_id: u64, escrow: Escrow)
        requires
            old(self)@.is_live(escrow_id),
        ensures
            final(self)@ == (LedgerState {
                escrows: old(self)@.escrows.insert(escrow_id, escrow),
                ..old(self)@
            }),
    {
        assert(escrow_id < self.escrows.len());
        self.escrows.set(escrow_id as usize, Some(escrow));
        proof {
            assert(self@.escrows =~= old(self)@.escrows.insert(escrow_id, escrow));
        }
    }

    /// Deletes the live escrow `escrow_id`, whose balance is `remaining`, and
    /// notes the closure for publication.
    fn remove_escrow(&mut self, escrow_id: u64, remaining: i128)
        requires
            old(self)@.is_live(escrow_id),
            old(self)@.escrows[escrow_id].balance == remaining,
        ensures
            final(self)@ == old(self)@.closed(escrow_id),
    {
        assert(escrow_id < self.escrows.len());
        self.escrows.set(escrow_id as usize, None);
        self.outbox.push(Notification::Closed { escrow_id, remaining });
        proof {
            assert(self@.escrows =~= old(self)@.escrows.remove(escrow_id));
        }
    }

    /// The balance of escrow `escrow_id`, or `EscrowNotFound`.
    pub fn get_escrow_balance(&self, escrow_id: u64) -> (result: Result<i128, EscrowError>)
        ensures
            result == (match self@.escrow(escrow_id) {
                Some(escrow) => Ok(escrow.balance),
                None => Err(EscrowError::EscrowNotFound),
            }),
    {
        match self.slot(escrow_id) {
            Some(escrow) => Ok(escrow.balance),
            None => Err(EscrowError::EscrowNotFound),
        }
    }

    /// The record of escrow `escrow_id`, or `EscrowNotFound`.
    pub fn get_escrow(&self, escrow_id: u64) -> (result: Result<Escrow, EscrowError>)
        ensures
            result == (match self@.escrow(escrow_id) {
                Some(escrow) => Ok(escrow),
                None => Err(EscrowError::EscrowNotFound),
            }),
    {
        match self.slot(escrow_id) {
            Some(escrow) => Ok(escrow),
            None => Err(EscrowError::EscrowNotFound),
        }
    }

    /// The record of payment `payment_id`, or `PaymentNotFound`.
    pub fn get_payment(&self, payment_id: u64) -> (result: Result<Payment, EscrowError>)
        ensures
            result == (match self@.payment(payment_id) {
                Some(payment) => Ok(payment),
                None => Err(EscrowError::PaymentNotFound),
            }),
    {
        if payment_id >= self.payments.len() as u64 {
            Err(EscrowError::PaymentNotFound)
        } else {
            Ok(self.payments[payment_id as usize])
        }
    }

    /// The id of the live escrow of the ordered pair (`client`, `server`), if
    /// it has one. The pair (`server`, `client`) is another pair.
    pub fn find_escrow(&self, client: Party, server: Party) -> (found: Option<u64>)
        requires
            self.wf(),
        ensures
            found == self@.find_escrow(client, server),
            match found {
                Some(id) => self@.pairs(id, client, server),
                None => forall|id: u64| !self@.pairs(id, client, server),
            },
            forall|id: u64| self@.pairs(id, client, server) ==> found == Some(id),
    {
        let mut i: usize = 0;
        while i < self.escrows.len()
            invariant
                self.wf(),
                i <= self.escrows.len(),
                forall|id: u64| id < i ==> !self@.pairs(id, client, server),
            decreases self.escrows.len() - i,
        {
            match self.escrows[i] {
                Some(escrow) => {
                    if escrow.client.same_as(&client) && escrow.server.same_as(&server) {
                        let id = i as u64;
                        proof {
                            assert(self@.pairs(id, client, server));
                            let chosen = choose|id: u64| self@.pairs(id, client, server);
                            assert(self@.is_live(id) && self@.is_live(chosen));
                        }
                        return Some(id);
                    }
                },
                None => {},
            }
            i = i + 1;
        }
        None
    }

    /// The party that the authorization oracle must confirm before `op` can
    /// be accepted, or the error with which `op` fails whatever the oracle
    /// says.
    pub fn required_signer(&self, op: &Operation) -> (result: Result<Party, EscrowError>)
        ensures
            result == self@.signer(*op),
    {
        match *op {
            Operation::OpenEscrow { client, .. } => Ok(client),
            Operation::CreatePayment { escrow_id, .. } => match self.slot(escrow_id) {
                Some(escrow) => Ok(escrow.server),
                None => Err(EscrowError::EscrowNotFound),
            },
            Operation::SettlePayment { payment_id } => {
                if payment_id >= self.payments.len() as u64 {
                    return Err(EscrowError::PaymentNotFound);
                }
                let payment = self.payments[payment_id as usize];
                if payment.settled {
                    return Err(EscrowError::PaymentAlreadySettled);
                }
                match self.slot(payment.escrow_id) {
                    Some(escrow) => Ok(escrow.server),
                    None => Err(EscrowError::EscrowNotFound),
                }
            },
            Operation::Deposit { escrow_id, .. } => match self.slot(escrow_id) {
                Some(escrow) => Ok(escrow.client),
                None => Err(EscrowError::EscrowNotFound),
            },
            Operation::ClientClose { escrow_id } => match self.slot(escrow_id) {
                Some(escrow) => Ok(escrow.client),
                None => Err(EscrowError::EscrowNotFound),
            },
            Operation::ServerClose { escrow_id } => match self.slot(escrow_id) {
                Some(escrow) => Ok(escrow.server),
                None => Err(EscrowError::EscrowNotFound),
            },
        }
    }

    /// Whether the machine can carry out `op`: whether `op`, if it is
    /// accepted, keeps every balance within `i128` and every counter within
    /// `u64`. `settle_payment` and `deposit` ask this of their callers.
    pub fn admits(&self, op: &Operation, authorized: bool) -> (ok: bool)
        requires
            self.wf(),
        ensures
            ok == self@.admits(*op, authorized),
    {
        if !authorized {
            return true;
        }
        match *op {
            Operation::OpenEscrow { client, server, .. } => {
                (self.escrows.len() as u64) < u64::MAX || self.find_escrow(client, server).is_some()
            },
            Operation::CreatePayment { escrow_id, amount, .. } => {
                if (self.payments.len() as u64) < u64::MAX {
                    return true;
                }
                match self.slot(escrow_id) {
                    Some(escrow) => escrow.balance < amount,
                    None => true,
                }
            },
            Operation::SettlePayment { payment_id } => {
                if payment_id >= self.payments.len() as u64 {
                    return true;
                }
                let payment = self.payments[payment_id as usize];
                if payment.settled {
                    return true;
                }
                match self.slot(payment.escrow_id) {
                    Some(escrow) => escrow.balance.checked_sub(payment.amount).is_some(),
                    None => true,
                }
            },
            Operation::Deposit { escrow_id, amount } => match self.slot(escrow_id) {
                Some(escrow) => escrow.balance.checked_add(amount).is_some(),
                None => true,
            },
            Operation::ClientClose { .. } => true,
            Operation::ServerClose { .. } => true,
        }
    }

    /// Hands out the notifications emitted since the last call, oldest
    /// first, and forgets them. Records and counters stay as they are.
    pub fn take_notifications(&mut self) -> (taken: Vec<Notification>)
        ensures
            taken@ == old(self)@.notifications,
            final(self)@ == (LedgerState { notifications: Seq::empty(), ..old(self)@ }),
            old(self).wf() ==> final(self).wf(),
    {
        let mut taken: Vec<Notification> = Vec::new();
        core::mem::swap(&mut taken, &mut self.outbox);
        proof {
            assert(self@.escrows =~= old(self)@.escrows);
            if old(self).wf() {
                lemma_wf_ignores_notifications(old(self)@, Seq::empty());
            }
        }
        taken
    }
}

} // verus!
