//! The laws of the ledger, proved about its mathematical model.

use vstd::prelude::*;
use crate::party::Party;
use crate::records::{EscrowError, Notification, Operation, Payment};
use crate::model::{Call, LedgerState};

verus! {

/// A state whose live escrows all stem from the live escrows of a consistent
/// state, with the same parties and not closed on both sides, is consistent
/// in all that concerns escrows.
proof fn lemma_escrows_carried_over(s: LedgerState, t: LedgerState)
    requires
        s.wf(),
        s.escrow_counter <= t.escrow_counter <= u64::MAX,
        t.payments.len() <= u64::MAX,
        forall|id: u64| #[trigger]
            t.is_live(id) ==> {
                &&& s.is_live(id)
                &&& t.escrows[id].client == s.escrows[id].client
                &&& t.escrows[id].server == s.escrows[id].server
                &&& !(t.escrows[id].client_closed && t.escrows[id].server_closed)
            },
        forall|i: int|
            0 <= i < t.payments.len() ==> (#[trigger] t.payments[i]).escrow_id < t.escrow_counter,
    ensures
        t.wf(),
{
    assert forall|a: u64, b: u64|
        t.is_live(a) && t.is_live(b) && t.escrows[a].client == t.escrows[b].client
            && t.escrows[a].server == t.escrows[b].server implies a == b by {
        assert(s.is_live(a) && s.is_live(b));
    }
    assert forall|id: u64| #[trigger] t.is_live(id) implies id < t.escrow_counter by {
        assert(s.is_live(id));
    }
}

/// Consistency does not depend on the notifications that wait to be
/// published.
pub proof fn lemma_wf_ignores_notifications(s: LedgerState, notifications: Seq<Notification>)
    requires
        s.wf(),
    ensures
        (LedgerState { notifications, ..s }).wf(),
{
    let t = LedgerState { notifications, ..s };
    assert forall|id: u64| #[trigger] t.is_live(id) implies s.is_live(id) by {}
    lemma_escrows_carried_over(s, t);
}

/// Consistency is an invariant: a request that the machine can carry out
/// leaves a consistent ledger consistent, whether it is accepted or refused.
pub proof fn lemma_step_keeps_wf(s: LedgerState, op: Operation, authorized: bool)
    requires
        s.wf(),
        s.admits(op, authorized),
    ensures
        s.step(op, authorized).wf(),
{
    let t = s.step(op, authorized);
    if s.check(op, authorized) is Ok {
        match op {
            Operation::OpenEscrow { client, server, amount } => {
                let new_id = s.escrow_counter as u64;
                assert(!s.is_live(new_id));
                assert forall|a: u64, b: u64|
                    t.is_live(a) && t.is_live(b) && t.escrows[a].client == t.escrows[b].client
                        && t.escrows[a].server == t.escrows[b].server implies a == b by {
                    if a == new_id && b != new_id {
                        assert(s.pairs(b, client, server));
                    }
                    if b == new_id && a != new_id {
                        assert(s.pairs(a, client, server));
                    }
                    if a != new_id && b != new_id {
                        assert(s.is_live(a) && s.is_live(b));
                    }
                }
                assert forall|id: u64| #[trigger] t.is_live(id) implies id < t.escrow_counter && !(
                t.escrows[id].client_closed && t.escrows[id].server_closed) by {
                    if id != new_id {
                        assert(s.is_live(id));
                    }
                }
            },
            Operation::CreatePayment { escrow_id, .. } => {
                assert(s.is_live(escrow_id));
                assert forall|id: u64| #[trigger] t.is_live(id) implies s.is_live(id) by {}
                lemma_escrows_carried_over(s, t);
            },
            Operation::SettlePayment { payment_id } => {
                assert forall|id: u64| #[trigger] t.is_live(id) implies s.is_live(id) by {}
                assert forall|i: int| 0 <= i < t.payments.len() implies (#[trigger] t.payments[i]).escrow_id
                    < t.escrow_counter by {
                    assert(s.payments[i].escrow_id < s.escrow_counter);
                }
                lemma_escrows_carried_over(s, t);
            },
            Operation::Deposit { .. } => {
                assert forall|id: u64| #[trigger] t.is_live(id) implies s.is_live(id) by {}
                lemma_escrows_carried_over(s, t);
            },
            Operation::ClientClose { .. } => {
                assert forall|id: u64| #[trigger] t.is_live(id) implies s.is_live(id) by {}
                lemma_escrows_carried_over(s, t);
            },
            Operation::ServerClose { .. } => {
                assert forall|id: u64| #[trigger] t.is_live(id) implies s.is_live(id) by {}
                lemma_escrows_carried_over(s, t);
            },
        }
    }
}

/// A ledger on which nothing has happened yet is consistent.
pub proof fn lemma_empty_is_wf()
    ensures
        LedgerState::empty().wf(),
{
}

/// Consistency holds at any time: after any sequence of requests that the
/// machine can carry out, made on a consistent ledger.
pub proof fn lemma_run_keeps_wf(s: LedgerState, calls: Seq<Call>)
    requires
        s.wf(),
        s.admits_all(calls),
    ensures
        s.run(calls).wf(),
    decreases calls.len(),
{
    if calls.len() > 0 {
        lemma_run_keeps_wf(s, calls.drop_last());
        lemma_step_keeps_wf(s.run(calls.drop_last()), calls.last().op, calls.last().authorized);
    }
}

/// Uniqueness: an ordered pair of client and server has at most one live
/// escrow.
pub proof fn lemma_pair_has_one_escrow(
    s: LedgerState,
    client: Party,
    server: Party,
    a: u64,
    b: u64,
)
    requires
        s.wf(),
        s.pairs(a, client, server),
        s.pairs(b, client, server),
    ensures
        a == b,
{
    assert(s.is_live(a) && s.is_live(b));
}

/// Uniqueness at any time: whatever has been requested of a ledger since it
/// was new, no ordered pair of client and server has two live escrows.
pub proof fn lemma_pair_has_one_escrow_at_any_time(
    calls: Seq<Call>,
    client: Party,
    server: Party,
    a: u64,
    b: u64,
)
    requires
        LedgerState::empty().admits_all(calls),
        LedgerState::empty().run(calls).pairs(a, client, server),
        LedgerState::empty().run(calls).pairs(b, client, server),
    ensures
        a == b,
{
    lemma_run_keeps_wf(LedgerState::empty(), calls);
    lemma_pair_has_one_escrow(LedgerState::empty().run(calls), client, server, a, b);
}

/// The pairing index holds an entry for an ordered pair exactly while the
/// pair has a live escrow, and the entry is that escrow: looking the pair up
/// finds `id` if and only if `id` is a live escrow of that client with that
/// server.
pub proof fn lemma_find_escrow_is_the_pairing(
    s: LedgerState,
    client: Party,
    server: Party,
    id: u64,
)
    requires
        s.wf(),
    ensures
        s.find_escrow(client, server) == Some(id) <==> s.pairs(id, client, server),
{
    if s.has_pair(client, server) {
        let chosen = choose|id: u64| s.pairs(id, client, server);
        if s.pairs(id, client, server) {
            lemma_pair_has_one_escrow(s, client, server, id, chosen);
        }
    }
}

/// A refused request changes nothing.
pub proof fn lemma_refused_changes_nothing(s: LedgerState, op: Operation, authorized: bool)
    requires
        s.check(op, authorized) is Err,
    ensures
        s.step(op, authorized) == s,
{
}

/// Counters only grow, and by one for each record created: ids are never
/// reused.
pub proof fn lemma_counters_grow(s: LedgerState, op: Operation, authorized: bool)
    ensures
        ({
            let t = s.step(op, authorized);
            let accepted = s.check(op, authorized) is Ok;
            &&& t.escrow_counter == s.escrow_counter + (if accepted && op is OpenEscrow {
                1int
            } else {
                0int
            })
            &&& t.payment_counter() == s.payment_counter() + (if accepted && op is CreatePayment {
                1int
            } else {
                0int
            })
        }),
{
}

/// Over any sequence of requests the counters never decrease.
pub proof fn lemma_counters_never_shrink(s: LedgerState, calls: Seq<Call>)
    ensures
        s.escrow_counter <= s.run(calls).escrow_counter,
        s.payment_counter() <= s.run(calls).payment_counter(),
    decreases calls.len(),
{
    if calls.len() > 0 {
        lemma_counters_never_shrink(s, calls.drop_last());
        lemma_counters_grow(s.run(calls.drop_last()), calls.last().op, calls.last().authorized);
    }
}

/// An escrow keeps its client and its server for as long as it lives, and a
/// close flag that was set stays set.
pub proof fn lemma_parties_and_flags_persist(
    s: LedgerState,
    op: Operation,
    authorized: bool,
    id: u64,
)
    requires
        s.wf(),
        s.is_live(id),
        s.step(op, authorized).is_live(id),
    ensures
        ({
            let before = s.escrows[id];
            let after = s.step(op, authorized).escrows[id];
            &&& after.client == before.client
            &&& after.server == before.server
            &&& before.client_closed ==> after.client_closed
            &&& before.server_closed ==> after.server_closed
        }),
{
    if s.check(op, authorized) is Ok {
        match op {
            Operation::OpenEscrow { .. } => {
                assert(id < s.escrow_counter);
            },
            _ => {},
        }
    }
}

/// What one request does to the balance of an escrow that is live before and
/// after it: it adds the request's credit.
proof fn lemma_step_credits(s: LedgerState, call: Call, id: u64)
    requires
        s.wf(),
        s.admits(call.op, call.authorized),
        s.is_live(id),
        s.step(call.op, call.authorized).is_live(id),
    ensures
        s.step(call.op, call.authorized).escrows[id].balance == s.escrows[id].balance + s.credit(
            call,
            id,
        ),
{
    if s.check(call.op, call.authorized) is Ok {
        match call.op {
            Operation::OpenEscrow { .. } => {
                assert(id < s.escrow_counter);
            },
            _ => {},
        }
    }
}

/// What a sequence of requests does to an escrow that was not yet opened
/// when it began: nothing while the id is still to come, and afterwards, for
/// as long as the escrow lives, its balance is the sum of the credits.
proof fn lemma_conservation_from_unopened(s: LedgerState, calls: Seq<Call>, id: u64)
    requires
        s.wf(),
        s.admits_all(calls),
        id >= s.escrow_counter,
    ensures
        s.escrow_counter <= s.run(calls).escrow_counter,
        id >= s.run(calls).escrow_counter ==> s.net_credit(calls, id) == 0,
        s.run(calls).is_live(id) ==> s.run(calls).escrows[id].balance == s.net_credit(calls, id),
    decreases calls.len(),
{
    if calls.len() > 0 {
        let before = s.run(calls.drop_last());
        let call = calls.last();
        let after = before.step(call.op, call.authorized);
        lemma_conservation_from_unopened(s, calls.drop_last(), id);
        lemma_run_keeps_wf(s, calls.drop_last());
        lemma_counters_grow(before, call.op, call.authorized);
        if id >= before.escrow_counter {
            assert(!before.is_live(id));
            if before.check(call.op, call.authorized) is Ok {
                match call.op {
                    Operation::SettlePayment { payment_id } => {
                        assert(before.payments[payment_id as int].escrow_id < before.escrow_counter);
                    },
                    _ => {},
                }
            }
        } else if after.is_live(id) {
            if before.is_live(id) {
                lemma_step_credits(before, call, id);
            } else {
                if before.check(call.op, call.authorized) is Ok {
                    match call.op {
                        Operation::OpenEscrow { .. } => {},
                        _ => {},
                    }
                }
            }
        }
    } else {
        assert(!s.is_live(id));
    }
}

/// What a sequence of requests does to an escrow that lives when it begins.
proof fn lemma_conservation_from_live(s: LedgerState, calls: Seq<Call>, id: u64)
    requires
        s.wf(),
        s.admits_all(calls),
        s.is_live(id),
    ensures
        s.run(calls).is_live(id) ==> s.run(calls).escrows[id].balance == s.escrows[id].balance
            + s.net_credit(calls, id),
    decreases calls.len(),
{
    if calls.len() > 0 {
        let before = s.run(calls.drop_last());
        let call = calls.last();
        lemma_conservation_from_live(s, calls.drop_last(), id);
        lemma_run_keeps_wf(s, calls.drop_last());
        lemma_counters_never_shrink(s, calls.drop_last());
        lemma_counters_grow(before, call.op, call.authorized);
        if before.is_live(id) && before.step(call.op, call.authorized).is_live(id) {
            lemma_step_credits(before, call, id);
        }
    }
}

/// Closure is one-way: an id that was handed out and whose escrow is gone
/// never names a live escrow again, whatever is requested afterwards.
pub proof fn lemma_escrow_stays_closed(s: LedgerState, calls: Seq<Call>, id: u64)
    requires
        s.wf(),
        s.admits_all(calls),
        id < s.escrow_counter,
        !s.is_live(id),
    ensures
        id < s.run(calls).escrow_counter,
        !s.run(calls).is_live(id),
    decreases calls.len(),
{
    if calls.len() > 0 {
        let before = s.run(calls.drop_last());
        let call = calls.last();
        lemma_escrow_stays_closed(s, calls.drop_last(), id);
        lemma_counters_grow(before, call.op, call.authorized);
    }
}

/// Balance conservation: after any sequence of requests, the balance of a
/// live escrow is what it was when the sequence began (nothing, if the
/// escrow was opened in the course of it) plus the amount with which it was
/// opened, plus the deposits into it, minus the payments drawn on it that
/// were settled. Payments that were created and not settled do not count,
/// nor does any request that was refused.
pub proof fn lemma_balance_conservation(s: LedgerState, calls: Seq<Call>, id: u64)
    requires
        s.wf(),
        s.admits_all(calls),
        s.run(calls).is_live(id),
    ensures
        s.run(calls).escrows[id].balance == (if s.is_live(id) {
            s.escrows[id].balance as int
        } else {
            0
        }) + s.net_credit(calls, id),
{
    if s.is_live(id) {
        lemma_conservation_from_live(s, calls, id);
    } else if id >= s.escrow_counter {
        lemma_conservation_from_unopened(s, calls, id);
    } else {
        lemma_escrow_stays_closed(s, calls, id);
    }
}

/// Balance conservation from the beginning: whatever has been requested of
/// a ledger since it was new, the balance of a live escrow is the amount with
/// which it was opened, plus the deposits into it, minus the payments drawn
/// on it that were settled.
pub proof fn lemma_balance_is_sum_of_credits(calls: Seq<Call>, id: u64)
    requires
        LedgerState::empty().admits_all(calls),
        LedgerState::empty().run(calls).is_live(id),
    ensures
        LedgerState::empty().run(calls).escrows[id].balance == LedgerState::empty().net_credit(
            calls,
            id,
        ),
{
    lemma_balance_conservation(LedgerState::empty(), calls, id);
}

/// Settlement happens exactly once: after a payment was settled, a second
/// request to settle it is refused with `PaymentAlreadySettled`, whatever the
/// authorization oracle says, and changes neither a balance nor a record.
pub proof fn lemma_second_settlement_is_refused(
    s: LedgerState,
    payment_id: u64,
    first_authorized: bool,
    second_authorized: bool,
)
    requires
        s.wf(),
        s.check(Operation::SettlePayment { payment_id }, first_authorized) is Ok,
    ensures
        ({
            let settled = s.step(Operation::SettlePayment { payment_id }, first_authorized);
            &&& settled.check(Operation::SettlePayment { payment_id }, second_authorized) == Err::<
                (),
                EscrowError,
            >(EscrowError::PaymentAlreadySettled)
            &&& settled.step(Operation::SettlePayment { payment_id }, second_authorized) == settled
        }),
{
}

/// A settled payment stays as it is: whatever is requested afterwards, its
/// record does not change, so that every later request to settle it is
/// refused with `PaymentAlreadySettled`.
pub proof fn lemma_settled_payment_is_final(s: LedgerState, calls: Seq<Call>, payment_id: u64)
    requires
        s.payment(payment_id) is Some,
        s.payments[payment_id as int].settled,
    ensures
        s.run(calls).payment(payment_id) == s.payment(payment_id),
        forall|authorized: bool|
            s.run(calls).check(Operation::SettlePayment { payment_id }, authorized) == Err::<
                (),
                EscrowError,
            >(EscrowError::PaymentAlreadySettled),
    decreases calls.len(),
{
    if calls.len() > 0 {
        lemma_settled_payment_is_final(s, calls.drop_last(), payment_id);
    }
}

/// Deleting an escrow deletes its pairing: afterwards its client and server
/// have no live escrow, until they open a new one.
pub proof fn lemma_closure_unpairs(s: LedgerState, escrow_id: u64)
    requires
        s.wf(),
        s.is_live(escrow_id),
    ensures
        !s.closed(escrow_id).is_live(escrow_id),
        s.closed(escrow_id).find_escrow(s.escrows[escrow_id].client, s.escrows[escrow_id].server)
            is None,
{
    let escrow = s.escrows[escrow_id];
    let end = s.closed(escrow_id);
    assert forall|id: u64| !end.pairs(id, escrow.client, escrow.server) by {
        if end.pairs(id, escrow.client, escrow.server) {
            assert(s.pairs(id, escrow.client, escrow.server));
            lemma_pair_has_one_escrow(s, escrow.client, escrow.server, id, escrow_id);
        }
    }
}

/// Closure symmetry: when both parties close a live escrow, the order in
/// which they do so does not matter. Either way the ledger ends in the same
/// state, in which the escrow and its pairing are gone, and the balance is
/// released once, by the call that completes the closure: the second, or
/// already the first where the other party had closed before.
pub proof fn lemma_closure_order_is_irrelevant(s: LedgerState, escrow_id: u64)
    requires
        s.wf(),
        s.is_live(escrow_id),
    ensures
        ({
            let escrow = s.escrows[escrow_id];
            let client_first = s.step(Operation::ClientClose { escrow_id }, true);
            let server_first = s.step(Operation::ServerClose { escrow_id }, true);
            let end = client_first.step(Operation::ServerClose { escrow_id }, true);
            let released = Ok::<Option<i128>, EscrowError>(Some(escrow.balance));
            let pending = Ok::<Option<i128>, EscrowError>(None);
            let gone = Err::<Option<i128>, EscrowError>(EscrowError::EscrowNotFound);
            &&& end == server_first.step(Operation::ClientClose { escrow_id }, true)
            &&& end == s.closed(escrow_id)
            &&& !end.is_live(escrow_id)
            &&& end.find_escrow(escrow.client, escrow.server) is None
            // the client, then the server
            &&& s.close_outcome(escrow_id, true, true) == (if escrow.server_closed {
                released
            } else {
                pending
            })
            &&& client_first.close_outcome(escrow_id, false, true) == (if escrow.server_closed {
                gone
            } else {
                released
            })
            // the server, then the client
            &&& s.close_outcome(escrow_id, false, true) == (if escrow.client_closed {
                released
            } else {
                pending
            })
            &&& server_first.close_outcome(escrow_id, true, true) == (if escrow.client_closed {
                gone
            } else {
                released
            })
        }),
{
    let escrow = s.escrows[escrow_id];
    let client_first = s.step(Operation::ClientClose { escrow_id }, true);
    let server_first = s.step(Operation::ServerClose { escrow_id }, true);
    let end = client_first.step(Operation::ServerClose { escrow_id }, true);
    let other = server_first.step(Operation::ClientClose { escrow_id }, true);
    assert(end.escrows =~= s.escrows.remove(escrow_id));
    assert(other.escrows =~= s.escrows.remove(escrow_id));
    assert(end == s.closed(escrow_id));
    assert(other == s.closed(escrow_id));
    lemma_closure_unpairs(s, escrow_id);
}

/// Closure symmetry across ledgers: two escrows with equal balances, neither
/// closed on any side yet, one closed by its client and then its server, the
/// other by its server and then its client, come to the same end. In both
/// the first call releases nothing, the second releases the same remaining
/// balance, and afterwards the escrow and its pairing are gone.
pub proof fn lemma_closure_is_symmetric(s: LedgerState, a: u64, t: LedgerState, b: u64)
    requires
        s.wf(),
        t.wf(),
        s.is_live(a),
        t.is_live(b),
        !s.escrows[a].client_closed && !s.escrows[a].server_closed,
        !t.escrows[b].client_closed && !t.escrows[b].server_closed,
        s.escrows[a].balance == t.escrows[b].balance,
    ensures
        ({
            let s_pending = s.step(Operation::ClientClose { escrow_id: a }, true);
            let t_pending = t.step(Operation::ServerClose { escrow_id: b }, true);
            let s_end = s_pending.step(Operation::ServerClose { escrow_id: a }, true);
            let t_end = t_pending.step(Operation::ClientClose { escrow_id: b }, true);
            &&& s.close_outcome(a, true, true) == Ok::<Option<i128>, EscrowError>(None)
            &&& t.close_outcome(b, false, true) == Ok::<Option<i128>, EscrowError>(None)
            &&& s_pending.close_outcome(a, false, true) == Ok::<Option<i128>, EscrowError>(
                Some(s.escrows[a].balance),
            )
            &&& t_pending.close_outcome(b, true, true) == s_pending.close_outcome(a, false, true)
            &&& !s_end.is_live(a)
            &&& !t_end.is_live(b)
            &&& s_end.find_escrow(s.escrows[a].client, s.escrows[a].server) is None
            &&& t_end.find_escrow(t.escrows[b].client, t.escrows[b].server) is None
        }),
{
    lemma_closure_order_is_irrelevant(s, a);
    lemma_closure_order_is_irrelevant(t, b);
}

/// Closure is final: once the client and then the server have closed an
/// escrow, looking up its id fails and looking up its pair finds nothing.
pub proof fn lemma_closed_escrow_is_gone(s: LedgerState, escrow_id: u64)
    requires
        s.wf(),
        s.is_live(escrow_id),
    ensures
        ({
            let escrow = s.escrows[escrow_id];
            let end = s.step(Operation::ClientClose { escrow_id }, true).step(
                Operation::ServerClose { escrow_id },
                true,
            );
            &&& end.wf()
            &&& end.escrow(escrow_id) is None
            &&& end.find_escrow(escrow.client, escrow.server) is None
            &&& escrow_id < end.escrow_counter
        }),
{
    lemma_closure_order_is_irrelevant(s, escrow_id);
    lemma_step_keeps_wf(s, Operation::ClientClose { escrow_id }, true);
    lemma_step_keeps_wf(
        s.step(Operation::ClientClose { escrow_id }, true),
        Operation::ServerClose { escrow_id },
        true,
    );
}

/// A payment changes once at most: a request either leaves the record of an
/// existing payment as it is, or it is the accepted request to settle that
/// payment, which sets its `settled` flag and nothing else.
pub proof fn lemma_payment_changes_only_by_settlement(
    s: LedgerState,
    op: Operation,
    authorized: bool,
    payment_id: u64,
)
    requires
        s.payment(payment_id) is Some,
    ensures
        ({
            let before = s.payments[payment_id as int];
            let after = s.step(op, authorized).payment(payment_id);
            if op == (Operation::SettlePayment { payment_id }) && s.check(op, authorized) is Ok {
                !before.settled && after == Some(Payment { settled: true, ..before })
            } else {
                after == Some(before)
            }
        }),
{
}

} // verus!
