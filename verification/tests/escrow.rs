use x402_escrow::{Escrow, EscrowError, Notification, Party, Payment, X402EscrowContract};

fn party(tag: u8) -> Party {
    Party::new([tag; 56])
}

#[test]
fn test_open_escrow() {
    let mut ledger = X402EscrowContract::new();

    let client_addr = party(1);
    let server_addr = party(2);
    let amount: i128 = 1_000_000;

    let escrow_id = ledger.open_escrow(client_addr, server_addr, amount, true).unwrap();
    assert_eq!(escrow_id, 0);

    let escrow = ledger.get_escrow(escrow_id).unwrap();
    assert_eq!(escrow.client, client_addr);
    assert_eq!(escrow.server, server_addr);
    assert_eq!(escrow.balance, amount);
    assert_eq!(escrow.client_closed, false);
    assert_eq!(escrow.server_closed, false);

    let balance = ledger.get_escrow_balance(escrow_id).unwrap();
    assert_eq!(balance, amount);
}

#[test]
fn test_find_escrow() {
    let mut ledger = X402EscrowContract::new();

    let client_addr = party(1);
    let server_addr = party(2);
    let amount: i128 = 1_000_000;

    let escrow_id = ledger.open_escrow(client_addr, server_addr, amount, true).unwrap();

    let found_id = ledger.find_escrow(client_addr, server_addr);
    assert_eq!(found_id, Some(escrow_id));

    let other_addr = party(3);
    let not_found = ledger.find_escrow(client_addr, other_addr);
    assert_eq!(not_found, None);
}

#[test]
fn test_create_and_settle_payment() {
    let mut ledger = X402EscrowContract::new();

    let client_addr = party(1);
    let server_addr = party(2);
    let escrow_amount: i128 = 10_000_000;
    let payment_amount: i128 = 1_000_000;

    let escrow_id = ledger.open_escrow(client_addr, server_addr, escrow_amount, true).unwrap();

    let payment_id = ledger.create_payment(escrow_id, payment_amount, 1_700_000_000, true).unwrap();
    assert_eq!(payment_id, 0);

    let payment = ledger.get_payment(payment_id).unwrap();
    assert_eq!(payment.escrow_id, escrow_id);
    assert_eq!(payment.amount, payment_amount);
    assert_eq!(payment.settled, false);

    let balance_before = ledger.get_escrow_balance(escrow_id).unwrap();
    assert_eq!(balance_before, escrow_amount);

    let settled = ledger.settle_payment(payment_id, true).unwrap();
    assert_eq!(settled, true);

    let payment_after = ledger.get_payment(payment_id).unwrap();
    assert_eq!(payment_after.settled, true);

    let balance_after = ledger.get_escrow_balance(escrow_id).unwrap();
    assert_eq!(balance_after, escrow_amount - payment_amount);
}

#[test]
fn test_deposit() {
    let mut ledger = X402EscrowContract::new();

    let client_addr = party(1);
    let server_addr = party(2);
    let initial_amount: i128 = 5_000_000;
    let deposit_amount: i128 = 2_000_000;

    let escrow_id = ledger.open_escrow(client_addr, server_addr, initial_amount, true).unwrap();

    ledger.deposit(escrow_id, deposit_amount, true).unwrap();

    let balance = ledger.get_escrow_balance(escrow_id).unwrap();
    assert_eq!(balance, initial_amount + deposit_amount);
}

#[test]
fn test_escrow_closure() {
    let mut ledger = X402EscrowContract::new();

    let client_addr = party(1);
    let server_addr = party(2);
    let amount: i128 = 3_000_000;

    let escrow_id = ledger.open_escrow(client_addr, server_addr, amount, true).unwrap();

    let result1 = ledger.client_close_escrow(escrow_id, true).unwrap();
    assert_eq!(result1, None);

    let escrow = ledger.get_escrow(escrow_id).unwrap();
    assert_eq!(escrow.client_closed, true);
    assert_eq!(escrow.server_closed, false);

    let result2 = ledger.server_close_escrow(escrow_id, true).unwrap();
    assert_eq!(result2, Some(amount));

    let found = ledger.find_escrow(client_addr, server_addr);
    assert_eq!(found, None);
}

#[test]
#[should_panic(expected = "Insufficient escrow balance")]
fn test_insufficient_balance() {
    let mut ledger = X402EscrowContract::new();

    let client_addr = party(1);
    let server_addr = party(2);
    let escrow_amount: i128 = 1_000_000;
    let payment_amount: i128 = 2_000_000;

    let escrow_id = ledger.open_escrow(client_addr, server_addr, escrow_amount, true).unwrap();

    if let Err(error) = ledger.create_payment(escrow_id, payment_amount, 0, true) {
        panic!("{}", error.message());
    }
}

#[test]
#[should_panic(expected = "Escrow already exists for this client-server pair")]
fn test_duplicate_escrow() {
    let mut ledger = X402EscrowContract::new();

    let client_addr = party(1);
    let server_addr = party(2);
    let amount: i128 = 1_000_000;

    ledger.open_escrow(client_addr, server_addr, amount, true).unwrap();

    if let Err(error) = ledger.open_escrow(client_addr, server_addr, amount, true) {
        panic!("{}", error.message());
    }
}

#[test]
#[should_panic(expected = "Payment already settled")]
fn test_double_settlement() {
    let mut ledger = X402EscrowContract::new();

    let client_addr = party(1);
    let server_addr = party(2);
    let escrow_amount: i128 = 10_000_000;
    let payment_amount: i128 = 1_000_000;

    let escrow_id = ledger.open_escrow(client_addr, server_addr, escrow_amount, true).unwrap();
    let payment_id = ledger.create_payment(escrow_id, payment_amount, 0, true).unwrap();

    ledger.settle_payment(payment_id, true).unwrap();

    if let Err(error) = ledger.settle_payment(payment_id, true) {
        panic!("{}", error.message());
    }
}

#[test]
fn settlement_scenario_keeps_balance_until_settled() {
    let mut ledger = X402EscrowContract::new();
    assert_eq!(ledger.open_escrow(party(7), party(8), 10_000_000, true), Ok(0));
    assert_eq!(ledger.get_escrow_balance(0), Ok(10_000_000));
    assert_eq!(ledger.create_payment(0, 1_000_000, 42, true), Ok(0));
    assert_eq!(ledger.get_escrow_balance(0), Ok(10_000_000));
    assert_eq!(ledger.settle_payment(0, true), Ok(true));
    assert_eq!(ledger.get_escrow_balance(0), Ok(9_000_000));
    assert_eq!(
        ledger.get_payment(0),
        Ok(Payment { escrow_id: 0, amount: 1_000_000, settled: true, timestamp: 42 })
    );
}

#[test]
fn insufficient_balance_is_reported_and_changes_nothing() {
    let mut ledger = X402EscrowContract::new();
    let escrow_id = ledger.open_escrow(party(1), party(2), 1_000_000, true).unwrap();
    assert_eq!(
        ledger.create_payment(escrow_id, 2_000_000, 0, true),
        Err(EscrowError::InsufficientBalance)
    );
    assert_eq!(ledger.payment_counter(), 0);
    assert_eq!(ledger.get_payment(0), Err(EscrowError::PaymentNotFound));
    assert_eq!(ledger.get_escrow_balance(escrow_id), Ok(1_000_000));
}

#[test]
fn payment_of_the_whole_balance_is_accepted() {
    let mut ledger = X402EscrowContract::new();
    let escrow_id = ledger.open_escrow(party(1), party(2), 1_000_000, true).unwrap();
    assert_eq!(ledger.create_payment(escrow_id, 1_000_000, 0, true), Ok(0));
    assert_eq!(ledger.create_payment(escrow_id, 1_000_001, 0, true), Err(EscrowError::InsufficientBalance));
}

#[test]
fn duplicate_escrow_is_reported() {
    let mut ledger = X402EscrowContract::new();
    assert_eq!(ledger.open_escrow(party(1), party(2), 5, true), Ok(0));
    assert_eq!(ledger.open_escrow(party(1), party(2), 9, true), Err(EscrowError::DuplicateEscrow));
    assert_eq!(ledger.escrow_counter(), 1);
    assert_eq!(ledger.get_escrow_balance(0), Ok(5));
}

#[test]
fn reversed_pair_is_another_pair() {
    let mut ledger = X402EscrowContract::new();
    assert_eq!(ledger.open_escrow(party(1), party(2), 5, true), Ok(0));
    assert_eq!(ledger.find_escrow(party(2), party(1)), None);
    assert_eq!(ledger.open_escrow(party(2), party(1), 6, true), Ok(1));
    assert_eq!(ledger.find_escrow(party(1), party(2)), Some(0));
    assert_eq!(ledger.find_escrow(party(2), party(1)), Some(1));
}

#[test]
fn parties_are_told_apart_by_any_byte() {
    let mut first = [9u8; 56];
    let mut second = [9u8; 56];
    first[55] = 1;
    second[55] = 2;
    let a = Party::new(first);
    let b = Party::new(second);
    assert!(a.same_as(&a));
    assert!(!a.same_as(&b));
    assert_eq!(a.id, first);

    let mut ledger = X402EscrowContract::new();
    assert_eq!(ledger.open_escrow(a, party(0), 1, true), Ok(0));
    assert_eq!(ledger.open_escrow(b, party(0), 1, true), Ok(1));
    assert_eq!(ledger.find_escrow(b, party(0)), Some(1));
}

#[test]
fn second_settlement_fails_and_changes_nothing() {
    let mut ledger = X402EscrowContract::new();
    let escrow_id = ledger.open_escrow(party(1), party(2), 10_000_000, true).unwrap();
    let payment_id = ledger.create_payment(escrow_id, 1_000_000, 5, true).unwrap();
    assert_eq!(ledger.settle_payment(payment_id, true), Ok(true));
    let balance = ledger.get_escrow_balance(escrow_id);
    let payment = ledger.get_payment(payment_id);
    ledger.take_notifications();

    assert_eq!(ledger.settle_payment(payment_id, true), Err(EscrowError::PaymentAlreadySettled));
    assert_eq!(ledger.settle_payment(payment_id, false), Err(EscrowError::PaymentAlreadySettled));
    assert_eq!(ledger.get_escrow_balance(escrow_id), balance);
    assert_eq!(ledger.get_escrow_balance(escrow_id), Ok(9_000_000));
    assert_eq!(ledger.get_payment(payment_id), payment);
    assert!(ledger.take_notifications().is_empty());
}

#[test]
fn balance_is_deposits_minus_settled_payments() {
    let mut ledger = X402EscrowContract::new();
    let id = ledger.open_escrow(party(1), party(2), 1_000, true).unwrap();
    ledger.deposit(id, 250, true).unwrap();
    let first = ledger.create_payment(id, 300, 1, true).unwrap();
    let second = ledger.create_payment(id, 400, 2, true).unwrap();
    let third = ledger.create_payment(id, 50, 3, true).unwrap();
    ledger.deposit(id, 7, true).unwrap();
    assert_eq!(ledger.settle_payment(first, true), Ok(true));
    assert_eq!(ledger.settle_payment(third, true), Ok(true));
    // refused requests count for nothing
    assert_eq!(ledger.deposit(id, 1_000_000, false), Err(EscrowError::AuthFailure));
    assert_eq!(ledger.settle_payment(second, false), Err(EscrowError::AuthFailure));
    assert_eq!(ledger.get_escrow_balance(id), Ok(1_000 + 250 + 7 - 300 - 50));
    assert_eq!(ledger.get_payment(second).unwrap().settled, false);
}

#[test]
fn settlement_may_take_the_balance_below_zero() {
    let mut ledger = X402EscrowContract::new();
    let id = ledger.open_escrow(party(1), party(2), 100, true).unwrap();
    let first = ledger.create_payment(id, 80, 0, true).unwrap();
    let second = ledger.create_payment(id, 70, 0, true).unwrap();
    assert_eq!(ledger.settle_payment(first, true), Ok(true));
    assert_eq!(ledger.settle_payment(second, true), Ok(true));
    assert_eq!(ledger.get_escrow_balance(id), Ok(-50));
}

#[test]
fn negative_deposit_is_not_rejected() {
    let mut ledger = X402EscrowContract::new();
    let id = ledger.open_escrow(party(1), party(2), 100, true).unwrap();
    assert_eq!(ledger.deposit(id, -30, true), Ok(()));
    assert_eq!(ledger.get_escrow_balance(id), Ok(70));
}

#[test]
fn closing_server_first_ends_as_closing_client_first() {
    let mut client_first = X402EscrowContract::new();
    let a = client_first.open_escrow(party(1), party(2), 3_000_000, true).unwrap();
    assert_eq!(client_first.client_close_escrow(a, true), Ok(None));
    assert_eq!(client_first.server_close_escrow(a, true), Ok(Some(3_000_000)));

    let mut server_first = X402EscrowContract::new();
    let b = server_first.open_escrow(party(1), party(2), 3_000_000, true).unwrap();
    assert_eq!(server_first.server_close_escrow(b, true), Ok(None));
    let pending = server_first.get_escrow(b).unwrap();
    assert_eq!((pending.client_closed, pending.server_closed), (false, true));
    assert_eq!(server_first.client_close_escrow(b, true), Ok(Some(3_000_000)));

    assert_eq!(client_first.get_escrow(a), Err(EscrowError::EscrowNotFound));
    assert_eq!(server_first.get_escrow(b), Err(EscrowError::EscrowNotFound));
    assert_eq!(client_first.find_escrow(party(1), party(2)), None);
    assert_eq!(server_first.find_escrow(party(1), party(2)), None);
    assert_eq!(client_first.take_notifications(), server_first.take_notifications());
}

#[test]
fn closed_escrow_is_gone_for_every_operation() {
    let mut ledger = X402EscrowContract::new();
    let id = ledger.open_escrow(party(1), party(2), 500, true).unwrap();
    let payment_id = ledger.create_payment(id, 100, 0, true).unwrap();
    assert_eq!(ledger.client_close_escrow(id, true), Ok(None));
    assert_eq!(ledger.server_close_escrow(id, true), Ok(Some(500)));

    assert_eq!(ledger.get_escrow(id), Err(EscrowError::EscrowNotFound));
    assert_eq!(ledger.get_escrow_balance(id), Err(EscrowError::EscrowNotFound));
    assert_eq!(ledger.find_escrow(party(1), party(2)), None);
    assert_eq!(ledger.deposit(id, 1, true), Err(EscrowError::EscrowNotFound));
    assert_eq!(ledger.create_payment(id, 1, 0, true), Err(EscrowError::EscrowNotFound));
    assert_eq!(ledger.client_close_escrow(id, true), Err(EscrowError::EscrowNotFound));
    assert_eq!(ledger.server_close_escrow(id, true), Err(EscrowError::EscrowNotFound));
    assert_eq!(ledger.settle_payment(payment_id, true), Err(EscrowError::EscrowNotFound));
    assert_eq!(ledger.get_payment(payment_id).unwrap().settled, false);
}

#[test]
fn pair_can_open_again_after_closure_under_a_new_id() {
    let mut ledger = X402EscrowContract::new();
    let first = ledger.open_escrow(party(1), party(2), 500, true).unwrap();
    ledger.server_close_escrow(first, true).unwrap();
    ledger.client_close_escrow(first, true).unwrap();
    let second = ledger.open_escrow(party(1), party(2), 900, true).unwrap();
    assert_eq!((first, second), (0, 1));
    assert_eq!(ledger.find_escrow(party(1), party(2)), Some(1));
    assert_eq!(ledger.get_escrow(first), Err(EscrowError::EscrowNotFound));
    assert_eq!(ledger.get_escrow_balance(second), Ok(900));
}

#[test]
fn closing_the_same_side_again_changes_nothing() {
    let mut ledger = X402EscrowContract::new();
    let id = ledger.open_escrow(party(1), party(2), 500, true).unwrap();
    assert_eq!(ledger.client_close_escrow(id, true), Ok(None));
    let pending = ledger.get_escrow(id);
    assert_eq!(ledger.client_close_escrow(id, true), Ok(None));
    assert_eq!(ledger.get_escrow(id), pending);
    assert_eq!(
        pending,
        Ok(Escrow {
            client: party(1),
            server: party(2),
            balance: 500,
            client_closed: true,
            server_closed: false,
        })
    );
}

#[test]
fn remaining_balance_counts_deposits_and_settlements() {
    let mut ledger = X402EscrowContract::new();
    let id = ledger.open_escrow(party(1), party(2), 500, true).unwrap();
    ledger.deposit(id, 100, true).unwrap();
    let payment_id = ledger.create_payment(id, 150, 0, true).unwrap();
    ledger.settle_payment(payment_id, true).unwrap();
    assert_eq!(ledger.server_close_escrow(id, true), Ok(None));
    assert_eq!(ledger.client_close_escrow(id, true), Ok(Some(450)));
}

#[test]
fn unknown_ids_are_reported() {
    let mut ledger = X402EscrowContract::new();
    assert_eq!(ledger.get_escrow(0), Err(EscrowError::EscrowNotFound));
    assert_eq!(ledger.get_escrow_balance(u64::MAX), Err(EscrowError::EscrowNotFound));
    assert_eq!(ledger.get_payment(0), Err(EscrowError::PaymentNotFound));
    assert_eq!(ledger.deposit(3, 1, true), Err(EscrowError::EscrowNotFound));
    assert_eq!(ledger.create_payment(3, 1, 0, true), Err(EscrowError::EscrowNotFound));
    assert_eq!(ledger.settle_payment(3, true), Err(EscrowError::PaymentNotFound));
    assert_eq!(ledger.client_close_escrow(3, true), Err(EscrowError::EscrowNotFound));
    assert_eq!(ledger.server_close_escrow(3, true), Err(EscrowError::EscrowNotFound));
    assert_eq!(ledger.find_escrow(party(1), party(2)), None);
}

#[test]
fn unauthorized_requests_change_nothing() {
    let mut ledger = X402EscrowContract::new();
    assert_eq!(ledger.open_escrow(party(1), party(2), 5, false), Err(EscrowError::AuthFailure));
    assert_eq!(ledger.escrow_counter(), 0);
    let id = ledger.open_escrow(party(1), party(2), 100, true).unwrap();
    let payment_id = ledger.create_payment(id, 10, 0, true).unwrap();
    ledger.take_notifications();

    assert_eq!(ledger.deposit(id, 1, false), Err(EscrowError::AuthFailure));
    assert_eq!(ledger.create_payment(id, 1, 0, false), Err(EscrowError::AuthFailure));
    assert_eq!(ledger.settle_payment(payment_id, false), Err(EscrowError::AuthFailure));
    assert_eq!(ledger.client_close_escrow(id, false), Err(EscrowError::AuthFailure));
    assert_eq!(ledger.server_close_escrow(id, false), Err(EscrowError::AuthFailure));

    assert_eq!(
        ledger.get_escrow(id),
        Ok(Escrow {
            client: party(1),
            server: party(2),
            balance: 100,
            client_closed: false,
            server_closed: false,
        })
    );
    assert_eq!(ledger.get_payment(payment_id).unwrap().settled, false);
    assert_eq!(ledger.payment_counter(), 1);
    assert!(ledger.take_notifications().is_empty());
}

#[test]
fn missing_record_is_reported_before_missing_authorization() {
    let mut ledger = X402EscrowContract::new();
    assert_eq!(ledger.deposit(0, 1, false), Err(EscrowError::EscrowNotFound));
    assert_eq!(ledger.create_payment(0, 1, 0, false), Err(EscrowError::EscrowNotFound));
    assert_eq!(ledger.settle_payment(0, false), Err(EscrowError::PaymentNotFound));
    // the duplicate is looked for only after the client is authorized
    ledger.open_escrow(party(1), party(2), 5, true).unwrap();
    assert_eq!(ledger.open_escrow(party(1), party(2), 5, false), Err(EscrowError::AuthFailure));
    // the balance is looked at only after the server is authorized
    assert_eq!(ledger.create_payment(0, 6, 0, false), Err(EscrowError::AuthFailure));
}

#[test]
fn ids_count_up_from_zero() {
    let mut ledger = X402EscrowContract::new();
    assert_eq!(ledger.open_escrow(party(1), party(2), 10, true), Ok(0));
    assert_eq!(ledger.open_escrow(party(1), party(3), 10, true), Ok(1));
    assert_eq!(ledger.open_escrow(party(4), party(2), 10, true), Ok(2));
    assert_eq!(ledger.create_payment(1, 1, 0, true), Ok(0));
    assert_eq!(ledger.create_payment(0, 1, 0, true), Ok(1));
    assert_eq!(ledger.create_payment(1, 1, 0, true), Ok(2));
    assert_eq!(ledger.escrow_counter(), 3);
    assert_eq!(ledger.payment_counter(), 3);
    assert_eq!(ledger.get_payment(1).unwrap().escrow_id, 0);
}

#[test]
fn payment_keeps_the_time_it_was_given() {
    let mut ledger = X402EscrowContract::new();
    let id = ledger.open_escrow(party(1), party(2), 10, true).unwrap();
    let payment_id = ledger.create_payment(id, 4, 1_722_000_123, true).unwrap();
    assert_eq!(
        ledger.get_payment(payment_id),
        Ok(Payment { escrow_id: id, amount: 4, settled: false, timestamp: 1_722_000_123 })
    );
    ledger.settle_payment(payment_id, true).unwrap();
    assert_eq!(ledger.get_payment(payment_id).unwrap().timestamp, 1_722_000_123);
}

#[test]
fn notifications_follow_the_accepted_requests() {
    let mut ledger = X402EscrowContract::new();
    let id = ledger.open_escrow(party(1), party(2), 1_000, true).unwrap();
    ledger.deposit(id, 200, true).unwrap();
    let payment_id = ledger.create_payment(id, 300, 9, true).unwrap();
    ledger.settle_payment(payment_id, true).unwrap();
    ledger.client_close_escrow(id, true).unwrap();
    ledger.server_close_escrow(id, true).unwrap();
    assert_eq!(
        ledger.take_notifications(),
        vec![
            Notification::Opened { escrow_id: 0, client: party(1), server: party(2) },
            Notification::Deposited { escrow_id: 0, amount: 200 },
            Notification::PaymentCreated {
                payment_id: 0,
                amount: 300,
                server: party(2),
                client: party(1),
            },
            Notification::Settled { payment_id: 0, amount: 300 },
            Notification::Closed { escrow_id: 0, remaining: 900 },
        ]
    );
    assert!(ledger.take_notifications().is_empty());
    assert_eq!(ledger.payment_counter(), 1);
}
