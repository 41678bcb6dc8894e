use payment_orders::engine::{Engine, Stage, Step};
use payment_orders::error::PaymentError;
use payment_orders::helper_utils::generate_order_subaccount;
use payment_orders::lifecycle::PAYMENT_WINDOW;
use payment_orders::order::{PaymentInfo, PaymentStatus, PaymentType, TokenPrice};
use payment_orders::payment::{Destination, Token};
use payment_orders::principal::Principal;

const MINUTE: u64 = 60_000_000_000;

fn payer() -> Principal {
    Principal::try_from_slice(&vec![10, 20, 30, 40]).unwrap()
}

fn stranger() -> Principal {
    Principal::try_from_slice(&vec![10, 20, 30, 41]).unwrap()
}

fn price(token: &str, amount: u64) -> PaymentType {
    PaymentType::CreationPrice(TokenPrice { token_name: token.to_string(), price: amount })
}

fn create(engine: &mut Engine, token: &str, amount: u64, now: u64) -> PaymentInfo {
    engine
        .create_order(
            payer(),
            "web".to_string(),
            token.to_string(),
            amount,
            price(token, amount),
            now,
        )
        .unwrap()
}

fn done(step: Step) -> Result<bool, PaymentError> {
    match step {
        Step::Done(result) => result,
        other => panic!("the operation has not ended: {:?}", other),
    }
}

#[test]
fn creating_an_order_stores_it_unpaid() {
    let mut engine = Engine::new();
    let info = create(&mut engine, "CKBTC", 1000, 77);
    assert_eq!(info.id, 0);
    assert_eq!(info.amount, 1000);
    assert_eq!(info.token, "CKBTC");
    assert_eq!(info.created_time, 77);
    assert_eq!(info.recipient, generate_order_subaccount(&payer(), 0));
    assert_eq!(engine.next_order_id(), 1);
    assert_eq!(engine.total_orders(), 1);
    let order = engine.get_payment_order(0).unwrap();
    assert_eq!(order.status, PaymentStatus::Unpaid);
    assert_eq!(order.amount, 1000);
    assert_eq!(order.amount_paid, 0);
    assert_eq!(order.created_time, 77);
    assert_eq!(order.verified_time, None);
    assert_eq!(order.shared_time, None);
    assert!(order.payer.same_as(&payer()));
    let second = create(&mut engine, "ICP", 5, 78);
    assert_eq!(second.id, 1);
    assert_eq!(engine.len(), 2);
}

#[test]
fn scenario_exact_deposit_is_paid_and_shared() {
    let mut engine = Engine::new();
    create(&mut engine, "CKBTC", 1000, 0);
    let step = engine.confirm_payment_order(0, MINUTE);
    match step {
        Step::QueryBalance(query) => {
            assert_eq!(query.token, Token::Ckbtc);
            assert_eq!(query.subaccount, generate_order_subaccount(&payer(), 0));
        }
        other => panic!("expected a balance query, got {:?}", other),
    }
    assert_eq!(engine.get_payment_order(0).unwrap().status, PaymentStatus::Verifying);
    assert_eq!(engine.stage(0), Stage::ConfirmBalance);

    let step = engine.confirm_with_balance(0, 1000, 2 * MINUTE).unwrap();
    match step {
        Step::Transfer(request) => {
            assert_eq!(request.token, Token::Ckbtc);
            assert_eq!(request.amount, 990);
            assert_eq!(request.fee, 10);
            assert_eq!(request.from_subaccount, generate_order_subaccount(&payer(), 0));
            assert!(matches!(request.to, Destination::Treasury));
        }
        other => panic!("expected a transfer, got {:?}", other),
    }
    let order = engine.get_payment_order(0).unwrap();
    assert_eq!(order.status, PaymentStatus::Paid);
    assert_eq!(order.amount_paid, 1000);
    assert_eq!(order.verified_time, Some(2 * MINUTE));
    assert_eq!(order.shared_time, None);

    let step = engine.confirm_with_transfer(0, true, 3 * MINUTE).unwrap();
    assert_eq!(done(step), Ok(true));
    let order = engine.get_payment_order(0).unwrap();
    assert_eq!(order.status, PaymentStatus::Paid);
    assert_eq!(order.shared_time, Some(3 * MINUTE));
    assert_eq!(engine.stage(0), Stage::Idle);
    assert!(engine.check_payment_order(&payer(), 0));
    assert!(!engine.check_payment_order(&stranger(), 0));
}

#[test]
fn scenario_no_deposit_is_insufficient_and_reverts() {
    let mut engine = Engine::new();
    create(&mut engine, "CKBTC", 1000, 0);
    assert!(matches!(engine.confirm_payment_order(0, MINUTE), Step::QueryBalance(_)));
    let step = engine.confirm_with_balance(0, 0, MINUTE).unwrap();
    assert_eq!(done(step), Err(PaymentError::InsufficientFunds));
    let order = engine.get_payment_order(0).unwrap();
    assert_eq!(order.status, PaymentStatus::Unpaid);
    assert_eq!(order.amount_paid, 0);
    assert_eq!(order.verified_time, None);
    assert_eq!(engine.stage(0), Stage::Idle);
    // The caller may deposit more and try again.
    assert!(matches!(engine.confirm_payment_order(0, 2 * MINUTE), Step::QueryBalance(_)));
    let step = engine.confirm_with_balance(0, 999, 2 * MINUTE).unwrap();
    assert_eq!(done(step), Err(PaymentError::InsufficientFunds));
    assert_eq!(engine.get_payment_order(0).unwrap().amount_paid, 999);
}

#[test]
fn scenario_confirm_after_sixteen_minutes_times_out() {
    let mut engine = Engine::new();
    create(&mut engine, "CKBTC", 1000, 0);
    let step = engine.confirm_payment_order(0, 16 * MINUTE);
    assert_eq!(done(step), Err(PaymentError::TimedOut));
    assert_eq!(engine.get_payment_order(0).unwrap().status, PaymentStatus::TimedOut);
    let step = engine.confirm_payment_order(0, 17 * MINUTE);
    assert_eq!(done(step), Err(PaymentError::NotYetPayable));
    assert_eq!(engine.get_payment_order(0).unwrap().status, PaymentStatus::TimedOut);
    assert!(engine.confirm_with_balance(0, 1000, 17 * MINUTE).is_none());
}

#[test]
fn deadline_is_fifteen_minutes_after_creation() {
    assert_eq!(PAYMENT_WINDOW, 15 * MINUTE);
    let mut engine = Engine::new();
    create(&mut engine, "CKBTC", 1000, 5);
    create(&mut engine, "CKBTC", 1000, 5);
    assert!(matches!(
        engine.confirm_payment_order(0, 5 + PAYMENT_WINDOW),
        Step::QueryBalance(_)
    ));
    assert_eq!(
        done(engine.confirm_payment_order(1, 6 + PAYMENT_WINDOW)),
        Err(PaymentError::TimedOut)
    );
}

#[test]
fn deadline_near_the_end_of_time_does_not_overflow() {
    let mut engine = Engine::new();
    create(&mut engine, "CKBTC", 1000, u64::MAX - 10);
    assert!(matches!(engine.confirm_payment_order(0, u64::MAX), Step::QueryBalance(_)));
}

#[test]
fn scenario_refund_sends_balance_less_fee() {
    let mut engine = Engine::new();
    create(&mut engine, "CKBTC", 1000, 0);
    let destination = vec![1u8, 2, 3, 4, 5];
    let step = engine.refund_payment_order(0, &payer());
    match step {
        Step::QueryBalance(query) => {
            assert_eq!(query.token, Token::Ckbtc);
            assert_eq!(query.subaccount, generate_order_subaccount(&payer(), 0));
        }
        other => panic!("expected a balance query, got {:?}", other),
    }
    assert_eq!(engine.stage(0), Stage::RefundBalance);
    let step = engine.refund_with_balance(0, destination.clone(), 500).unwrap();
    match step {
        Step::Transfer(request) => {
            assert_eq!(request.amount, 490);
            assert_eq!(request.fee, 10);
            assert_eq!(request.token, Token::Ckbtc);
            assert_eq!(request.from_subaccount, generate_order_subaccount(&payer(), 0));
            match request.to {
                Destination::Account(bytes) => assert_eq!(bytes, destination),
                Destination::Treasury => panic!("a refund does not go to the treasury"),
            }
        }
        other => panic!("expected a transfer, got {:?}", other),
    }
    assert_eq!(engine.stage(0), Stage::RefundTransfer(500));
    assert_eq!(engine.get_payment_order(0).unwrap().status, PaymentStatus::Unpaid);
    let step = engine.refund_with_transfer(0, true, 9 * MINUTE).unwrap();
    assert_eq!(done(step), Ok(true));
    let order = engine.get_payment_order(0).unwrap();
    assert_eq!(order.status, PaymentStatus::Refunded);
    assert_eq!(order.verified_time, Some(9 * MINUTE));
    assert_eq!(order.amount_paid, 500);
    assert_eq!(engine.stage(0), Stage::Idle);
}

#[test]
fn scenario_second_confirm_issues_no_second_transfer() {
    let mut engine = Engine::new();
    create(&mut engine, "CKBTC", 1000, 0);
    let mut transfers = 0;
    // The first call starts; the second arrives while the first waits.
    assert!(matches!(engine.confirm_payment_order(0, MINUTE), Step::QueryBalance(_)));
    assert!(matches!(engine.confirm_payment_order(0, MINUTE), Step::Busy));
    if let Some(Step::Transfer(_)) = engine.confirm_with_balance(0, 1500, MINUTE) {
        transfers += 1;
    }
    assert!(matches!(engine.confirm_payment_order(0, MINUTE), Step::Busy));
    assert_eq!(done(engine.confirm_with_transfer(0, true, MINUTE).unwrap()), Ok(true));
    // The second call comes back once the first has ended and finds the order paid.
    let before = engine.get_payment_order(0).unwrap();
    assert_eq!(done(engine.confirm_payment_order(0, 2 * MINUTE)), Ok(true));
    assert!(engine.confirm_with_balance(0, 1500, 2 * MINUTE).is_none());
    assert!(engine.confirm_with_transfer(0, true, 2 * MINUTE).is_none());
    let after = engine.get_payment_order(0).unwrap();
    assert_eq!(transfers, 1);
    assert_eq!(after.status, PaymentStatus::Paid);
    assert_eq!(after.verified_time, before.verified_time);
    assert_eq!(after.shared_time, before.shared_time);
    assert_eq!(after.amount_paid, 1500);
}

#[test]
fn confirming_a_paid_order_again_changes_nothing() {
    let mut engine = Engine::new();
    create(&mut engine, "ICP", 50_000, 0);
    assert!(matches!(engine.confirm_payment_order(0, 10), Step::QueryBalance(_)));
    match engine.confirm_with_balance(0, 60_000, 20).unwrap() {
        Step::Transfer(request) => {
            assert_eq!(request.token, Token::Icp);
            assert_eq!(request.amount, 50_000);
            assert_eq!(request.fee, 10_000);
        }
        other => panic!("expected a transfer, got {:?}", other),
    }
    assert_eq!(done(engine.confirm_with_transfer(0, true, 30).unwrap()), Ok(true));
    for now in [40u64, 50, 20 * MINUTE] {
        assert_eq!(done(engine.confirm_payment_order(0, now)), Ok(true));
        let order = engine.get_payment_order(0).unwrap();
        assert_eq!(order.verified_time, Some(20));
        assert_eq!(order.shared_time, Some(30));
        assert_eq!(order.amount_paid, 60_000);
        assert_eq!(engine.stage(0), Stage::Idle);
    }
}

#[test]
fn failed_share_leaves_order_paid_and_unshared() {
    let mut engine = Engine::new();
    create(&mut engine, "CKBTC", 1000, 0);
    assert!(matches!(engine.confirm_payment_order(0, 10), Step::QueryBalance(_)));
    assert!(matches!(engine.confirm_with_balance(0, 1000, 20), Some(Step::Transfer(_))));
    assert_eq!(done(engine.confirm_with_transfer(0, false, 30).unwrap()), Ok(true));
    let order = engine.get_payment_order(0).unwrap();
    assert_eq!(order.status, PaymentStatus::Paid);
    assert_eq!(order.shared_time, None);
    // No retry is scheduled: a later confirm succeeds without any ledger call.
    assert_eq!(done(engine.confirm_payment_order(0, 40)), Ok(true));
    assert_eq!(engine.get_payment_order(0).unwrap().shared_time, None);
}

#[test]
fn dust_payment_is_marked_shared_without_a_transfer() {
    let mut engine = Engine::new();
    create(&mut engine, "CKBTC", 5, 0);
    create(&mut engine, "CKBTC", 10, 0);
    assert!(matches!(engine.confirm_payment_order(0, 10), Step::QueryBalance(_)));
    assert_eq!(done(engine.confirm_with_balance(0, 7, 20).unwrap()), Ok(true));
    let order = engine.get_payment_order(0).unwrap();
    assert_eq!(order.status, PaymentStatus::Paid);
    assert_eq!(order.amount_paid, 7);
    assert_eq!(order.verified_time, Some(20));
    assert_eq!(order.shared_time, Some(20));
    // Exactly the fee is still dust.
    assert!(matches!(engine.confirm_payment_order(1, 10), Step::QueryBalance(_)));
    assert_eq!(done(engine.confirm_with_balance(1, 10, 21).unwrap()), Ok(true));
    assert_eq!(engine.get_payment_order(1).unwrap().shared_time, Some(21));
}

#[test]
fn one_unit_above_the_fee_is_sent() {
    let mut engine = Engine::new();
    create(&mut engine, "CKBTC", 11, 0);
    assert!(matches!(engine.confirm_payment_order(0, 10), Step::QueryBalance(_)));
    match engine.confirm_with_balance(0, 11, 20).unwrap() {
        Step::Transfer(request) => assert_eq!(request.amount, 1),
        other => panic!("expected a transfer, got {:?}", other),
    }
}

#[test]
fn zero_amount_order_needs_a_deposit() {
    let mut engine = Engine::new();
    create(&mut engine, "CKBTC", 0, 0);
    assert!(matches!(engine.confirm_payment_order(0, 10), Step::QueryBalance(_)));
    assert_eq!(
        done(engine.confirm_with_balance(0, 0, 20).unwrap()),
        Err(PaymentError::InsufficientFunds)
    );
}

#[test]
fn unknown_order_is_not_found() {
    let mut engine = Engine::new();
    assert_eq!(done(engine.confirm_payment_order(3, 0)), Err(PaymentError::NotFound));
    assert_eq!(done(engine.refund_payment_order(3, &payer())), Err(PaymentError::NotFound));
    assert!(engine.get_payment_order(3).is_none());
    assert!(!engine.check_payment_order(&payer(), 3));
    assert_eq!(engine.stage(3), Stage::Idle);
}

#[test]
fn refund_by_a_stranger_is_unauthorized_in_every_status() {
    let mut engine = Engine::new();
    // 0: Unpaid, 1: Verifying, 2: Paid, 3: TimedOut, 4: Refunded
    for _ in 0..5 {
        create(&mut engine, "CKBTC", 100, 0);
    }
    assert!(matches!(engine.confirm_payment_order(1, 10), Step::QueryBalance(_)));
    assert!(matches!(engine.confirm_payment_order(2, 10), Step::QueryBalance(_)));
    assert_eq!(done(engine.confirm_with_balance(2, 5, 10).unwrap()), Err(PaymentError::InsufficientFunds));
    assert!(matches!(engine.confirm_payment_order(2, 10), Step::QueryBalance(_)));
    assert!(matches!(engine.confirm_with_balance(2, 100, 10), Some(Step::Transfer(_))));
    assert_eq!(done(engine.confirm_with_transfer(2, true, 10).unwrap()), Ok(true));
    assert_eq!(done(engine.confirm_payment_order(3, 16 * MINUTE)), Err(PaymentError::TimedOut));
    assert!(matches!(engine.refund_payment_order(4, &payer()), Step::QueryBalance(_)));
    assert!(matches!(engine.refund_with_balance(4, vec![1], 50), Some(Step::Transfer(_))));
    assert_eq!(done(engine.refund_with_transfer(4, true, 10).unwrap()), Ok(true));
    let expected = [
        PaymentStatus::Unpaid,
        PaymentStatus::Verifying,
        PaymentStatus::Paid,
        PaymentStatus::TimedOut,
        PaymentStatus::Refunded,
    ];
    for (id, status) in expected.iter().enumerate() {
        let id = id as u64;
        assert_eq!(engine.get_payment_order(id).unwrap().status, *status);
        assert_eq!(
            done(engine.refund_payment_order(id, &stranger())),
            Err(PaymentError::Unauthorized)
        );
        assert_eq!(engine.get_payment_order(id).unwrap().status, *status);
    }
}

#[test]
fn refund_of_a_finished_order_is_refused() {
    let mut engine = Engine::new();
    create(&mut engine, "CKBTC", 100, 0);
    create(&mut engine, "CKBTC", 100, 0);
    assert!(matches!(engine.confirm_payment_order(0, 10), Step::QueryBalance(_)));
    assert_eq!(done(engine.confirm_with_balance(0, 5, 10).unwrap()), Err(PaymentError::InsufficientFunds));
    assert!(matches!(engine.confirm_payment_order(0, 10), Step::QueryBalance(_)));
    assert!(matches!(engine.confirm_with_balance(0, 100, 10), Some(Step::Transfer(_))));
    assert_eq!(done(engine.confirm_with_transfer(0, true, 10).unwrap()), Ok(true));
    assert_eq!(
        done(engine.refund_payment_order(0, &payer())),
        Err(PaymentError::AlreadyFinalized)
    );
    assert!(matches!(engine.refund_payment_order(1, &payer()), Step::QueryBalance(_)));
    assert!(matches!(engine.refund_with_balance(1, vec![1], 50), Some(Step::Transfer(_))));
    assert_eq!(done(engine.refund_with_transfer(1, true, 10).unwrap()), Ok(true));
    assert_eq!(
        done(engine.refund_payment_order(1, &payer())),
        Err(PaymentError::AlreadyFinalized)
    );
    assert_eq!(
        done(engine.confirm_payment_order(1, 20)),
        Err(PaymentError::AlreadyFinalized)
    );
}

#[test]
fn refund_of_a_timed_out_order_is_allowed() {
    let mut engine = Engine::new();
    create(&mut engine, "CKBTC", 100, 0);
    assert_eq!(done(engine.confirm_payment_order(0, 16 * MINUTE)), Err(PaymentError::TimedOut));
    assert!(matches!(engine.refund_payment_order(0, &payer()), Step::QueryBalance(_)));
    assert!(matches!(engine.refund_with_balance(0, vec![9], 60), Some(Step::Transfer(_))));
    assert_eq!(done(engine.refund_with_transfer(0, true, 17 * MINUTE).unwrap()), Ok(true));
    assert_eq!(engine.get_payment_order(0).unwrap().status, PaymentStatus::Refunded);
}

#[test]
fn refund_with_balance_below_fee_is_insufficient() {
    let mut engine = Engine::new();
    create(&mut engine, "CKBTC", 100, 0);
    assert!(matches!(engine.refund_payment_order(0, &payer()), Step::QueryBalance(_)));
    assert_eq!(
        done(engine.refund_with_balance(0, vec![1], 9).unwrap()),
        Err(PaymentError::InsufficientFunds)
    );
    let order = engine.get_payment_order(0).unwrap();
    assert_eq!(order.status, PaymentStatus::Unpaid);
    assert_eq!(order.amount_paid, 0);
    assert_eq!(engine.stage(0), Stage::Idle);
    // A balance of exactly the fee is enough, and nothing is left to send.
    assert!(matches!(engine.refund_payment_order(0, &payer()), Step::QueryBalance(_)));
    match engine.refund_with_balance(0, vec![1], 10).unwrap() {
        Step::Transfer(request) => assert_eq!(request.amount, 0),
        other => panic!("expected a transfer, got {:?}", other),
    }
}

#[test]
fn failed_refund_transfer_leaves_order_unchanged() {
    let mut engine = Engine::new();
    create(&mut engine, "CKBTC", 100, 0);
    assert!(matches!(engine.refund_payment_order(0, &payer()), Step::QueryBalance(_)));
    assert!(matches!(engine.refund_with_balance(0, vec![1], 500), Some(Step::Transfer(_))));
    assert_eq!(
        done(engine.refund_with_transfer(0, false, 30).unwrap()),
        Err(PaymentError::RemoteCallFailure)
    );
    let order = engine.get_payment_order(0).unwrap();
    assert_eq!(order.status, PaymentStatus::Unpaid);
    assert_eq!(order.amount_paid, 0);
    assert_eq!(order.verified_time, None);
    // The refund can be tried again.
    assert!(matches!(engine.refund_payment_order(0, &payer()), Step::QueryBalance(_)));
}

#[test]
fn refund_to_a_malformed_destination_fails_before_any_transfer() {
    let mut engine = Engine::new();
    create(&mut engine, "CKBTC", 100, 0);
    create(&mut engine, "ICP", 100, 0);
    assert!(matches!(engine.refund_payment_order(0, &payer()), Step::QueryBalance(_)));
    assert_eq!(
        done(engine.refund_with_balance(0, vec![0u8; 30], 500).unwrap()),
        Err(PaymentError::RemoteCallFailure)
    );
    assert!(matches!(engine.refund_payment_order(1, &payer()), Step::QueryBalance(_)));
    assert_eq!(
        done(engine.refund_with_balance(1, vec![0u8; 32], 50_000).unwrap()),
        Err(PaymentError::RemoteCallFailure)
    );
    assert_eq!(engine.stage(0), Stage::Idle);
    assert_eq!(engine.stage(1), Stage::Idle);
}

#[test]
fn unsupported_token_is_reported() {
    let mut engine = Engine::new();
    create(&mut engine, "DOGE", 100, 0);
    assert_eq!(done(engine.confirm_payment_order(0, 10)), Err(PaymentError::UnsupportedToken));
    assert_eq!(engine.get_payment_order(0).unwrap().status, PaymentStatus::Unpaid);
    assert_eq!(
        done(engine.refund_payment_order(0, &payer())),
        Err(PaymentError::UnsupportedToken)
    );
    assert_eq!(engine.get_payment_order(0).unwrap().status, PaymentStatus::Unpaid);
}

#[test]
fn confirm_and_refund_exclude_each_other() {
    let mut engine = Engine::new();
    create(&mut engine, "CKBTC", 100, 0);
    assert!(matches!(engine.refund_payment_order(0, &payer()), Step::QueryBalance(_)));
    assert!(matches!(engine.confirm_payment_order(0, 10), Step::Busy));
    assert!(matches!(engine.refund_payment_order(0, &payer()), Step::Busy));
    assert!(engine.confirm_with_balance(0, 100, 10).is_none());
    assert!(engine.confirm_with_transfer(0, true, 10).is_none());
    assert!(engine.refund_with_transfer(0, true, 10).is_none());
    assert!(matches!(engine.refund_with_balance(0, vec![1], 100), Some(Step::Transfer(_))));
    assert!(engine.refund_with_balance(0, vec![1], 100).is_none());
    assert!(matches!(engine.confirm_payment_order(0, 10), Step::Busy));
    assert_eq!(done(engine.refund_with_transfer(0, true, 10).unwrap()), Ok(true));
    assert_eq!(done(engine.confirm_payment_order(0, 10)), Err(PaymentError::AlreadyFinalized));
}

#[test]
fn operations_on_one_order_leave_the_others_alone() {
    let mut engine = Engine::new();
    create(&mut engine, "CKBTC", 100, 1);
    create(&mut engine, "CKBTC", 200, 2);
    create(&mut engine, "CKBTC", 300, 3);
    assert!(matches!(engine.confirm_payment_order(1, 10), Step::QueryBalance(_)));
    assert!(matches!(engine.confirm_with_balance(1, 250, 20), Some(Step::Transfer(_))));
    assert_eq!(engine.get_payment_order(0).unwrap().status, PaymentStatus::Unpaid);
    assert_eq!(engine.get_payment_order(2).unwrap().status, PaymentStatus::Unpaid);
    assert_eq!(engine.get_payment_order(0).unwrap().amount, 100);
    assert_eq!(engine.get_payment_order(2).unwrap().amount, 300);
    assert_eq!(engine.stage(0), Stage::Idle);
    assert_eq!(engine.stage(1), Stage::ShareTransfer);
    assert_eq!(engine.stage(2), Stage::Idle);
    assert_eq!(engine.next_order_id(), 3);
    assert_eq!(engine.total_orders(), 3);
}

#[test]
fn error_messages() {
    assert_eq!(PaymentError::NotFound.message(), "Order not found");
    assert_eq!(
        PaymentError::Unauthorized.message(),
        "Caller is not the owner of the order"
    );
    assert_eq!(PaymentError::UnsupportedToken.message(), "Unsupported token");
    assert_eq!(PaymentError::InsufficientFunds.message(), "Insufficient funds");
    assert_eq!(PaymentError::RemoteCallFailure.message(), "Ledger call failed");
    assert_eq!(PaymentError::TimedOut.message(), "Order payment deadline has passed");
    assert_eq!(
        PaymentError::AlreadyFinalized.message(),
        "Order is already paid or refunded"
    );
    assert_eq!(
        PaymentError::NotYetPayable.message(),
        "Order cannot be verified in its current state"
    );
}

fn edge(from: PaymentStatus, to: PaymentStatus) -> bool {
    matches!(
        (from, to),
        (PaymentStatus::Unpaid, PaymentStatus::Verifying)
            | (PaymentStatus::Verifying, PaymentStatus::Paid)
            | (PaymentStatus::Verifying, PaymentStatus::Unpaid)
            | (PaymentStatus::Unpaid, PaymentStatus::TimedOut)
            | (PaymentStatus::Verifying, PaymentStatus::TimedOut)
            | (PaymentStatus::Unpaid, PaymentStatus::Refunded)
            | (PaymentStatus::Verifying, PaymentStatus::Refunded)
            | (PaymentStatus::TimedOut, PaymentStatus::Refunded)
    )
}

#[test]
fn observed_statuses_follow_the_graph() {
    let mut engine = Engine::new();
    let orders = 6u64;
    for id in 0..orders {
        let token = if id % 2 == 0 { "CKBTC" } else { "ICP" };
        create(&mut engine, token, 100 + id, id);
    }
    let mut seen: Vec<PaymentStatus> =
        (0..orders).map(|id| engine.get_payment_order(id).unwrap().status).collect();
    let mut paid_at: Vec<Option<(Option<u64>, u64)>> = vec![None; orders as usize];
    let mut state: u64 = 0x9E37_79B9_7F4A_7C15;
    let mut now = 10u64;
    for _ in 0..4000 {
        state = state.wrapping_mul(6364136223846793005).wrapping_add(1442695040888963407);
        let id = (state >> 40) % (orders + 1);
        let choice = (state >> 20) % 7;
        let amount = (state >> 8) % 30_000;
        now += (state >> 50) % (MINUTE / 2);
        let who = if (state >> 5) % 4 == 0 { stranger() } else { payer() };
        match choice {
            0 => {
                engine.confirm_payment_order(id, now);
            }
            1 => {
                engine.confirm_with_balance(id, amount, now);
            }
            2 => {
                engine.confirm_with_transfer(id, amount % 2 == 0, now);
            }
            3 => {
                engine.refund_payment_order(id, &who);
            }
            4 => {
                engine.refund_with_balance(id, vec![1, 2, 3], amount);
            }
            5 => {
                engine.refund_with_transfer(id, amount % 2 == 0, now);
            }
            _ => {
                if engine.len() < 12 {
                    create(&mut engine, "CKBTC", amount, now);
                }
            }
        }
        for check in 0..orders {
            let order = engine.get_payment_order(check).unwrap();
            let before = seen[check as usize];
            assert!(
                before == order.status || edge(before, order.status),
                "order {} went from {:?} to {:?}",
                check,
                before,
                order.status
            );
            if before == PaymentStatus::Paid {
                assert_eq!(order.status, PaymentStatus::Paid);
                let (verified, paid) = paid_at[check as usize].unwrap();
                assert_eq!(order.verified_time, verified);
                assert_eq!(order.amount_paid, paid);
            }
            if order.status == PaymentStatus::Paid && paid_at[check as usize].is_none() {
                paid_at[check as usize] = Some((order.verified_time, order.amount_paid));
            }
            if order.shared_time.is_some() {
                assert_eq!(order.status, PaymentStatus::Paid);
            }
            assert_eq!(order.id, check);
            assert_eq!(order.amount, 100 + check);
            seen[check as usize] = order.status;
        }
    }
    // The run reached every status.
    let mut engine_statuses: Vec<PaymentStatus> = Vec::new();
    for id in 0..engine.len() as u64 {
        engine_statuses.push(engine.get_payment_order(id).unwrap().status);
    }
    assert!(engine_statuses.contains(&PaymentStatus::Paid));
    assert!(engine_statuses.contains(&PaymentStatus::Refunded) || engine_statuses.contains(&PaymentStatus::TimedOut));
}
