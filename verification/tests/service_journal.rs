use payment_orders::codec::encode_order;
use payment_orders::engine::{Stage, Step};
use payment_orders::error::PaymentError;
use payment_orders::journal::{read_counters, Journal, COUNTERS_KEY, STATE_KEY};
use payment_orders::order::{PaymentStatus, PaymentType, TokenPrice};
use payment_orders::principal::Principal;
use payment_orders::service::Service;

fn payer() -> Principal {
    Principal::try_from_slice(&vec![5, 6, 7]).unwrap()
}

fn price(amount: u64) -> PaymentType {
    PaymentType::CreationPrice(TokenPrice { token_name: "CKBTC".to_string(), price: amount })
}

fn create(service: &mut Service, amount: u64, now: u64) -> u64 {
    service
        .create_order(payer(), "web".to_string(), "CKBTC".to_string(), amount, price(amount), now)
        .unwrap()
        .id
}

/// Stable memory holds exactly the orders and counters of the engine.
fn mirrors(service: &Service) -> bool {
    let engine = service.inspect();
    let journal = service.records();
    let counters = match journal.get_setting(COUNTERS_KEY) {
        Some(bytes) => read_counters(&bytes),
        None => Some((0, 0)),
    };
    if counters != Some((engine.next_order_id(), engine.total_orders())) {
        return false;
    }
    for index in 0..engine.len() {
        let order = engine.order_at(index).unwrap();
        if journal.get_order_bytes(order.id) != Some(encode_order(&order)) {
            return false;
        }
    }
    journal.get_order_bytes(engine.next_order_id()).is_none()
}

#[test]
fn fresh_service_is_empty() {
    let service = Service::open().unwrap();
    assert_eq!(service.inspect().len(), 0);
    assert_eq!(service.inspect().next_order_id(), 0);
    assert!(mirrors(&service));
}

#[test]
fn every_step_of_a_confirmation_is_journaled() {
    let mut service = Service::open().unwrap();
    let id = create(&mut service, 1000, 1);
    assert!(mirrors(&service));
    assert!(matches!(service.confirm_payment_order(id, 2), Step::QueryBalance(_)));
    // The order is stored as verifying before the balance arrives.
    let stored = service.records().get_order_bytes(id).unwrap();
    assert_eq!(stored[40], 1);
    assert!(mirrors(&service));
    match service.confirm_with_balance(id, 1000, 3).unwrap() {
        Step::Transfer(request) => assert_eq!(request.amount, 990),
        other => panic!("expected a transfer, got {:?}", other),
    }
    assert_eq!(service.records().get_order_bytes(id).unwrap()[40], 2);
    assert!(mirrors(&service));
    assert!(matches!(
        service.confirm_with_transfer(id, true, 4),
        Some(Step::Done(Ok(true)))
    ));
    assert!(mirrors(&service));
    assert_eq!(service.inspect().get_payment_order(id).unwrap().shared_time, Some(4));
    assert!(matches!(service.confirm_payment_order(id, 5), Step::Done(Ok(true))));
    assert!(mirrors(&service));
}

#[test]
fn a_refund_is_journaled_when_it_ends() {
    let mut service = Service::open().unwrap();
    let id = create(&mut service, 1000, 1);
    let before = service.records().get_order_bytes(id);
    assert!(matches!(service.refund_payment_order(id, &payer()), Step::QueryBalance(_)));
    assert!(matches!(service.refund_with_balance(id, vec![1, 2], 500), Some(Step::Transfer(_))));
    assert_eq!(service.records().get_order_bytes(id), before);
    assert!(mirrors(&service));
    assert!(matches!(
        service.refund_with_transfer(id, false, 9),
        Some(Step::Done(Err(PaymentError::RemoteCallFailure)))
    ));
    assert_eq!(service.records().get_order_bytes(id), before);
    assert!(matches!(service.refund_payment_order(id, &payer()), Step::QueryBalance(_)));
    match service.refund_with_balance(id, vec![1, 2], 500).unwrap() {
        Step::Transfer(request) => assert_eq!(request.amount, 490),
        other => panic!("expected a transfer, got {:?}", other),
    }
    assert!(matches!(
        service.refund_with_transfer(id, true, 10),
        Some(Step::Done(Ok(true)))
    ));
    assert_eq!(service.records().get_order_bytes(id).unwrap()[40], 4);
    assert!(mirrors(&service));
}

#[test]
fn a_restart_loses_nothing_but_what_was_under_way() {
    let mut service = Service::open().unwrap();
    for now in 0..5u64 {
        create(&mut service, 100 * (now + 1), now);
    }
    // 0 paid and shared, 1 paid and not shared, 2 timed out, 3 verifying, 4 in refund.
    assert!(matches!(service.confirm_payment_order(0, 10), Step::QueryBalance(_)));
    assert!(matches!(service.confirm_with_balance(0, 100, 11), Some(Step::Transfer(_))));
    assert!(service.confirm_with_transfer(0, true, 12).is_some());
    assert!(matches!(service.confirm_payment_order(1, 10), Step::QueryBalance(_)));
    assert!(matches!(service.confirm_with_balance(1, 300, 11), Some(Step::Transfer(_))));
    assert!(matches!(
        service.confirm_payment_order(2, 2 + 16 * 60_000_000_000),
        Step::Done(Err(PaymentError::TimedOut))
    ));
    assert!(matches!(service.confirm_payment_order(3, 10), Step::QueryBalance(_)));
    assert!(matches!(service.refund_payment_order(4, &payer()), Step::QueryBalance(_)));
    assert!(service.put_setting(9, vec![4, 2]));
    assert!(!service.put_setting(COUNTERS_KEY, vec![4, 2]));
    assert!(!service.put_setting(STATE_KEY, vec![4, 2]));
    assert!(mirrors(&service));

    let journal: Journal = service.close();
    let mut service = match Service::over(journal) {
        Ok(service) => service,
        Err(_) => panic!("the journal of a service must be readable"),
    };
    assert!(mirrors(&service));
    let engine = service.inspect();
    assert_eq!(engine.len(), 5);
    assert_eq!(engine.next_order_id(), 5);
    assert_eq!(engine.total_orders(), 5);
    let statuses: Vec<PaymentStatus> =
        (0..5u64).map(|id| engine.get_payment_order(id).unwrap().status).collect();
    assert_eq!(
        statuses,
        vec![
            PaymentStatus::Paid,
            PaymentStatus::Paid,
            PaymentStatus::TimedOut,
            PaymentStatus::Verifying,
            PaymentStatus::Unpaid,
        ]
    );
    assert_eq!(engine.get_payment_order(0).unwrap().shared_time, Some(12));
    assert_eq!(engine.get_payment_order(1).unwrap().shared_time, None);
    assert_eq!(engine.get_payment_order(1).unwrap().amount_paid, 300);
    for id in 0..5u64 {
        assert_eq!(engine.stage(id), Stage::Idle);
    }
    assert_eq!(service.records().get_setting(9), Some(vec![4, 2]));
    // What was under way is not: the steps that waited find nothing to go on with.
    assert!(service.confirm_with_transfer(1, true, 20).is_none());
    assert!(service.confirm_with_balance(3, 1000, 20).is_none());
    assert!(service.refund_with_balance(4, vec![1], 1000).is_none());
    // The order left verifying can still be refunded.
    assert!(matches!(service.refund_payment_order(3, &payer()), Step::QueryBalance(_)));
    assert_eq!(create(&mut service, 7, 30), 5);
    assert!(mirrors(&service));
}
