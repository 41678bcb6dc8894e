use payment_orders::codec::{decode_order, encode_order, read_u64, status_to_byte};
use payment_orders::engine::{Engine, Stage, Step};
use payment_orders::journal::{read_counters, read_entry, Journal, COUNTERS_KEY};
use payment_orders::order::{PaymentOrder, PaymentStatus, PaymentType, TokenPrice};
use payment_orders::principal::Principal;

fn payer() -> Principal {
    Principal::try_from_slice(&vec![10, 20, 30, 40]).unwrap()
}

fn price(amount: u64) -> PaymentType {
    PaymentType::CreationPrice(TokenPrice { token_name: "CKBTC".to_string(), price: amount })
}

fn sample() -> PaymentOrder {
    PaymentOrder {
        id: 3,
        payer: payer(),
        amount: 1000,
        payment_type: price(1000),
        source: "w\u{e9}b".to_string(),
        token: "CKBTC".to_string(),
        amount_paid: 1500,
        status: PaymentStatus::Paid,
        verified_time: Some(120),
        shared_time: None,
        created_time: 77,
    }
}

fn sample_bytes() -> Vec<u8> {
    vec![
        0, 0, 0, 0, 0, 0, 0, 3, 0, 0, 0, 0, 0, 0, 3, 232, 0, 0, 0, 0, 0, 0, 5, 220, 0, 0, 0, 0, 0,
        0, 0, 77, 0, 0, 0, 0, 0, 0, 3, 232, 2, 1, 0, 0, 0, 0, 0, 0, 0, 120, 0, 0, 0, 0, 0, 0, 0, 0,
        4, 10, 20, 30, 40, 0, 0, 0, 0, 0, 0, 0, 5, 67, 75, 66, 84, 67, 0, 0, 0, 0, 0, 0, 0, 4,
        119, 195, 169, 98, 0, 0, 0, 0, 0, 0, 0, 5, 67, 75, 66, 84, 67,
    ]
}

fn same(a: &PaymentOrder, b: &PaymentOrder) -> bool {
    let PaymentType::CreationPrice(pa) = &a.payment_type;
    let PaymentType::CreationPrice(pb) = &b.payment_type;
    a.id == b.id
        && a.payer.same_as(&b.payer)
        && a.amount == b.amount
        && pa.token_name == pb.token_name
        && pa.price == pb.price
        && a.source == b.source
        && a.token == b.token
        && a.amount_paid == b.amount_paid
        && a.status == b.status
        && a.verified_time == b.verified_time
        && a.shared_time == b.shared_time
        && a.created_time == b.created_time
}

#[test]
fn order_is_written_as_expected_bytes() {
    assert_eq!(encode_order(&sample()), sample_bytes());
}

#[test]
fn order_is_read_back_from_its_bytes() {
    let order = decode_order(&sample_bytes()).unwrap();
    assert!(same(&order, &sample()));
    let mut other = sample();
    other.status = PaymentStatus::Refunded;
    other.shared_time = Some(u64::MAX);
    other.verified_time = None;
    other.source = String::new();
    other.payer = Principal { bytes: Vec::new() };
    other.id = u64::MAX;
    let back = decode_order(&encode_order(&other)).unwrap();
    assert!(same(&back, &other));
    assert_eq!(encode_order(&back), encode_order(&other));
}

#[test]
fn every_status_has_its_byte() {
    let all = [
        (PaymentStatus::Unpaid, 0u8),
        (PaymentStatus::Verifying, 1),
        (PaymentStatus::Paid, 2),
        (PaymentStatus::TimedOut, 3),
        (PaymentStatus::Refunded, 4),
    ];
    for (status, byte) in all {
        assert_eq!(status_to_byte(status), byte);
        let mut order = sample();
        order.status = status;
        let bytes = encode_order(&order);
        assert_eq!(bytes[40], byte);
        assert_eq!(decode_order(&bytes).unwrap().status, status);
    }
}

#[test]
fn malformed_bytes_are_no_order() {
    let good = sample_bytes();
    assert!(decode_order(&Vec::new()).is_none());
    // Cut short anywhere.
    for len in 0..good.len() {
        assert!(decode_order(&good[..len].to_vec()).is_none(), "length {}", len);
    }
    // Something left over.
    let mut long = good.clone();
    long.push(0);
    assert!(decode_order(&long).is_none());
    // A status byte that stands for no status.
    let mut bad = good.clone();
    bad[40] = 5;
    assert!(decode_order(&bad).is_none());
    // A tag that is neither 0 nor 1.
    let mut bad = good.clone();
    bad[41] = 2;
    assert!(decode_order(&bad).is_none());
    // A text that is not UTF-8.
    let mut bad = good.clone();
    bad[85] = 0xFF;
    assert!(decode_order(&bad).is_none());
    // A length that reaches beyond the end.
    let mut bad = good.clone();
    bad[58] = 200;
    assert!(decode_order(&bad).is_none());
    let mut bad = good.clone();
    bad[51] = 0xFF;
    assert!(decode_order(&bad).is_none());
}

#[test]
fn integers_are_read_big_endian() {
    let bytes = vec![9, 1, 2, 3, 4, 5, 6, 7, 8, 9];
    assert_eq!(read_u64(&bytes, 1), Some((0x0102_0304_0506_0708, 9)));
    assert_eq!(read_u64(&bytes, 2), Some((0x0203_0405_0607_0809, 10)));
    assert_eq!(read_u64(&bytes, 3), None);
    assert_eq!(read_u64(&bytes, 10), None);
}

#[test]
fn counters_take_sixteen_bytes() {
    let mut bytes = vec![0u8; 16];
    bytes[7] = 5;
    bytes[15] = 9;
    assert_eq!(read_counters(&bytes), Some((5, 9)));
    assert_eq!(read_counters(&vec![0u8; 15]), None);
    assert_eq!(read_counters(&vec![0u8; 17]), None);
    assert_eq!(read_counters(&vec![255u8; 16]), Some((u64::MAX, u64::MAX)));
}

#[test]
fn stored_entry_must_match_its_key() {
    let bytes = sample_bytes();
    assert!(same(&read_entry(3, &bytes, 4).unwrap(), &sample()));
    // Under another key.
    assert!(read_entry(2, &bytes, 4).is_none());
    // At or beyond the next id.
    assert!(read_entry(3, &bytes, 3).is_none());
    // A sharing time on an order that is not paid.
    let mut order = sample();
    order.status = PaymentStatus::Unpaid;
    order.shared_time = Some(1);
    assert!(read_entry(3, &encode_order(&order), 4).is_none());
    // A payer with too many bytes.
    let mut order = sample();
    order.payer = Principal { bytes: vec![1u8; 30] };
    assert!(read_entry(3, &encode_order(&order), 4).is_none());
    assert!(read_entry(3, &vec![1, 2, 3], 4).is_none());
}

#[test]
fn empty_journal_gives_an_empty_engine() {
    let journal = Journal::open();
    let engine = journal.restore().unwrap();
    assert_eq!(engine.len(), 0);
    assert_eq!(engine.next_order_id(), 0);
    assert_eq!(engine.total_orders(), 0);
    assert!(journal.get_setting(COUNTERS_KEY).is_none());
    assert!(journal.get_order_bytes(0).is_none());
}

#[test]
fn settings_are_kept_by_key() {
    let mut journal = Journal::open();
    assert!(journal.put_setting(2, vec![1, 2, 3]));
    assert!(journal.put_setting(7, Vec::new()));
    assert!(journal.put_setting(2, vec![4]));
    assert_eq!(journal.get_setting(2), Some(vec![4]));
    assert_eq!(journal.get_setting(7), Some(Vec::new()));
    assert_eq!(journal.get_setting(8), None);
    // The counters' key is not for settings.
    assert!(!journal.put_setting(COUNTERS_KEY, vec![9]));
    assert_eq!(journal.get_setting(COUNTERS_KEY), None);
    assert!(journal.restore().is_some());
}

#[test]
fn recorded_orders_survive_a_restart() {
    let mut journal = Journal::open();
    let mut engine = Engine::new();
    for now in 0..4u64 {
        let info = engine
            .create_order(payer(), "web".to_string(), "CKBTC".to_string(), 100, price(100), now)
            .unwrap();
        journal.record(&engine, info.id);
    }
    // Order 1 is paid and shared, order 2 refunded, order 3 left verifying.
    assert!(matches!(engine.confirm_payment_order(1, 10), Step::QueryBalance(_)));
    journal.record(&engine, 1);
    assert!(matches!(engine.confirm_with_balance(1, 150, 11), Some(Step::Transfer(_))));
    journal.record(&engine, 1);
    assert!(engine.confirm_with_transfer(1, true, 12).is_some());
    journal.record(&engine, 1);
    assert!(matches!(engine.refund_payment_order(2, &payer()), Step::QueryBalance(_)));
    assert!(matches!(engine.refund_with_balance(2, vec![1], 60), Some(Step::Transfer(_))));
    assert!(engine.refund_with_transfer(2, true, 13).is_some());
    journal.record(&engine, 2);
    assert!(matches!(engine.confirm_payment_order(3, 14), Step::QueryBalance(_)));
    journal.record(&engine, 3);

    let mut rebuilt = journal.restore().unwrap();
    assert_eq!(rebuilt.len(), engine.len());
    assert_eq!(rebuilt.next_order_id(), 4);
    assert_eq!(rebuilt.total_orders(), 4);
    for id in 0..4u64 {
        let before = engine.get_payment_order(id).unwrap();
        let after = rebuilt.get_payment_order(id).unwrap();
        assert!(same(&before, &after), "order {}", id);
        assert_eq!(rebuilt.stage(id), Stage::Idle);
        assert_eq!(journal.get_order_bytes(id), Some(encode_order(&before)));
    }
    assert_eq!(rebuilt.get_payment_order(1).unwrap().shared_time, Some(12));
    assert_eq!(rebuilt.get_payment_order(2).unwrap().status, PaymentStatus::Refunded);
    assert_eq!(rebuilt.get_payment_order(3).unwrap().status, PaymentStatus::Verifying);
    assert_eq!(journal.get_setting(COUNTERS_KEY).unwrap().len(), 16);
    // The rebuilt engine goes on where the old one stood.
    let info = rebuilt
        .create_order(payer(), "web".to_string(), "CKBTC".to_string(), 5, price(5), 20)
        .unwrap();
    assert_eq!(info.id, 4);
}

#[test]
fn recording_an_unknown_order_writes_only_the_counters() {
    let mut journal = Journal::open();
    let mut engine = Engine::new();
    engine
        .create_order(payer(), "web".to_string(), "CKBTC".to_string(), 100, price(100), 1)
        .unwrap();
    journal.record(&engine, 9);
    assert!(journal.get_order_bytes(9).is_none());
    assert!(journal.get_order_bytes(0).is_none());
    assert_eq!(read_counters(&journal.get_setting(COUNTERS_KEY).unwrap()), Some((1, 1)));
    let rebuilt = journal.restore().unwrap();
    assert_eq!(rebuilt.len(), 0);
    assert_eq!(rebuilt.next_order_id(), 1);
}

#[test]
fn many_orders_come_back_in_ascending_order() {
    let mut journal = Journal::open();
    let mut engine = Engine::new();
    for now in 0..300u64 {
        engine
            .create_order(payer(), "web".to_string(), "ICP".to_string(), now, price(now), now)
            .unwrap();
    }
    // Record out of order: the map sorts by key.
    for id in (0..300u64).rev() {
        journal.record(&engine, id);
    }
    let rebuilt = journal.restore().unwrap();
    assert_eq!(rebuilt.len(), 300);
    for index in 0..300usize {
        let order = rebuilt.order_at(index).unwrap();
        assert_eq!(order.id, index as u64);
        assert_eq!(order.amount, index as u64);
    }
}
