use ledger::bytes::to_fixed_slice;
use ledger::codec::{decode_record, decode_request, encode_record};
use ledger::log_store::{append_record, decode_records, tail};
use ledger::record::{IncomingTransaction, NewTransaction, SuccessfulTransaction, Transaction, CREDIT, DEBIT};

fn sample() -> Transaction {
    Transaction {
        limit: 100000,
        balance: -1234,
        value: 567,
        operation: DEBIT,
        description: to_fixed_slice(b"groceries"),
        timestamp: 1_718_000_000,
    }
}

#[test]
fn record_layout_is_fixed() {
    let bytes = encode_record(&sample());
    assert_eq!(bytes.len(), 31);
    assert_eq!(&bytes[0..4], &[0xa0, 0x86, 0x01, 0x00]);
    assert_eq!(&bytes[4..8], &[0x2e, 0xfb, 0xff, 0xff]);
    assert_eq!(&bytes[8..12], &[0x37, 0x02, 0x00, 0x00]);
    assert_eq!(bytes[12], b'd');
    assert_eq!(&bytes[13..23], b"groceries\0");
    assert_eq!(&bytes[23..31], &1_718_000_000u64.to_le_bytes());
}

#[test]
fn record_layout_matches_bincode_legacy() {
    let t = sample();
    let expected = bincode::serde::encode_to_vec(
        (t.limit, t.balance, t.value, t.operation, t.description, t.timestamp),
        bincode::config::legacy(),
    )
    .unwrap();
    assert_eq!(encode_record(&t), expected);
}

#[test]
fn record_round_trip() {
    let t = sample();
    assert_eq!(decode_record(&encode_record(&t)), Some(t));
    let extreme = Transaction {
        limit: u32::MAX,
        balance: i32::MIN,
        value: i32::MAX,
        operation: CREDIT,
        description: [0xff; 10],
        timestamp: u64::MAX,
    };
    assert_eq!(decode_record(&encode_record(&extreme)), Some(extreme));
}

#[test]
fn record_of_wrong_width_does_not_decode() {
    let bytes = encode_record(&sample());
    assert_eq!(decode_record(&bytes[..30]), None);
    assert_eq!(decode_record(&[]), None);
    let mut longer = bytes.clone();
    longer.push(0);
    assert_eq!(decode_record(&longer), None);
}

#[test]
fn append_then_tail_of_one_gives_the_record_back() {
    let mut log = Vec::new();
    append_record(&mut log, &sample());
    let t = Transaction { balance: 10, value: 11, operation: CREDIT, ..sample() };
    append_record(&mut log, &t);
    let last = tail(&log, 1);
    assert_eq!(last.len(), 31);
    assert_eq!(decode_record(&last), Some(t));
}

#[test]
fn records_split_a_window() {
    let mut log = Vec::new();
    for v in 1..=3 {
        append_record(&mut log, &Transaction { value: v, ..sample() });
    }
    let records = decode_records(&log).unwrap();
    assert_eq!(records.iter().map(|r| r.value).collect::<Vec<_>>(), vec![1, 2, 3]);
    assert_eq!(decode_records(&log[..40]), None);
    assert_eq!(decode_records(&[]), Some(vec![]));
}

#[test]
fn reply_layout_matches_bincode_legacy() {
    let reply = SuccessfulTransaction { limit: 80000, balance: -79000 };
    let expected = bincode::serde::encode_to_vec((80000u32, -79000i32), bincode::config::legacy()).unwrap();
    assert_eq!(reply.encode(), expected);
    assert_eq!(SuccessfulTransaction::decode(&expected), Some(reply));
    assert_eq!(SuccessfulTransaction::decode(&expected[..7]), None);
    assert_eq!(SuccessfulTransaction::decode(&[]), None);
}

#[test]
fn reply_converts_to_cache_entry() {
    let reply = SuccessfulTransaction::from_transaction(&sample());
    assert_eq!(reply, SuccessfulTransaction { limit: 100000, balance: -1234 });
    let state = reply.to_client_state();
    assert_eq!((state.limit, state.balance), (100000, -1234));
}

#[test]
fn request_layout_matches_bincode_legacy() {
    let incoming = IncomingTransaction { kind: CREDIT, value: 250, description: to_fixed_slice(b"salary") };
    let payload = bincode::serde::encode_to_vec(
        (incoming.kind, incoming.value, incoming.description),
        bincode::config::legacy(),
    )
    .unwrap();
    let datagram = incoming.to_request(3);
    assert_eq!(datagram.len(), 16);
    assert_eq!(datagram[0], 3);
    assert_eq!(&datagram[1..], &payload[..]);
    let decoded = decode_request(&payload).unwrap();
    assert_eq!(decoded, NewTransaction { kind: CREDIT, value: 250, description: to_fixed_slice(b"salary") });
}

#[test]
fn invalid_requests_do_not_decode() {
    let ok = IncomingTransaction { kind: DEBIT, value: 9, description: to_fixed_slice(b"x") };
    assert!(decode_request(&ok.to_request(1)[1..]).is_some());
    let bad_kind = IncomingTransaction { kind: b'e', ..ok };
    assert_eq!(decode_request(&bad_kind.to_request(1)[1..]), None);
    let zero = IncomingTransaction { value: 0, ..ok };
    assert_eq!(decode_request(&zero.to_request(1)[1..]), None);
    let negative = IncomingTransaction { value: i32::MIN, ..ok };
    assert_eq!(decode_request(&negative.to_request(1)[1..]), None);
    let empty = IncomingTransaction { description: [0; 10], ..ok };
    assert_eq!(decode_request(&empty.to_request(1)[1..]), None);
    assert_eq!(decode_request(&ok.to_request(1)[1..14]), None);
}

#[test]
fn validate_checks_every_field() {
    let ok = IncomingTransaction { kind: DEBIT, value: 9, description: to_fixed_slice(b"x") };
    assert_eq!(ok.validate(), Some(NewTransaction { kind: DEBIT, value: 9, description: ok.description }));
    assert_eq!(IncomingTransaction { kind: b'c', ..ok }.validate().map(|n| n.kind), Some(CREDIT));
    assert_eq!(IncomingTransaction { kind: 0, ..ok }.validate(), None);
    assert_eq!(IncomingTransaction { value: -1, ..ok }.validate(), None);
    assert_eq!(IncomingTransaction { description: [0; 10], ..ok }.validate(), None);
}

#[test]
fn new_transaction_becomes_a_record() {
    let n = NewTransaction { kind: CREDIT, value: 40, description: to_fixed_slice(b"tip") };
    let t = n.to_transaction(500, 40, 77);
    assert_eq!(
        t,
        Transaction { limit: 500, balance: 40, value: 40, operation: CREDIT, description: n.description, timestamp: 77 }
    );
}
