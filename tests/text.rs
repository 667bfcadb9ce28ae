use ledger::bytes::{find_subsequence, to_fixed_slice};
use ledger::log_store::tail_window;
use ledger::record::{IncomingTransaction, CREDIT, DEBIT};
use ledger::text::{description_from_text, kind_from_text};

#[test]
fn fixed_slice_pads_with_zeros() {
    assert_eq!(to_fixed_slice(b"dep"), *b"dep\0\0\0\0\0\0\0");
    assert_eq!(to_fixed_slice(b"0123456789"), *b"0123456789");
    assert_eq!(to_fixed_slice(b""), [0u8; 10]);
}

#[test]
fn subsequence_is_found_at_its_first_position() {
    let request = b"POST /clientes/1/transacoes HTTP/1.1\r\nHost: x\r\n\r\n{\"valor\":1}";
    assert_eq!(find_subsequence(request, b"\r\n\r\n"), Some(45));
    assert_eq!(find_subsequence(b"abcabc", b"bc"), Some(1));
    assert_eq!(find_subsequence(b"abc", b"abc"), Some(0));
    assert_eq!(find_subsequence(b"abc", b"abcd"), None);
    assert_eq!(find_subsequence(b"abc", b"x"), None);
    assert_eq!(find_subsequence(b"", b"x"), None);
}

#[test]
fn tail_window_is_bounded_by_file_and_count() {
    assert_eq!(tail_window(0, 10), (0, 0));
    assert_eq!(tail_window(31, 10), (0, 31));
    assert_eq!(tail_window(310, 10), (0, 310));
    assert_eq!(tail_window(620, 10), (310, 310));
    assert_eq!(tail_window(93, 1), (62, 31));
    assert_eq!(tail_window(93, 0), (93, 0));
    assert_eq!(tail_window(1000, u64::MAX), (0, 1000));
}

#[test]
fn kind_is_read_from_the_first_byte() {
    assert_eq!(kind_from_text("c"), Some(CREDIT));
    assert_eq!(kind_from_text("d"), Some(DEBIT));
    assert_eq!(kind_from_text("debit"), None);
    assert_eq!(kind_from_text("cx"), None);
    assert_eq!(kind_from_text("dd"), None);
    assert_eq!(kind_from_text("x"), None);
    assert_eq!(kind_from_text("C"), None);
    assert_eq!(kind_from_text(""), None);
}

#[test]
fn description_must_hold_one_to_ten_bytes() {
    assert_eq!(description_from_text("dep"), Some(*b"dep\0\0\0\0\0\0\0"));
    assert_eq!(description_from_text("0123456789"), Some(*b"0123456789"));
    assert_eq!(description_from_text(""), None);
    assert_eq!(description_from_text("0123456789a"), None);
}

#[test]
fn incoming_request_from_text_fields() {
    let t = IncomingTransaction::from_text("c", 100, "descricao").unwrap();
    assert_eq!(t, IncomingTransaction { kind: CREDIT, value: 100, description: *b"descricao\0" });
    assert_eq!(IncomingTransaction::from_text("x", 100, "ok"), None);
    assert_eq!(IncomingTransaction::from_text("credit", 100, "ok"), None);
    assert_eq!(IncomingTransaction::from_text("d", 100, ""), None);
    assert_eq!(IncomingTransaction::from_text("d", 100, "much too long"), None);
}
