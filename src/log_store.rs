use vstd::prelude::*;
use vstd::slice::slice_subrange;

use crate::codec::{decode_record, encode_record, lemma_record_bytes_injective, lemma_record_bytes_len, record_bytes};
use crate::record::{Transaction, TRANSACTION_SIZE};

verus! {

/// Number of records that a statement returns at most.
pub const STATEMENT_RECORDS: u64 = 10;

/// The bytes of a log that holds `records`, oldest first.
pub open spec fn log_bytes(records: Seq<Transaction>) -> Seq<u8>
    decreases records.len(),
{
    if records.len() == 0 {
        Seq::empty()
    } else {
        log_bytes(records.drop_last()) + record_bytes(records.last())
    }
}

/// How many bytes a tail read of `max_records` records takes from a log of
/// `file_len` bytes.
pub open spec fn window_len(file_len: int, max_records: int) -> int {
    if file_len <= TRANSACTION_SIZE * max_records {
        file_len
    } else {
        TRANSACTION_SIZE * max_records
    }
}

/// The last `max_records` records' worth of bytes of `log`, or all of it
/// where it is shorter.
pub open spec fn tail_of(log: Seq<u8>, max_records: int) -> Seq<u8> {
    log.subrange(log.len() - window_len(log.len() as int, max_records), log.len() as int)
}

/// A log of `n` records is `n` record widths long.
pub proof fn lemma_log_bytes_len(records: Seq<Transaction>)
    ensures
        log_bytes(records).len() == TRANSACTION_SIZE * records.len(),
    decreases records.len(),
{
    if records.len() > 0 {
        lemma_log_bytes_len(records.drop_last());
        lemma_record_bytes_len(records.last());
    }
}

/// Where a tail read starts and how many bytes it takes: the window is
/// `min(file_len, TRANSACTION_SIZE * max_records)` bytes and ends at the end
/// of the file.
pub fn tail_window(file_len: u64, max_records: u64) -> (r: (u64, u64))
    ensures
        r.1 == window_len(file_len as int, max_records as int),
        r.0 + r.1 == file_len,
{
    let window = if max_records > file_len / (TRANSACTION_SIZE as u64) {
        file_len
    } else {
        (TRANSACTION_SIZE as u64) * max_records
    };
    assert(window == window_len(file_len as int, max_records as int)) by (nonlinear_arith)
        requires
            window == (if max_records > file_len / 31 { file_len as int } else { 31 * max_records }),
    ;
    (file_len - window, window)
}

/// Reads the tail of an in-memory log: its last `max_records` records'
/// worth of bytes.
pub fn tail(log: &[u8], max_records: u64) -> (r: Vec<u8>)
    ensures
        r@ == tail_of(log@, max_records as int),
{
    let (start, _window) = tail_window(log.len() as u64, max_records);
    vstd::slice::slice_to_vec(slice_subrange(log, start as usize, log.len()))
}

/// Appends the encoding of `t` to an in-memory log.
pub fn append_record(log: &mut Vec<u8>, t: &Transaction)
    ensures
        final(log)@ == old(log)@ + record_bytes(*t),
{
    let mut b = encode_record(t);
    log.append(&mut b);
}

/// Appending a record to a log appends its encoding to the log's bytes.
pub proof fn lemma_log_bytes_push(records: Seq<Transaction>, t: Transaction)
    ensures
        log_bytes(records.push(t)) == log_bytes(records) + record_bytes(t),
{
    assert(records.push(t).drop_last() =~= records);
}

/// A prefix of `b` that holds `records`, followed by the encoding of `t`,
/// holds `records` and then `t`.
proof fn lemma_log_bytes_extend(records: Seq<Transaction>, t: Transaction, b: Seq<u8>, pos: int)
    requires
        0 <= pos,
        pos + 31 <= b.len(),
        log_bytes(records) == b.subrange(0, pos),
        record_bytes(t) == b.subrange(pos, pos + 31),
    ensures
        log_bytes(records.push(t)) == b.subrange(0, pos + 31),
{
    lemma_log_bytes_push(records, t);
    assert(b.subrange(0, pos + 31) =~= b.subrange(0, pos) + b.subrange(pos, pos + 31));
}

/// Splits a window of a log into its records, oldest first; `None` where
/// the window is not a whole number of records.
pub fn decode_records(b: &[u8]) -> (r: Option<Vec<Transaction>>)
    ensures
        r is Some <==> b@.len() % (TRANSACTION_SIZE as nat) == 0,
        r matches Some(v) ==> log_bytes(v@) == b@,
{
    let size = TRANSACTION_SIZE as usize;
    if b.len() % size != 0 {
        return None;
    }
    let mut out: Vec<Transaction> = Vec::new();
    let mut pos: usize = 0;
    while pos < b.len()
        invariant
            size == 31,
            b@.len() % 31 == 0,
            pos % 31 == 0,
            pos <= b@.len(),
            log_bytes(out@) == b@.subrange(0, pos as int),
        decreases b@.len() - pos,
    {
        let chunk = slice_subrange(b, pos, pos + size);
        let t = decode_record(chunk).unwrap();
        proof {
            lemma_log_bytes_extend(out@, t, b@, pos as int);
        }
        out.push(t);
        pos = pos + size;
    }
    assert(b@.subrange(0, b@.len() as int) =~= b@);
    Some(out)
}

/// Appending a record and then reading a tail of one record gives back the
/// encoding of that record, which decodes to no other record.
pub proof fn lemma_append_then_tail(log: Seq<u8>, t: Transaction)
    ensures
        tail_of(log + record_bytes(t), 1) == record_bytes(t),
        forall|u: Transaction| record_bytes(u) == tail_of(log + record_bytes(t), 1) ==> u == t,
{
    lemma_record_bytes_len(t);
    let grown = log + record_bytes(t);
    assert(tail_of(grown, 1) =~= record_bytes(t));
    assert forall|u: Transaction| record_bytes(u) == tail_of(grown, 1) implies u == t by {
        lemma_record_bytes_injective(u, t);
    }
}

/// Two logs with the same bytes hold the same records.
pub proof fn lemma_log_bytes_injective(a: Seq<Transaction>, b: Seq<Transaction>)
    requires
        log_bytes(a) == log_bytes(b),
    ensures
        a == b,
    decreases a.len(),
{
    lemma_log_bytes_len(a);
    lemma_log_bytes_len(b);
    if a.len() > 0 {
        let pa = log_bytes(a.drop_last());
        let pb = log_bytes(b.drop_last());
        lemma_log_bytes_len(a.drop_last());
        lemma_log_bytes_len(b.drop_last());
        lemma_record_bytes_len(a.last());
        lemma_record_bytes_len(b.last());
        let n = pa.len() as int;
        assert(log_bytes(a).subrange(0, n) =~= pa);
        assert(log_bytes(b).subrange(0, n) =~= pb);
        assert(log_bytes(a).subrange(n, n + 31) =~= record_bytes(a.last()));
        assert(log_bytes(b).subrange(n, n + 31) =~= record_bytes(b.last()));
        lemma_record_bytes_injective(a.last(), b.last());
        lemma_log_bytes_injective(a.drop_last(), b.drop_last());
        assert(a =~= a.drop_last().push(a.last()));
        assert(b =~= b.drop_last().push(b.last()));
    } else {
        assert(a =~= b);
    }
}

} // verus!
