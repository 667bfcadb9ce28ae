use vstd::prelude::*;

use crate::le::{
    i32_bytes, i32_of, lemma_i32_round_trip, lemma_u32_round_trip, lemma_u64_round_trip,
    push_i32, push_u32, push_u64, read_i32, read_u32, read_u64, u32_bytes, u64_bytes,
};
use crate::record::{
    IncomingTransaction, NewTransaction, SuccessfulTransaction, Transaction, CREDIT, DEBIT,
    DESCRIPTION_SIZE, TRANSACTION_SIZE, is_valid_request,
};

verus! {

broadcast use vstd::array::group_array_axioms;

/// Width in bytes of an encoded transaction request (operation, value, description).
pub const REQUEST_SIZE: usize = 15;

/// Width in bytes of an encoded reply (limit, balance).
pub const REPLY_SIZE: usize = 8;

/// The encoding of a record: limit, balance, value, operation, description, timestamp.
#[verifier::opaque]
pub open spec fn record_bytes(t: Transaction) -> Seq<u8> {
    u32_bytes(t.limit) + i32_bytes(t.balance) + i32_bytes(t.value) + seq![t.operation]
        + t.description@ + u64_bytes(t.timestamp)
}

/// The encoding of a request payload: operation, value, description.
pub open spec fn request_bytes(kind: u8, value: i32, description: Seq<u8>) -> Seq<u8> {
    seq![kind] + i32_bytes(value) + description
}

/// The encoding of a reply: limit, balance.
pub open spec fn reply_bytes(r: SuccessfulTransaction) -> Seq<u8> {
    u32_bytes(r.limit) + i32_bytes(r.balance)
}

/// Every record encodes to exactly `TRANSACTION_SIZE` bytes.
pub proof fn lemma_record_bytes_len(t: Transaction)
    ensures
        record_bytes(t).len() == TRANSACTION_SIZE,
{
    reveal(record_bytes);
    lemma_u32_round_trip(t.limit);
    lemma_i32_round_trip(t.balance);
    lemma_i32_round_trip(t.value);
    lemma_u64_round_trip(t.timestamp);
}

/// Two records with the same encoding are the same record.
pub proof fn lemma_record_bytes_injective(a: Transaction, b: Transaction)
    requires
        record_bytes(a) == record_bytes(b),
    ensures
        a == b,
{
    lemma_u32_round_trip(a.limit);
    lemma_u32_round_trip(b.limit);
    lemma_u64_round_trip(a.timestamp);
    lemma_u64_round_trip(b.timestamp);
    lemma_i32_round_trip(a.balance);
    lemma_i32_round_trip(b.balance);
    lemma_i32_round_trip(a.value);
    lemma_i32_round_trip(b.value);
    reveal(record_bytes);
    let ea = record_bytes(a);
    let eb = record_bytes(b);
    assert(ea.subrange(0, 4) =~= u32_bytes(a.limit));
    assert(eb.subrange(0, 4) =~= u32_bytes(b.limit));
    assert(ea.subrange(4, 8) =~= i32_bytes(a.balance));
    assert(eb.subrange(4, 8) =~= i32_bytes(b.balance));
    assert(ea.subrange(8, 12) =~= i32_bytes(a.value));
    assert(eb.subrange(8, 12) =~= i32_bytes(b.value));
    assert(ea[12] == a.operation);
    assert(eb[12] == b.operation);
    assert(ea.subrange(13, 23) =~= a.description@);
    assert(eb.subrange(13, 23) =~= b.description@);
    assert(ea.subrange(23, 31) =~= u64_bytes(a.timestamp));
    assert(eb.subrange(23, 31) =~= u64_bytes(b.timestamp));
    assert(a.description@ =~= b.description@);
    assert(a.description == b.description);
}

/// Appends the bytes of a fixed text field to `out`.
fn push_field(out: &mut Vec<u8>, field: &[u8; 10])
    ensures
        final(out)@ == old(out)@ + field@,
{
    let mut i: usize = 0;
    while i < DESCRIPTION_SIZE
        invariant
            0 <= i <= 10,
            field@.len() == 10,
            out@ == old(out)@ + field@.subrange(0, i as int),
        decreases 10 - i,
    {
        out.push(field[i]);
        i = i + 1;
    }
    assert(field@.subrange(0, 10) =~= field@);
}

/// Reads a ten-byte text field that starts at `start`.
fn read_field(b: &[u8], start: usize) -> (r: [u8; 10])
    requires
        start + 10 <= b@.len(),
    ensures
        r@ == b@.subrange(start as int, start + 10),
{
    // The slice length fits in a usize, so `start + k` cannot overflow.
    let _len = b.len();
    let mut out = [0u8; 10];
    let mut i: usize = 0;
    while i < DESCRIPTION_SIZE
        invariant
            0 <= i <= 10,
            start + 10 <= b@.len(),
            b@.len() <= usize::MAX,
            out@.len() == 10,
            forall|j: int| 0 <= j < i ==> out@[j] == b@[start + j],
        decreases 10 - i,
    {
        out[i] = b[start + i];
        i = i + 1;
    }
    assert(out@ =~= b@.subrange(start as int, start + 10));
    out
}

/// Encodes a record in its fixed-width layout.
pub fn encode_record(t: &Transaction) -> (r: Vec<u8>)
    ensures
        r@ == record_bytes(*t),
        r@.len() == TRANSACTION_SIZE,
{
    let mut out: Vec<u8> = Vec::new();
    push_u32(&mut out, t.limit);
    push_i32(&mut out, t.balance);
    push_i32(&mut out, t.value);
    out.push(t.operation);
    push_field(&mut out, &t.description);
    push_u64(&mut out, t.timestamp);
    proof {
        lemma_record_bytes_len(*t);
        reveal(record_bytes);
    }
    assert(out@ =~= record_bytes(*t));
    out
}

/// Decodes one record; any `TRANSACTION_SIZE` bytes form a record and no
/// other length does.
pub fn decode_record(b: &[u8]) -> (r: Option<Transaction>)
    ensures
        r is Some <==> b@.len() == TRANSACTION_SIZE,
        r matches Some(t) ==> record_bytes(t) == b@,
{
    if b.len() != TRANSACTION_SIZE as usize {
        return None;
    }
    let limit = read_u32(b, 0);
    let balance = read_i32(b, 4);
    let value = read_i32(b, 8);
    let operation = b[12];
    let description = read_field(b, 13);
    let timestamp = read_u64(b, 23);
    let t = Transaction { limit, balance, value, operation, description, timestamp };
    proof {
        assert(b@ =~= b@.subrange(0, 4) + b@.subrange(4, 8) + b@.subrange(8, 12) + seq![b@[12]]
            + b@.subrange(13, 23) + b@.subrange(23, 31));
        reveal(record_bytes);
        assert(record_bytes(t) =~= b@);
    }
    Some(t)
}

/// The value field of a request payload, read as a signed integer.
pub open spec fn payload_value(b: Seq<u8>) -> i32 {
    i32_of(b.subrange(1, 5)) as i32
}

/// A request payload that decodes: the right width, a known operation, a
/// positive value and a non-empty description.
pub open spec fn is_valid_payload(b: Seq<u8>) -> bool {
    b.len() == REQUEST_SIZE && is_valid_request(b[0], payload_value(b), b.subrange(5, 15))
}

/// Two replies with the same encoding are the same reply.
pub proof fn lemma_reply_bytes_injective(a: SuccessfulTransaction, b: SuccessfulTransaction)
    requires
        reply_bytes(a) == reply_bytes(b),
    ensures
        a == b,
{
    lemma_u32_round_trip(a.limit);
    lemma_u32_round_trip(b.limit);
    lemma_i32_round_trip(a.balance);
    lemma_i32_round_trip(b.balance);
    assert(reply_bytes(a).subrange(0, 4) =~= u32_bytes(a.limit));
    assert(reply_bytes(b).subrange(0, 4) =~= u32_bytes(b.limit));
    assert(reply_bytes(a).subrange(4, 8) =~= i32_bytes(a.balance));
    assert(reply_bytes(b).subrange(4, 8) =~= i32_bytes(b.balance));
}

/// Two request payloads with the same encoding carry the same fields.
pub proof fn lemma_request_bytes_injective(a: NewTransaction, b: NewTransaction)
    requires
        request_bytes(a.kind, a.value, a.description@) == request_bytes(
            b.kind,
            b.value,
            b.description@,
        ),
    ensures
        a == b,
{
    lemma_i32_round_trip(a.value);
    lemma_i32_round_trip(b.value);
    let ea = request_bytes(a.kind, a.value, a.description@);
    let eb = request_bytes(b.kind, b.value, b.description@);
    assert(ea[0] == a.kind && eb[0] == b.kind);
    assert(ea.subrange(1, 5) =~= i32_bytes(a.value));
    assert(eb.subrange(1, 5) =~= i32_bytes(b.value));
    assert(ea.subrange(5, 15) =~= a.description@);
    assert(eb.subrange(5, 15) =~= b.description@);
    assert(a.description@ =~= b.description@);
    assert(a.description == b.description);
}

impl SuccessfulTransaction {
    /// Encodes the reply: limit, then balance.
    pub fn encode(&self) -> (r: Vec<u8>)
        ensures
            r@ == reply_bytes(*self),
            r@.len() == REPLY_SIZE,
    {
        let mut out: Vec<u8> = Vec::new();
        push_u32(&mut out, self.limit);
        push_i32(&mut out, self.balance);
        proof {
            lemma_u32_round_trip(self.limit);
            lemma_i32_round_trip(self.balance);
        }
        out
    }

    /// Decodes a reply; any `REPLY_SIZE` bytes form a reply and no other
    /// length does.
    pub fn decode(b: &[u8]) -> (r: Option<SuccessfulTransaction>)
        ensures
            r is Some <==> b@.len() == REPLY_SIZE,
            r matches Some(s) ==> reply_bytes(s) == b@,
    {
        if b.len() != REPLY_SIZE {
            return None;
        }
        let limit = read_u32(b, 0);
        let balance = read_i32(b, 4);
        let s = SuccessfulTransaction { limit, balance };
        assert(reply_bytes(s) =~= b@);
        Some(s)
    }
}

/// Decodes a transaction request payload, rejecting any payload that is
/// not exactly `REQUEST_SIZE` bytes, names an unknown operation, carries a
/// value that is not positive or an empty description.
pub fn decode_request(b: &[u8]) -> (r: Option<NewTransaction>)
    ensures
        r is Some <==> is_valid_payload(b@),
        r matches Some(n) ==> request_bytes(n.kind, n.value, n.description@) == b@,
        r matches Some(n) ==> n.kind == b@[0] && n.value == payload_value(b@)
            && n.description@ == b@.subrange(5, 15),
{
    if b.len() != REQUEST_SIZE {
        return None;
    }
    let kind = b[0];
    let value = read_i32(b, 1);
    let description = read_field(b, 5);
    proof {
        lemma_i32_round_trip(value);
    }
    if !(kind == CREDIT || kind == DEBIT) || value <= 0 || description[0] == 0 {
        return None;
    }
    let n = NewTransaction { kind, value, description };
    assert(request_bytes(kind, value, description@) =~= b@);
    Some(n)
}

impl IncomingTransaction {
    /// The request's fields once validated, or `None` where the operation
    /// is unknown, the value is not positive or the description is empty.
    pub fn validate(&self) -> (r: Option<NewTransaction>)
        ensures
            r is Some <==> is_valid_request(self.kind, self.value, self.description@),
            r matches Some(n) ==> n.kind == self.kind && n.value == self.value
                && n.description == self.description,
    {
        if (self.kind == CREDIT || self.kind == DEBIT) && self.value > 0 && self.description[0]
            != 0 {
            Some(NewTransaction { kind: self.kind, value: self.value, description: self.description })
        } else {
            None
        }
    }

    /// The datagram that asks for this transaction on `account`: the account
    /// id, then the request payload.
    pub fn to_request(&self, account: u8) -> (r: Vec<u8>)
        ensures
            r@ == seq![account] + request_bytes(self.kind, self.value, self.description@),
            r@.len() == 1 + REQUEST_SIZE,
    {
        let mut out: Vec<u8> = Vec::new();
        out.push(account);
        out.push(self.kind);
        push_i32(&mut out, self.value);
        push_field(&mut out, &self.description);
        proof {
            lemma_i32_round_trip(self.value);
        }
        assert(out@ =~= seq![account] + request_bytes(self.kind, self.value, self.description@));
        out
    }
}

} // verus!
