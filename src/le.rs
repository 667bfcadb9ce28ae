use vstd::prelude::*;

verus! {

/// An unsigned 32-bit integer as four little-endian bytes.
pub open spec fn u32_bytes(x: u32) -> Seq<u8> {
    seq![
        (x % 0x100) as u8,
        (x / 0x100 % 0x100) as u8,
        (x / 0x1_0000 % 0x100) as u8,
        (x / 0x100_0000) as u8,
    ]
}

/// The unsigned value of four little-endian bytes.
pub open spec fn u32_of(b: Seq<u8>) -> int {
    b[0] + b[1] * 0x100 + b[2] * 0x1_0000 + b[3] * 0x100_0000
}

/// An unsigned 64-bit integer as eight little-endian bytes: the low half,
/// then the high half.
pub open spec fn u64_bytes(x: u64) -> Seq<u8> {
    u32_bytes((x % 0x1_0000_0000) as u32) + u32_bytes((x / 0x1_0000_0000) as u32)
}

/// The unsigned value of eight little-endian bytes.
pub open spec fn u64_of(b: Seq<u8>) -> int {
    u32_of(b.subrange(0, 4)) + u32_of(b.subrange(4, 8)) * 0x1_0000_0000
}

/// The two's-complement bit pattern of a signed 32-bit integer.
pub open spec fn i32_pattern(v: i32) -> u32 {
    if v >= 0 {
        v as u32
    } else {
        (v + 0x1_0000_0000) as u32
    }
}

/// A signed 32-bit integer as four little-endian two's-complement bytes.
pub open spec fn i32_bytes(v: i32) -> Seq<u8> {
    u32_bytes(i32_pattern(v))
}

/// The signed value of four little-endian two's-complement bytes.
pub open spec fn i32_of(b: Seq<u8>) -> int {
    if u32_of(b) < 0x8000_0000 {
        u32_of(b)
    } else {
        u32_of(b) - 0x1_0000_0000
    }
}

pub proof fn lemma_u32_round_trip(x: u32)
    ensures
        u32_bytes(x).len() == 4,
        u32_of(u32_bytes(x)) == x,
{
}

pub proof fn lemma_u32_of_bytes(b: Seq<u8>)
    requires
        b.len() == 4,
    ensures
        0 <= u32_of(b) <= u32::MAX,
        u32_bytes(u32_of(b) as u32) == b,
{
    let (b0, b1, b2, b3) = (b[0] as int, b[1] as int, b[2] as int, b[3] as int);
    let x = u32_of(b);
    assert(x % 0x100 == b0 && x / 0x100 % 0x100 == b1 && x / 0x1_0000 % 0x100 == b2 && x
        / 0x100_0000 == b3) by (nonlinear_arith)
        requires
            x == b0 + b1 * 0x100 + b2 * 0x1_0000 + b3 * 0x100_0000,
            0 <= b0 < 0x100,
            0 <= b1 < 0x100,
            0 <= b2 < 0x100,
            0 <= b3 < 0x100,
    ;
    assert(u32_bytes(x as u32) =~= b);
}

pub proof fn lemma_u64_round_trip(x: u64)
    ensures
        u64_bytes(x).len() == 8,
        u64_of(u64_bytes(x)) == x,
{
    let lo = (x % 0x1_0000_0000) as u32;
    let hi = (x / 0x1_0000_0000) as u32;
    lemma_u32_round_trip(lo);
    lemma_u32_round_trip(hi);
    assert(u64_bytes(x).subrange(0, 4) =~= u32_bytes(lo));
    assert(u64_bytes(x).subrange(4, 8) =~= u32_bytes(hi));
}

pub proof fn lemma_u64_of_bytes(b: Seq<u8>)
    requires
        b.len() == 8,
    ensures
        0 <= u64_of(b) <= u64::MAX,
        u64_bytes(u64_of(b) as u64) == b,
{
    let lo = b.subrange(0, 4);
    let hi = b.subrange(4, 8);
    lemma_u32_of_bytes(lo);
    lemma_u32_of_bytes(hi);
    let x = u64_of(b) as u64;
    assert(x % 0x1_0000_0000 == u32_of(lo));
    assert(x / 0x1_0000_0000 == u32_of(hi));
    assert(u64_bytes(x) =~= lo + hi);
    assert(b =~= lo + hi);
}

pub proof fn lemma_i32_round_trip(v: i32)
    ensures
        i32_bytes(v).len() == 4,
        i32_of(i32_bytes(v)) == v,
{
    lemma_u32_round_trip(i32_pattern(v));
}

pub proof fn lemma_i32_of_bytes(b: Seq<u8>)
    requires
        b.len() == 4,
    ensures
        i32::MIN <= i32_of(b) <= i32::MAX,
        i32_bytes(i32_of(b) as i32) == b,
{
    lemma_u32_of_bytes(b);
}

/// Appends the four little-endian bytes of `x`.
pub fn push_u32(out: &mut Vec<u8>, x: u32)
    ensures
        final(out)@ == old(out)@ + u32_bytes(x),
{
    out.push((x % 0x100) as u8);
    out.push((x / 0x100 % 0x100) as u8);
    out.push((x / 0x1_0000 % 0x100) as u8);
    out.push((x / 0x100_0000) as u8);
    assert(out@ =~= old(out)@ + u32_bytes(x));
}

/// Appends the eight little-endian bytes of `x`.
pub fn push_u64(out: &mut Vec<u8>, x: u64)
    ensures
        final(out)@ == old(out)@ + u64_bytes(x),
{
    push_u32(out, (x % 0x1_0000_0000) as u32);
    push_u32(out, (x / 0x1_0000_0000) as u32);
    assert(out@ =~= old(out)@ + u64_bytes(x));
}

/// Appends the four little-endian two's-complement bytes of `v`.
pub fn push_i32(out: &mut Vec<u8>, v: i32)
    ensures
        final(out)@ == old(out)@ + i32_bytes(v),
{
    let pattern: u32 = if v >= 0 {
        v as u32
    } else {
        (v as i64 + 0x1_0000_0000i64) as u32
    };
    push_u32(out, pattern);
}

/// Reads four little-endian bytes at `start` as an unsigned integer.
pub fn read_u32(b: &[u8], start: usize) -> (r: u32)
    requires
        start + 4 <= b@.len(),
    ensures
        r == u32_of(b@.subrange(start as int, start + 4)),
        u32_bytes(r) == b@.subrange(start as int, start + 4),
{
    // The slice length fits in a usize, so `start + k` cannot overflow.
    let _len = b.len();
    proof {
        lemma_u32_of_bytes(b@.subrange(start as int, start + 4));
    }
    b[start] as u32 + b[start + 1] as u32 * 0x100 + b[start + 2] as u32 * 0x1_0000 + b[start + 3]
        as u32 * 0x100_0000
}

/// Reads eight little-endian bytes at `start` as an unsigned integer.
pub fn read_u64(b: &[u8], start: usize) -> (r: u64)
    requires
        start + 8 <= b@.len(),
    ensures
        r == u64_of(b@.subrange(start as int, start + 8)),
        u64_bytes(r) == b@.subrange(start as int, start + 8),
{
    // The slice length fits in a usize, so `start + k` cannot overflow.
    let _len = b.len();
    let ghost whole = b@.subrange(start as int, start + 8);
    proof {
        lemma_u64_of_bytes(whole);
        assert(whole.subrange(0, 4) =~= b@.subrange(start as int, start + 4));
        assert(whole.subrange(4, 8) =~= b@.subrange(start + 4, start + 8));
    }
    let lo = read_u32(b, start);
    let hi = read_u32(b, start + 4);
    lo as u64 + hi as u64 * 0x1_0000_0000
}

/// Reads four little-endian two's-complement bytes at `start` as a signed
/// integer.
pub fn read_i32(b: &[u8], start: usize) -> (r: i32)
    requires
        start + 4 <= b@.len(),
    ensures
        r == i32_of(b@.subrange(start as int, start + 4)),
        i32_bytes(r) == b@.subrange(start as int, start + 4),
{
    proof {
        lemma_i32_of_bytes(b@.subrange(start as int, start + 4));
    }
    let u = read_u32(b, start);
    if u < 0x8000_0000 {
        u as i32
    } else {
        (u as i64 - 0x1_0000_0000i64) as i32
    }
}

} // verus!
