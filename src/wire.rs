use vstd::prelude::*;

verus! {

/// The unsigned big-endian number held by `b[at..at + n]`.
pub open spec fn be_unsigned(b: Seq<u8>, at: int, n: nat) -> int
    decreases n,
{
    if n == 0 {
        0
    } else {
        be_unsigned(b, at, (n - 1) as nat) * 256 + b[at + n - 1] as int
    }
}

/// The two's-complement big-endian number held by `b[at..at + n]`.
pub open spec fn be_signed(b: Seq<u8>, at: int, n: nat) -> int {
    let u = be_unsigned(b, at, n);
    if n > 0 && b[at] >= 128 {
        u - pow256(n)
    } else {
        u
    }
}

pub open spec fn pow256(n: nat) -> int
    decreases n,
{
    if n == 0 {
        1
    } else {
        256 * pow256((n - 1) as nat)
    }
}

/// A big-endian signed integer of `n` bytes that fills all of `b`.
pub open spec fn be_whole(b: Seq<u8>, n: nat) -> Option<int> {
    if b.len() == n {
        Some(be_signed(b, 0, n))
    } else {
        None
    }
}

proof fn lemma_be_unsigned_bound(b: Seq<u8>, at: int, n: nat)
    requires
        0 <= at,
        at + n <= b.len(),
    ensures
        0 <= be_unsigned(b, at, n) < pow256(n),
        n > 0 && b[at] >= 128 ==> be_unsigned(b, at, n) >= pow256(n) / 2,
        n > 0 && b[at] < 128 ==> be_unsigned(b, at, n) < pow256(n) / 2,
    decreases n,
{
    if n > 0 {
        lemma_be_unsigned_bound(b, at, (n - 1) as nat);
        if n == 1 {
            assert(be_unsigned(b, at, 0) == 0);
            assert(pow256(1) == 256) by {
                assert(pow256(0) == 1);
            }
        } else {
            assert(pow256(n) == 256 * pow256((n - 1) as nat));
        }
    }
}

/// Reads `n` big-endian bytes at `at` as an unsigned number.
fn read_unsigned(b: &[u8], at: usize, n: usize) -> (r: u64)
    requires
        n <= 8,
        at + n <= b@.len(),
    ensures
        r as int == be_unsigned(b@, at as int, n as nat),
{
    let len = b.len();
    let mut acc: u64 = 0;
    let mut i: usize = 0;
    while i < n
        invariant
            len == b@.len(),
            i <= n,
            n <= 8,
            at + n <= b@.len(),
            acc as int == be_unsigned(b@, at as int, i as nat),
        decreases n - i,
    {
        proof {
            lemma_be_unsigned_bound(b@, at as int, i as nat);
            lemma_pow256_bound(i as nat);
            assert(acc * 256 <= 0xFFFF_FFFF_FFFF_FF00) by (nonlinear_arith)
                requires acc < 0x100_0000_0000_0000;
        }
        acc = acc * 256 + b[at + i] as u64;
        i = i + 1;
    }
    acc
}

proof fn lemma_pow256_bound(n: nat)
    requires
        n < 8,
    ensures
        pow256(n) <= 0x100_0000_0000_0000,
{
    reveal_with_fuel(pow256, 8);
}

/// One byte read as a signed `"char"`.
pub fn decode_char(b: &[u8]) -> (r: Option<i8>)
    ensures
        r matches Some(v) ==> be_whole(b@, 1) == Some(v as int),
        r is None <==> b@.len() != 1,
{
    if b.len() != 1 {
        return None;
    }
    let u = b[0];
    proof {
        reveal_with_fuel(be_unsigned, 2);
        reveal_with_fuel(pow256, 2);
    }
    if u >= 128 {
        Some((u as i16 - 256) as i8)
    } else {
        Some(u as i8)
    }
}

/// A two-byte big-endian `int2`.
pub fn decode_int2(b: &[u8]) -> (r: Option<i16>)
    ensures
        r matches Some(v) ==> be_whole(b@, 2) == Some(v as int),
        r is None <==> b@.len() != 2,
{
    if b.len() != 2 {
        return None;
    }
    let u = read_unsigned(b, 0, 2);
    proof {
        lemma_be_unsigned_bound(b@, 0, 2);
        reveal_with_fuel(pow256, 3);
    }
    if b[0] >= 128 {
        Some((u as i32 - 0x1_0000) as i16)
    } else {
        Some(u as i16)
    }
}

/// A four-byte big-endian `int4` (also a `date`, as days).
pub fn decode_int4(b: &[u8]) -> (r: Option<i32>)
    ensures
        r matches Some(v) ==> be_whole(b@, 4) == Some(v as int),
        r is None <==> b@.len() != 4,
{
    if b.len() != 4 {
        return None;
    }
    let u = read_unsigned(b, 0, 4);
    proof {
        lemma_be_unsigned_bound(b@, 0, 4);
        reveal_with_fuel(pow256, 5);
    }
    if b[0] >= 128 {
        Some((u as i64 - 0x1_0000_0000) as i32)
    } else {
        Some(u as i32)
    }
}

/// An eight-byte big-endian `int8` (also a timestamp, as microseconds).
pub fn decode_int8(b: &[u8]) -> (r: Option<i64>)
    ensures
        r matches Some(v) ==> be_whole(b@, 8) == Some(v as int),
        r is None <==> b@.len() != 8,
{
    if b.len() != 8 {
        return None;
    }
    let u = read_unsigned(b, 0, 8);
    proof {
        lemma_be_unsigned_bound(b@, 0, 8);
        reveal_with_fuel(pow256, 9);
    }
    if b[0] >= 128 {
        Some((u as i128 - 0x1_0000_0000_0000_0000) as i64)
    } else {
        Some(u as i64)
    }
}

/// A boolean: one byte, true when it is not zero.
pub fn decode_bool(b: &[u8]) -> (r: Option<bool>)
    ensures
        r matches Some(v) ==> b@.len() == 1 && v == (b@[0] != 0),
        r is None <==> b@.len() != 1,
{
    if b.len() != 1 {
        None
    } else {
        Some(b[0] != 0)
    }
}

} // verus!
