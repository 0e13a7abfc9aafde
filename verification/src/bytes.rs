//! Fixed-width integers as byte strings.

use vstd::prelude::*;

pub mod layout;

verus! {

/// The number of byte strings of a given length.
pub open spec fn pow256(len: nat) -> nat
    decreases len,
{
    if len == 0 {
        1
    } else {
        256 * pow256((len - 1) as nat)
    }
}

/// The number that a byte string spells, most significant byte first.
pub open spec fn be_nat(bytes: Seq<u8>) -> nat
    decreases bytes.len(),
{
    if bytes.len() == 0 {
        0
    } else {
        be_nat(bytes.drop_last()) * 256 + bytes.last() as nat
    }
}

/// The byte string of length `len` that spells `n`, most significant byte first.
pub open spec fn be_bytes(n: nat, len: nat) -> Seq<u8>
    decreases len,
{
    if len == 0 {
        Seq::empty()
    } else {
        be_bytes(n / 256, (len - 1) as nat).push((n % 256) as u8)
    }
}

/// The number that a byte string spells, least significant byte first.
pub open spec fn le_nat(bytes: Seq<u8>) -> nat
    decreases bytes.len(),
{
    if bytes.len() == 0 {
        0
    } else {
        bytes[0] as nat + 256 * le_nat(bytes.drop_first())
    }
}

/// The byte string of length `len` that spells `n`, least significant byte first.
pub open spec fn le_bytes(n: nat, len: nat) -> Seq<u8>
    decreases len,
{
    if len == 0 {
        Seq::empty()
    } else {
        seq![(n % 256) as u8] + le_bytes(n / 256, (len - 1) as nat)
    }
}

/// The unsigned number with the same bits as `n` in two's complement, `span`
/// being the number of bit patterns.
pub open spec fn unsigned_of(n: int, span: nat) -> nat {
    if n < 0 {
        (n + span) as nat
    } else {
        n as nat
    }
}

/// The number whose bits in two's complement are those of `n`, `span` being the
/// number of bit patterns.
pub open spec fn signed_of(n: nat, span: nat) -> int {
    if 2 * n >= span {
        n - span
    } else {
        n as int
    }
}

pub proof fn lemma_pow256()
    ensures
        pow256(1) == 0x100,
        pow256(2) == 0x1_0000,
        pow256(4) == 0x1_0000_0000,
        pow256(8) == 0x1_0000_0000_0000_0000,
{
    reveal_with_fuel(pow256, 9);
}

pub proof fn lemma_pow256_monotonic(a: nat, b: nat)
    requires
        a <= b,
    ensures
        0 < pow256(a) <= pow256(b),
    decreases b,
{
    if a < b {
        lemma_pow256_monotonic(a, (b - 1) as nat);
    } else if a > 0 {
        lemma_pow256_monotonic((a - 1) as nat, (a - 1) as nat);
    }
}

pub proof fn lemma_be_nat_bound(bytes: Seq<u8>)
    ensures
        be_nat(bytes) < pow256(bytes.len()),
    decreases bytes.len(),
{
    if bytes.len() > 0 {
        lemma_be_nat_bound(bytes.drop_last());
    }
}

pub proof fn lemma_le_nat_bound(bytes: Seq<u8>)
    ensures
        le_nat(bytes) < pow256(bytes.len()),
    decreases bytes.len(),
{
    if bytes.len() > 0 {
        lemma_le_nat_bound(bytes.drop_first());
    }
}

/// Reading back a number written most significant byte first gives the number.
pub proof fn be_bytes_round_trip(n: nat, len: nat)
    requires
        n < pow256(len),
    ensures
        be_bytes(n, len).len() == len,
        be_nat(be_bytes(n, len)) == n,
    decreases len,
{
    if len > 0 {
        be_bytes_round_trip(n / 256, (len - 1) as nat);
        assert(be_bytes(n, len).drop_last() == be_bytes(n / 256, (len - 1) as nat));
    }
}

/// Reading back a number written least significant byte first gives the number.
pub proof fn le_bytes_round_trip(n: nat, len: nat)
    requires
        n < pow256(len),
    ensures
        le_bytes(n, len).len() == len,
        le_nat(le_bytes(n, len)) == n,
    decreases len,
{
    if len > 0 {
        le_bytes_round_trip(n / 256, (len - 1) as nat);
        assert(le_bytes(n, len).drop_first() == le_bytes(n / 256, (len - 1) as nat));
    }
}

/// A two's complement number is recovered from its bits.
pub proof fn signed_round_trip(n: int, span: nat)
    requires
        span % 2 == 0,
        -(span as int) <= 2 * n < span,
    ensures
        unsigned_of(n, span) < span,
        signed_of(unsigned_of(n, span), span) == n,
{
}

/// The number spelled by `bytes[start..start + len]`, most significant byte first.
pub fn read_be(bytes: &[u8], start: usize, len: usize) -> (n: u64)
    requires
        start + len <= bytes.len(),
        len <= 8,
    ensures
        n == be_nat(bytes@.subrange(start as int, start + len)),
        n < pow256(len as nat),
{
    let mut n: u64 = 0;
    let mut i: usize = 0;
    while i < len
        invariant
            i <= len <= 8,
            start + len <= bytes.len(),
            n == be_nat(bytes@.subrange(start as int, start + i)),
        decreases len - i,
    {
        proof {
            let read = bytes@.subrange(start as int, start + i);
            let next = bytes@.subrange(start as int, start + i + 1);
            assert(next.drop_last() == read);
            lemma_be_nat_bound(next);
            lemma_pow256_monotonic((i + 1) as nat, 8);
            lemma_pow256();
        }
        n = n * 256 + bytes[start + i] as u64;
        i += 1;
    }
    proof {
        lemma_be_nat_bound(bytes@.subrange(start as int, start + len));
    }
    n
}

/// The number spelled by `bytes[start..start + len]`, least significant byte first.
pub fn read_le(bytes: &[u8], start: usize, len: usize) -> (n: u64)
    requires
        start + len <= bytes.len(),
        len <= 8,
    ensures
        n == le_nat(bytes@.subrange(start as int, start + len)),
        n < pow256(len as nat),
{
    let mut n: u64 = 0;
    let mut left: usize = len;
    while left > 0
        invariant
            left <= len <= 8,
            start + len <= bytes.len(),
            n == le_nat(bytes@.subrange(start + left, start + len)),
        decreases left,
    {
        proof {
            let read = bytes@.subrange(start + left, start + len);
            let next = bytes@.subrange(start + left - 1, start + len);
            assert(next.drop_first() == read);
            lemma_le_nat_bound(next);
            lemma_pow256_monotonic((len - left + 1) as nat, 8);
            lemma_pow256();
        }
        left -= 1;
        n = n * 256 + bytes[start + left] as u64;
    }
    proof {
        lemma_le_nat_bound(bytes@.subrange(start as int, start + len));
    }
    n
}

/// Appends the byte string of length `len` that spells `n`, most significant
/// byte first.
pub fn push_be(out: &mut Vec<u8>, n: u64, len: usize)
    ensures
        final(out)@ == old(out)@ + be_bytes(n as nat, len as nat),
    decreases len,
{
    if len > 0 {
        push_be(out, n / 256, len - 1);
        out.push((n % 256) as u8);
        assert(out@ == old(out)@ + be_bytes(n as nat, len as nat));
    } else {
        assert(out@ == old(out)@ + be_bytes(n as nat, len as nat));
    }
}

/// Appends the byte string of length `len` that spells `n`, least significant
/// byte first.
pub fn push_le(out: &mut Vec<u8>, n: u64, len: usize)
    ensures
        final(out)@ == old(out)@ + le_bytes(n as nat, len as nat),
    decreases len,
{
    if len > 0 {
        out.push((n % 256) as u8);
        push_le(out, n / 256, len - 1);
        assert(out@ == old(out)@ + le_bytes(n as nat, len as nat));
    } else {
        assert(out@ == old(out)@ + le_bytes(n as nat, len as nat));
    }
}

/// The bits of `n` in two's complement, as an unsigned number.
pub fn bits_of_i64(n: i64) -> (bits: u64)
    ensures
        bits == unsigned_of(n as int, 0x1_0000_0000_0000_0000),
{
    if n >= 0 {
        n as u64
    } else {
        u64::MAX - (-(n + 1)) as u64
    }
}

/// The number whose bits in two's complement are `bits`.
pub fn i64_of_bits(bits: u64) -> (n: i64)
    ensures
        n == signed_of(bits as nat, 0x1_0000_0000_0000_0000),
{
    if bits <= i64::MAX as u64 {
        bits as i64
    } else {
        -((u64::MAX - bits) as i64) - 1
    }
}

/// The bits of `n` in two's complement, as an unsigned number.
pub fn bits_of_i32(n: i32) -> (bits: u32)
    ensures
        bits == unsigned_of(n as int, 0x1_0000_0000),
{
    if n >= 0 {
        n as u32
    } else {
        u32::MAX - (-(n + 1)) as u32
    }
}

/// The number whose bits in two's complement are `bits`.
pub fn i32_of_bits(bits: u32) -> (n: i32)
    ensures
        n == signed_of(bits as nat, 0x1_0000_0000),
{
    if bits <= i32::MAX as u32 {
        bits as i32
    } else {
        -((u32::MAX - bits) as i32) - 1
    }
}

/// The bits of `n` in two's complement, as an unsigned number.
pub fn bits_of_i16(n: i16) -> (bits: u16)
    ensures
        bits == unsigned_of(n as int, 0x1_0000),
{
    if n >= 0 {
        n as u16
    } else {
        u16::MAX - (-(n + 1)) as u16
    }
}

/// The number whose bits in two's complement are `bits`.
pub fn i16_of_bits(bits: u16) -> (n: i16)
    ensures
        n == signed_of(bits as nat, 0x1_0000),
{
    if bits <= i16::MAX as u16 {
        bits as i16
    } else {
        -((u16::MAX - bits) as i16) - 1
    }
}

} // verus!
