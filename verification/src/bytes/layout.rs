//! How numbers, intervals, byte strings and UUIDs are laid out, place by place.

use vstd::arithmetic::power::pow;
use vstd::prelude::*;

use crate::bytea;
use crate::bytes::{self, be_bytes, be_nat, le_bytes, le_nat};
use crate::interval::{self, Interval};
use crate::uuid;

verus! {

/// Written most significant byte first, the byte at each place counts the power of 256
/// that as many bytes as follow it make up.
pub proof fn big_ends_come_first(n: nat, len: nat, i: int)
    requires
        0 <= i < len,
    ensures
        be_bytes(n, len).len() == len,
        be_bytes(n, len)[i] as int == (n as int / pow(256, (len - 1 - i) as nat)) % 256,
        le_bytes(n, len).len() == len,
        le_bytes(n, len)[i] as int == (n as int / pow(256, i as nat)) % 256,
    decreases len,
{
    reveal(pow);
    let prior = (len - 1) as nat;
    lemma_lengths(n, len);
    lemma_lengths(n / 256, prior);
    if i < len - 1 {
        big_ends_come_first(n / 256, prior, i);
        lemma_divide(n, (prior - 1 - i) as nat);
        assert((prior - 1 - i) as nat + 1 == (len - 1 - i) as nat);
        assert(be_bytes(n, len)[i] == be_bytes(n / 256, prior)[i]);
    } else {
        assert((len - 1 - i) as nat == 0);
        assert(pow(256, 0) == 1);
        assert(n as int / 1 == n);
        assert(be_bytes(n, len)[i] == (n % 256) as u8);
    }
    if i > 0 {
        big_ends_come_first(n / 256, prior, i - 1);
        lemma_divide(n, (i - 1) as nat);
        assert(le_bytes(n, len)[i] == le_bytes(n / 256, prior)[i - 1]);
    } else {
        assert(pow(256, 0) == 1);
        assert(le_bytes(n, len)[0] == (n % 256) as u8);
    }
}

proof fn lemma_lengths(n: nat, len: nat)
    ensures
        be_bytes(n, len).len() == len,
        le_bytes(n, len).len() == len,
    decreases len,
{
    if len > 0 {
        lemma_lengths(n / 256, (len - 1) as nat);
    }
}

proof fn lemma_divide(n: nat, k: nat)
    ensures
        (n / 256) as int / pow(256, k) == n as int / pow(256, k + 1),
{
    reveal(pow);
    vstd::arithmetic::power::lemma_pow_positive(256, k);
    assert(pow(256, k + 1) == 256 * pow(256, k));
    vstd::arithmetic::div_mod::lemma_div_denominator(n as int, 256, pow(256, k));
}

/// Read most significant byte first, a byte more at the end multiplies the number by 256
/// and adds the byte; read least significant byte first, a byte more at the beginning
/// does.
pub proof fn further_bytes_count_the_rest(bytes: Seq<u8>, byte: u8)
    ensures
        be_nat(Seq::empty()) == 0,
        be_nat(bytes.push(byte)) == be_nat(bytes) * 256 + byte,
        le_nat(Seq::empty()) == 0,
        le_nat(seq![byte] + bytes) == le_nat(bytes) * 256 + byte,
{
    assert(bytes.push(byte).drop_last() =~= bytes);
    assert((seq![byte] + bytes).drop_first() =~= bytes);
}

/// A negative number has the bits of the number that is larger by the number of bit
/// patterns; a number that is not negative has its own.
pub proof fn negative_numbers_wrap_around(n: i64, m: i32)
    ensures
        bytes::unsigned_of(n as int, 0x1_0000_0000_0000_0000) == if n < 0 {
            n + 0x1_0000_0000_0000_0000
        } else {
            n as int
        },
        bytes::unsigned_of(m as int, 0x1_0000_0000) == if m < 0 {
            m + 0x1_0000_0000
        } else {
            m as int
        },
{
}

/// An interval takes sixteen bytes on the wire: eight for its microseconds, four for its
/// days and four for its months, each most significant byte first and in two's
/// complement.
pub proof fn intervals_are_laid_out_in_order(interval: Interval)
    ensures
        ({
            let wire = interval::pg_binary(interval);
            let micros = be_nat(wire.subrange(0, 8)) as int;
            let days = be_nat(wire.subrange(8, 12)) as int;
            let months = be_nat(wire.subrange(12, 16)) as int;
            &&& wire.len() == 16
            &&& micros == interval.micros || micros == interval.micros + 0x1_0000_0000_0000_0000
            &&& days == interval.days || days == interval.days + 0x1_0000_0000
            &&& months == interval.months || months == interval.months + 0x1_0000_0000
        }),
{
    let wire = interval::pg_binary(interval);
    let a = bytes::unsigned_of(interval.micros as int, 0x1_0000_0000_0000_0000);
    let b = bytes::unsigned_of(interval.days as int, 0x1_0000_0000);
    let c = bytes::unsigned_of(interval.months as int, 0x1_0000_0000);
    bytes::lemma_pow256();
    bytes::be_bytes_round_trip(a, 8);
    bytes::be_bytes_round_trip(b, 4);
    bytes::be_bytes_round_trip(c, 4);
    assert(wire.subrange(0, 8) =~= be_bytes(a, 8));
    assert(wire.subrange(8, 12) =~= be_bytes(b, 4));
    assert(wire.subrange(12, 16) =~= be_bytes(c, 4));
}

/// A byte string is written as a backslash, an `x` and two hex digits for each byte, the
/// upper four bits first: `0` to `9` for the values below ten, and `a` to `f` above.
pub proof fn bytes_are_written_in_hex(data: Seq<u8>, i: int, high: int, low: int)
    requires
        0 <= i < data.len(),
        0 <= high < 16,
        0 <= low < 16,
        data[i] == 16 * high + low,
    ensures
        ({
            let shown = bytea::hex_text(data);
            let code = |n: int|
                if n < 10 {
                    48 + n
                } else {
                    97 + n - 10
                };
            &&& shown.len() == 2 + 2 * data.len()
            &&& shown[0] == '\\' && shown[1] == 'x'
            &&& shown[2 + 2 * i] as int == code(high)
            &&& shown[3 + 2 * i] as int == code(low)
        }),
{
    assert((2 * i) / 2 == i && (2 * i) % 2 == 0);
    assert((2 * i + 1) / 2 == i && (2 * i + 1) % 2 == 1);
    assert(bytea::hex_text(data)[2 + 2 * i] == bytea::hex_digits(data)[2 * i]);
    assert(bytea::hex_text(data)[3 + 2 * i] == bytea::hex_digits(data)[2 * i + 1]);
}

/// A UUID is written as its sixteen bytes in hex, in five groups of eight, four, four,
/// four and twelve digits with hyphens between them.
pub proof fn uuids_are_written_in_groups(data: Seq<u8>)
    requires
        data.len() == 16,
    ensures
        ({
            let hex = bytea::hex_digits(data);
            uuid::uuid_text(data) == hex.subrange(0, 8) + seq!['-'] + hex.subrange(8, 12) + seq![
                '-',
            ] + hex.subrange(12, 16) + seq!['-'] + hex.subrange(16, 20) + seq!['-']
                + hex.subrange(20, 32)
        }),
{
    let hex = bytea::hex_digits(data);
    assert(uuid::uuid_prefix(data, 0) =~= Seq::<char>::empty());
    lemma_group(data, 0, 4, Seq::empty());
    let a = hex.subrange(0, 8);
    lemma_hyphen(data, 4, a);
    lemma_group(data, 5, 6, a + seq!['-'] + hex.subrange(8, 10));
    let b = a + seq!['-'] + hex.subrange(8, 12);
    assert(a + seq!['-'] + hex.subrange(8, 10) + hex.subrange(10, 12) =~= b);
    lemma_hyphen(data, 6, b);
    lemma_group(data, 7, 8, b + seq!['-'] + hex.subrange(12, 14));
    let c = b + seq!['-'] + hex.subrange(12, 16);
    assert(b + seq!['-'] + hex.subrange(12, 14) + hex.subrange(14, 16) =~= c);
    lemma_hyphen(data, 8, c);
    lemma_group(data, 9, 10, c + seq!['-'] + hex.subrange(16, 18));
    let d = c + seq!['-'] + hex.subrange(16, 20);
    assert(c + seq!['-'] + hex.subrange(16, 18) + hex.subrange(18, 20) =~= d);
    lemma_hyphen(data, 10, d);
    lemma_group(data, 11, 16, d + seq!['-'] + hex.subrange(20, 22));
    assert(d + seq!['-'] + hex.subrange(20, 22) + hex.subrange(22, 32) =~= d + seq!['-']
        + hex.subrange(20, 32));
    assert(Seq::<char>::empty() + a =~= a);
}

proof fn lemma_hyphen(data: Seq<u8>, count: nat, before: Seq<char>)
    requires
        data.len() == 16,
        count == 4 || count == 6 || count == 8 || count == 10,
        uuid::uuid_prefix(data, count) == before,
    ensures
        uuid::uuid_prefix(data, count + 1) == before + seq!['-'] + bytea::hex_digits(data).subrange(
            2 * count as int,
            2 * count as int + 2,
        ),
{
    let hex = bytea::hex_digits(data);
    let k = 2 * count as int;
    assert(k / 2 == count && k % 2 == 0 && (k + 1) / 2 == count && (k + 1) % 2 == 1);
    assert(uuid::uuid_prefix(data, count + 1) =~= before + seq!['-'] + hex.subrange(k, k + 2));
}

proof fn lemma_group(data: Seq<u8>, start: nat, end: nat, before: Seq<char>)
    requires
        data.len() == 16,
        start <= end <= 16,
        uuid::uuid_prefix(data, start) == before,
        forall|i: int| start <= i < end ==> !(#[trigger] uuid::hyphen_before(i)),
    ensures
        uuid::uuid_prefix(data, end) == before + bytea::hex_digits(data).subrange(
            2 * start as int,
            2 * end as int,
        ),
    decreases end - start,
{
    let hex = bytea::hex_digits(data);
    if start == end {
        assert(before + hex.subrange(2 * start as int, 2 * end as int) =~= before);
    } else {
        let last = (end - 1) as nat;
        lemma_group(data, start, last, before);
        let k = 2 * last as int;
        assert(k / 2 == last && k % 2 == 0 && (k + 1) / 2 == last && (k + 1) % 2 == 1);
        assert(!uuid::hyphen_before(last as int));
        assert(uuid::uuid_prefix(data, end) =~= before + hex.subrange(
            2 * start as int,
            2 * end as int,
        ));
    }
}

} // verus!
