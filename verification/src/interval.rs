//! `INTERVAL` values. PostgreSQL stores an interval as three independent
//! components - months, days, and microseconds - because a month is not a fixed
//! number of days and a day is not always 24 hours (the distinction matters when
//! adding an interval to a date/timestamp).
//!
//! For comparison, ordering, and hashing PostgreSQL collapses an interval to a
//! single canonical estimate (a month = 30 days, a day = 24 hours), so e.g.
//! `INTERVAL '1 mon'` and `INTERVAL '30 days'` compare *equal*. [`Interval`]
//! provides that total order with a consistent `Hash` while still storing the
//! exact components for display and arithmetic.

use core::cmp::Ordering;
use core::hash::{Hash, Hasher};
use vstd::prelude::*;

use crate::bytes;
use crate::order::{self, Order};

pub use crate::interval_text::{format_interval, parse_interval};

verus! {

pub(crate) const MICROS_PER_SEC: i64 = 1_000_000;

/// An `INTERVAL`: months, days, and microseconds kept separate (PostgreSQL's
/// model). Compared/hashed by the canonical estimate (see module docs).
#[derive(Clone, Copy, Debug)]
pub struct Interval {
    pub months: i32,
    pub days: i32,
    pub micros: i64,
}

impl Interval {
    /// The canonical comparison value in microseconds (month = 30 days, day = 24
    /// hours).
    pub open spec fn key(self) -> int {
        self.months * 30 * 86_400_000_000 + self.days * 86_400_000_000 + self.micros
    }

    pub fn new(months: i32, days: i32, micros: i64) -> (interval: Self)
        ensures
            interval == (Interval { months, days, micros }),
    {
        Interval { months, days, micros }
    }

    /// The empty interval.
    pub fn zero() -> (interval: Self)
        ensures
            interval == (Interval { months: 0, days: 0, micros: 0 }),
    {
        Interval { months: 0, days: 0, micros: 0 }
    }

    /// The canonical comparison value, as `i128` so the products cannot overflow.
    pub(crate) fn estimate(&self) -> (estimate: i128)
        ensures
            estimate == self.key(),
    {
        self.months as i128 * 30 * 86_400_000_000 + self.days as i128 * 86_400_000_000
            + self.micros as i128
    }

    /// The order of the canonical estimates.
    pub fn order(&self, other: &Self) -> (order: Order)
        ensures
            order == order::int_order(self.key(), other.key()),
    {
        order::order_ints(self.estimate(), other.estimate())
    }

    /// A month counts for thirty days and a day for twenty-four hours.
    pub proof fn months_count_as_thirty_days(months: i32, days: i32, other_days: i32, micros: i64)
        requires
            other_days == days + 30 * months,
        ensures
            (Interval { months, days, micros }).key() == (Interval {
                months: 0,
                days: other_days,
                micros,
            }).key(),
    {
    }
}

impl PartialEq for Interval {
    fn eq(&self, other: &Self) -> (equal: bool) {
        self.estimate() == other.estimate()
    }
}

impl vstd::std_specs::cmp::PartialEqSpecImpl for Interval {
    open spec fn obeys_eq_spec() -> bool {
        true
    }

    open spec fn eq_spec(&self, other: &Self) -> bool {
        self.key() == other.key()
    }
}

impl Eq for Interval {

}

impl PartialOrd for Interval {
    fn partial_cmp(&self, other: &Self) -> (order: Option<Ordering>) {
        Some(order::to_std_order(self.order(other)))
    }
}

impl vstd::std_specs::cmp::PartialOrdSpecImpl for Interval {
    open spec fn obeys_partial_cmp_spec() -> bool {
        true
    }

    open spec fn partial_cmp_spec(&self, other: &Self) -> Option<Ordering> {
        Some(order::std_order(order::int_order(self.key(), other.key())))
    }
}

impl Hash for Interval {
    /// Equal intervals have equal estimates, so they hash alike.
    fn hash<H: Hasher>(&self, state: &mut H) {
        order::hash_key(self.estimate(), state);
    }
}

/// PostgreSQL's binary wire format: `int64` microseconds, then `int32` days,
/// then `int32` months (16 bytes, big-endian two's complement).
pub open spec fn pg_binary(interval: Interval) -> Seq<u8> {
    bytes::be_bytes(bytes::unsigned_of(interval.micros as int, 0x1_0000_0000_0000_0000), 8)
        + bytes::be_bytes(bytes::unsigned_of(interval.days as int, 0x1_0000_0000), 4)
        + bytes::be_bytes(bytes::unsigned_of(interval.months as int, 0x1_0000_0000), 4)
}

/// The interval that sixteen bytes of the wire format hold.
pub open spec fn of_pg_binary(bytes: Seq<u8>) -> Option<Interval> {
    if bytes.len() != 16 {
        None
    } else {
        Some(
            Interval {
                micros: bytes::signed_of(
                    bytes::be_nat(bytes.subrange(0, 8)),
                    0x1_0000_0000_0000_0000,
                ) as i64,
                days: bytes::signed_of(bytes::be_nat(bytes.subrange(8, 12)), 0x1_0000_0000) as i32,
                months: bytes::signed_of(
                    bytes::be_nat(bytes.subrange(12, 16)),
                    0x1_0000_0000,
                ) as i32,
            },
        )
    }
}

/// Decoding the wire format gives back the exact components that were encoded.
pub proof fn pg_binary_round_trip(interval: Interval)
    ensures
        of_pg_binary(pg_binary(interval)) == Some(interval),
{
    let micros = bytes::unsigned_of(interval.micros as int, 0x1_0000_0000_0000_0000);
    let days = bytes::unsigned_of(interval.days as int, 0x1_0000_0000);
    let months = bytes::unsigned_of(interval.months as int, 0x1_0000_0000);
    bytes::lemma_pow256();
    bytes::be_bytes_round_trip(micros, 8);
    bytes::be_bytes_round_trip(days, 4);
    bytes::be_bytes_round_trip(months, 4);
    bytes::signed_round_trip(interval.micros as int, 0x1_0000_0000_0000_0000);
    bytes::signed_round_trip(interval.days as int, 0x1_0000_0000);
    bytes::signed_round_trip(interval.months as int, 0x1_0000_0000);
    let encoded = pg_binary(interval);
    assert(encoded.subrange(0, 8) == bytes::be_bytes(micros, 8));
    assert(encoded.subrange(8, 12) == bytes::be_bytes(days, 4));
    assert(encoded.subrange(12, 16) == bytes::be_bytes(months, 4));
}

/// Encode an interval in PostgreSQL's binary wire format: `int64` microseconds,
/// then `int32` days, then `int32` months (16 bytes, big-endian).
pub fn to_pg_binary(interval: &Interval) -> (encoded: [u8; 16])
    ensures
        encoded@ == pg_binary(*interval),
{
    let mut buffer: Vec<u8> = Vec::new();
    bytes::push_be(&mut buffer, bytes::bits_of_i64(interval.micros), 8);
    bytes::push_be(&mut buffer, bytes::bits_of_i32(interval.days) as u64, 4);
    bytes::push_be(&mut buffer, bytes::bits_of_i32(interval.months) as u64, 4);
    proof {
        bytes::lemma_pow256();
        bytes::be_bytes_round_trip(
            bytes::unsigned_of(interval.micros as int, 0x1_0000_0000_0000_0000),
            8,
        );
        bytes::be_bytes_round_trip(bytes::unsigned_of(interval.days as int, 0x1_0000_0000), 4);
        bytes::be_bytes_round_trip(bytes::unsigned_of(interval.months as int, 0x1_0000_0000), 4);
        assert(buffer@ == pg_binary(*interval));
    }
    let mut encoded: [u8; 16] = [0;16];
    let mut i: usize = 0;
    while i < 16
        invariant
            i <= 16,
            buffer@.len() == 16,
            forall|j: int| 0 <= j < i ==> encoded@[j] == buffer@[j],
        decreases 16 - i,
    {
        encoded[i] = buffer[i];
        i += 1;
    }
    assert(encoded@ == buffer@);
    encoded
}

/// Decode PostgreSQL's binary interval format (see [`to_pg_binary`]).
pub fn from_pg_binary(encoded: &[u8]) -> (interval: Option<Interval>)
    ensures
        interval == of_pg_binary(encoded@),
{
    if encoded.len() != 16 {
        return None;
    }
    proof {
        bytes::lemma_pow256();
    }
    let micros: u64 = bytes::read_be(encoded, 0, 8);
    let days: u32 = bytes::read_be(encoded, 8, 4) as u32;
    let months: u32 = bytes::read_be(encoded, 12, 4) as u32;
    Some(
        Interval {
            micros: bytes::i64_of_bits(micros),
            days: bytes::i32_of_bits(days),
            months: bytes::i32_of_bits(months),
        },
    )
}

} // verus!
