//! PostgreSQL's binary `numeric` wire format (base-10000 "NBASE" digit groups).

use vstd::prelude::*;

use crate::bytes;
use crate::numeric::arithmetic;
use crate::numeric::{self, Decimal, DecimalView};

verus! {

pub const NUMERIC_POS: u16 = 0x0000;

pub const NUMERIC_NEG: u16 = 0x4000;

/// The base-10000 digits of a number, most significant first.
pub open spec fn groups_of(n: nat) -> Seq<u16>
    decreases n,
{
    if n == 0 {
        Seq::empty()
    } else {
        groups_of(n / 10_000).push((n % 10_000) as u16)
    }
}

/// The number with the given base-10000 digits.
pub open spec fn grouped(groups: Seq<u16>) -> nat
    decreases groups.len(),
{
    if groups.len() == 0 {
        0
    } else {
        grouped(groups.drop_last()) * 10_000 + groups.last() as nat
    }
}

/// Groups without the zeros at their end.
pub open spec fn without_zero_groups(groups: Seq<u16>) -> Seq<u16>
    decreases groups.len(),
{
    if groups.len() > 0 && groups.last() == 0 {
        without_zero_groups(groups.drop_last())
    } else {
        groups
    }
}

/// The groups, two bytes each.
pub open spec fn group_bytes(groups: Seq<u16>) -> Seq<u8>
    decreases groups.len(),
{
    if groups.len() == 0 {
        Seq::empty()
    } else {
        group_bytes(groups.drop_last()) + bytes::be_bytes(groups.last() as nat, 2)
    }
}

/// How many groups the digits after the decimal point take.
pub open spec fn fraction_groups(scale: nat) -> nat {
    (scale + 3) / 4
}

/// The magnitude with zeros appended, so that the decimal point falls between groups.
pub open spec fn padded(value: DecimalView) -> nat {
    value.magnitude * numeric::pow10((4 * fraction_groups(value.scale) - value.scale) as nat)
}

/// The exponent of the most significant group.
pub open spec fn group_weight(value: DecimalView) -> int {
    if value.magnitude == 0 {
        0
    } else {
        groups_of(padded(value)).len() - fraction_groups(value.scale) - 1
    }
}

/// A decimal in the binary format: the number of groups, the weight of the first one,
/// the sign, the scale, and the groups.
pub open spec fn pg_bytes(value: DecimalView) -> Seq<u8> {
    let groups = without_zero_groups(groups_of(padded(value)));
    let sign = if value.negative && value.magnitude != 0 {
        NUMERIC_NEG as nat
    } else {
        NUMERIC_POS as nat
    };
    bytes::be_bytes(groups.len(), 2) + bytes::be_bytes(
        bytes::unsigned_of(group_weight(value), 0x1_0000),
        2,
    ) + bytes::be_bytes(sign, 2) + bytes::be_bytes(value.scale, 2) + group_bytes(groups)
}

proof fn lemma_groups(n: nat)
    ensures
        grouped(groups_of(n)) == n,
        n > 0 ==> groups_of(n).len() > 0 && groups_of(n)[0] != 0,
        forall|i: int| 0 <= i < groups_of(n).len() ==> #[trigger] groups_of(n)[i] < 10_000,
    decreases n,
{
    if n > 0 {
        lemma_groups(n / 10_000);
        let front = groups_of(n / 10_000);
        assert(groups_of(n).drop_last() == front);
        assert forall|i: int| 0 <= i < groups_of(n).len() implies #[trigger] groups_of(n)[i]
            < 10_000 by {
            if i < front.len() {
                assert(groups_of(n)[i] == front[i]);
            }
        }
        if n >= 10_000 {
            assert(groups_of(n)[0] == front[0]);
        }
    }
}

/// A number below a power of 10000 has at most that many groups.
proof fn lemma_group_count(n: nat, count: nat)
    requires
        n < numeric::pow10(4 * count),
    ensures
        groups_of(n).len() <= count,
    decreases count,
{
    if n > 0 {
        if count == 0 {
            assert(numeric::pow10(0) == 1);
        } else {
            numeric::lemma_pow10_values();
            numeric::lemma_pow10_add(4, (4 * (count - 1)) as nat);
            assert(4 + (4 * (count - 1)) as nat == 4 * count);
            lemma_group_count(n / 10_000, (count - 1) as nat);
        }
    }
}

/// The base-10000 digits of a number, most significant first.
fn split_groups(n: u128) -> (groups: Vec<u16>)
    ensures
        groups@ == groups_of(n as nat),
    decreases n,
{
    if n == 0 {
        return Vec::new();
    }
    let mut groups: Vec<u16> = split_groups(n / 10_000);
    groups.push((n % 10_000) as u16);
    groups
}

fn trim_groups(groups: Vec<u16>) -> (kept: Vec<u16>)
    ensures
        kept@ == without_zero_groups(groups@),
        kept@.len() <= groups@.len(),
{
    let mut kept: Vec<u16> = groups;
    while kept.len() > 0 && kept[kept.len() - 1] == 0
        invariant
            without_zero_groups(kept@) == without_zero_groups(groups@),
            kept@.len() <= groups@.len(),
        decreases kept@.len(),
    {
        let ghost before = kept@;
        let _ = kept.pop();
        assert(kept@ == before.drop_last());
    }
    kept
}

/// Encode a decimal in PostgreSQL's binary `numeric` format:
/// `int16 ndigits, int16 weight, uint16 sign, uint16 dscale, int16[ndigits]`
/// where each digit is a base-10000 group, most significant first.
pub fn to_pg_binary(value: &Decimal) -> (out: Vec<u8>)
    ensures
        out@ == pg_bytes(value@),
{
    let scale: u32 = value.scale();
    let magnitude: u128 = value.magnitude();
    let fraction: u32 = (scale + 3) / 4;
    let pad: u128 = numeric::power_of_ten(4 * fraction - scale);
    proof {
        numeric::lemma_pow10_values();
        numeric::lemma_pow10_monotonic((4 * fraction - scale) as nat, 3);
        assert(0 <= magnitude * pad <= numeric::MAX_MAGNITUDE * 1_000) by (nonlinear_arith)
            requires
                0 <= magnitude <= numeric::MAX_MAGNITUDE,
                0 < pad <= 1_000,
        ;
    }
    let number: u128 = magnitude * pad;
    let groups: Vec<u16> = split_groups(number);
    proof {
        numeric::lemma_pow10_add(4, 28);
        assert(number < numeric::pow10(32));
        lemma_group_count(number as nat, 8);
    }
    let weight: i16 = if magnitude == 0 {
        0
    } else {
        groups.len() as i16 - fraction as i16 - 1
    };
    let sign: u16 = if value.is_sign_negative() && magnitude != 0 {
        NUMERIC_NEG
    } else {
        NUMERIC_POS
    };
    let kept: Vec<u16> = trim_groups(groups);
    let mut out: Vec<u8> = Vec::new();
    proof {
        bytes::lemma_pow256();
    }
    bytes::push_be(&mut out, kept.len() as u64, 2);
    bytes::push_be(&mut out, bytes::bits_of_i16(weight) as u64, 2);
    bytes::push_be(&mut out, sign as u64, 2);
    bytes::push_be(&mut out, scale as u64, 2);
    let ghost head = out@;
    let mut i: usize = 0;
    assert(out@ =~= head + group_bytes(kept@.take(0)));
    while i < kept.len()
        invariant
            i <= kept@.len(),
            out@ == head + group_bytes(kept@.take(i as int)),
            bytes::pow256(2) == 0x1_0000,
        decreases kept@.len() - i,
    {
        bytes::push_be(&mut out, kept[i] as u64, 2);
        i += 1;
        proof {
            assert(kept@.take(i as int).drop_last() == kept@.take(i - 1));
            assert(out@ =~= head + group_bytes(kept@.take(i as int)));
        }
    }
    assert(kept@.take(i as int) == kept@);
    assert(out@ =~= pg_bytes(value@));
    out
}

/// The 16-bit number that two of the bytes hold, without its sign.
pub open spec fn unsigned_at(bytes: Seq<u8>, start: int) -> nat {
    bytes::be_nat(bytes.subrange(start, start + 2))
}

/// The 16-bit number that two of the bytes hold.
pub open spec fn signed_at(bytes: Seq<u8>, start: int) -> int {
    bytes::signed_of(unsigned_at(bytes, start), 0x1_0000)
}

/// A group times ten to a power, if that fits.
pub open spec fn group_term(group: int, exponent: int) -> Option<DecimalView> {
    if exponent < -numeric::MAX_SCALE || exponent > numeric::MAX_SCALE {
        None
    } else if group == 0 {
        Some(DecimalView::whole(0))
    } else if exponent < 0 {
        Some(
            DecimalView { negative: false, magnitude: group as nat, scale: (-exponent) as nat },
        )
    } else if group * numeric::pow10(exponent as nat) <= numeric::MAX_MAGNITUDE {
        Some(DecimalView::whole(group * numeric::pow10(exponent as nat)))
    } else {
        None
    }
}

/// `value` with the groups from `index` on added to it.
pub open spec fn groups_added(bytes: Seq<u8>, index: nat, count: nat, value: DecimalView) -> Option<
    DecimalView,
>
    decreases count - index,
{
    if index >= count {
        Some(value)
    } else {
        let group = signed_at(bytes, 8 + 2 * index as int);
        match group_term(group, 4 * (signed_at(bytes, 2) - index)) {
            Some(term) if 0 <= group < 10_000 => match arithmetic::decimal_sum(value, term) {
                Some(sum) => groups_added(bytes, index + 1, count, sum),
                None => None,
            },
            _ => None,
        }
    }
}

/// The decimal that bytes in the binary format hold. A scale beyond the greatest that
/// a decimal can have counts as that.
pub open spec fn decimal_of_pg_bytes(bytes: Seq<u8>) -> Option<DecimalView> {
    let count = signed_at(bytes, 0);
    let sign = unsigned_at(bytes, 4);
    let scale = unsigned_at(bytes, 6);
    let kept = if scale <= numeric::MAX_SCALE {
        scale
    } else {
        numeric::MAX_SCALE as nat
    };
    if bytes.len() < 8 || (sign != NUMERIC_POS && sign != NUMERIC_NEG) || count < 0 || bytes.len()
        != 8 + 2 * count {
        None
    } else {
        match groups_added(bytes, 0, count as nat, DecimalView::whole(0)) {
            Some(value) => {
                let rescaled = value.rescaled(kept);
                Some(
                    DecimalView {
                        negative: sign == NUMERIC_NEG || rescaled.negative,
                        ..rescaled
                    },
                )
            },
            None => None,
        }
    }
}

fn unsigned_field(input: &[u8], start: usize) -> (n: u16)
    requires
        start + 2 <= input@.len(),
    ensures
        n == unsigned_at(input@, start as int),
{
    proof {
        bytes::lemma_pow256();
        bytes::lemma_be_nat_bound(input@.subrange(start as int, start + 2));
    }
    bytes::read_be(input, start, 2) as u16
}

fn signed_field(input: &[u8], start: usize) -> (n: i16)
    requires
        start + 2 <= input@.len(),
    ensures
        n == signed_at(input@, start as int),
{
    bytes::i16_of_bits(unsigned_field(input, start))
}

/// `10^exp` as a `Decimal`, or `None` if it does not fit.
fn pow10(exp: i32) -> (power: Option<Decimal>)
    ensures
        match power {
            Some(power) => -28 <= exp <= 28 && power@ == if exp >= 0 {
                DecimalView::whole(numeric::pow10(exp as nat) as int)
            } else {
                DecimalView { negative: false, magnitude: 1, scale: (-exp) as nat }
            },
            None => exp < -28 || exp > 28,
        },
{
    if exp < -28 || exp > 28 {
        None
    } else if exp >= 0 {
        Some(Decimal::of_parts(false, numeric::power_of_ten(exp as u32), 0))
    } else {
        Some(Decimal::of_parts(false, 1, (-exp) as u32))
    }
}

fn term_of_group(group: i16, exponent: i32) -> (term: Option<Decimal>)
    requires
        0 <= group < 10_000,
    ensures
        match term {
            Some(term) => group_term(group as int, exponent as int) == Some(term@),
            None => group_term(group as int, exponent as int) is None,
        },
{
    let power: Decimal = match pow10(exponent) {
        Some(power) => power,
        None => return None,
    };
    let digits: Decimal = Decimal::of_parts(false, group as u128, 0);
    proof {
        if exponent >= 0 {
            numeric::lemma_pow10_monotonic(exponent as nat, 28);
        }
        assert(group * 1 == group);
        assert(power@.magnitude > 0);
    }
    arithmetic::checked_mul(&digits, &power)
}

/// The fields of the binary form of a number are at their places.
spec fn fields_hold(value: DecimalView, input: Seq<u8>) -> bool {
    let kept = kept_groups(value);
    &&& input.len() == 8 + 2 * kept.len()
    &&& signed_at(input, 0) == kept.len()
    &&& signed_at(input, 2) == group_weight(value)
    &&& unsigned_at(input, 4) == if value.negative && value.magnitude != 0 {
        NUMERIC_NEG
    } else {
        NUMERIC_POS
    }
    &&& unsigned_at(input, 6) == value.scale
    &&& forall|i: int| 0 <= i < kept.len() ==> #[trigger] signed_at(input, 8 + 2 * i) == kept[i]
    &&& forall|i: int| 0 <= i < kept.len() ==> #[trigger] kept[i] < 10_000
}

/// The next group is a term, and the exact sum with it fits.
spec fn group_fits(value: DecimalView, index: int, sum: DecimalView) -> bool {
    let group = kept_groups(value)[index] as int;
    let term = group_term(group, 4 * (group_weight(value) - index));
    &&& 0 <= group < 10_000
    &&& term is Some
    &&& !sum.negative
    &&& !term->0.negative
    &&& term->0.magnitude > 0 && sum.magnitude > 0 ==> sum.units(sum.common_scale(term->0))
        + term->0.units(sum.common_scale(term->0)) <= numeric::MAX_MAGNITUDE
}

/// Decode PostgreSQL's binary `numeric` format. Returns `None` for `NaN`,
/// malformed input, or a magnitude that does not fit `Decimal`. The binary form of a
/// decimal gives back that decimal, if its magnitude fits when padded to whole groups.
pub fn from_pg_binary(input: &[u8]) -> (value: Option<Decimal>)
    ensures
        match value {
            Some(value) => decimal_of_pg_bytes(input@) == Some(value@),
            None => decimal_of_pg_bytes(input@) is None,
        },
        forall|encoded: DecimalView|
            reads_back(encoded) && input@ == #[trigger] pg_bytes(encoded) ==> value is Some
                && value->0@ == encoded,
{
    proof {
        assert forall|encoded: DecimalView|
            reads_back(encoded) && input@ == #[trigger] pg_bytes(encoded) implies fields_hold(
            encoded,
            input@,
        ) by {
            lemma_fields(encoded);
            lemma_group_bounds(encoded);
        }
        assert forall|encoded: DecimalView|
            reads_back(encoded) && input@ == #[trigger] pg_bytes(encoded) implies summed(
            encoded,
            0,
            DecimalView::whole(0),
        ) by {
            lemma_no_groups(encoded);
        }
    }
    if input.len() < 8 {
        return None;
    }
    let count: i16 = signed_field(input, 0);
    let weight: i32 = signed_field(input, 2) as i32;
    let sign: u16 = unsigned_field(input, 4);
    let scale: u16 = unsigned_field(input, 6);
    if sign != NUMERIC_POS && sign != NUMERIC_NEG {
        return None;
    }
    if count < 0 || input.len() != 8 + 2 * count as usize {
        return None;
    }
    let count: usize = count as usize;
    let mut value: Decimal = Decimal::of_parts(false, 0, 0);
    let ghost whole = groups_added(input@, 0, count as nat, DecimalView::whole(0));
    let mut i: usize = 0;
    while i < count
        invariant
            i <= count <= 0x7fff,
            input@.len() == 8 + 2 * count,
            weight == signed_at(input@, 2),
            -0x8000 <= weight <= 0x7fff,
            count == signed_at(input@, 0),
            sign == unsigned_at(input@, 4),
            sign == NUMERIC_POS || sign == NUMERIC_NEG,
            whole == groups_added(input@, 0, count as nat, DecimalView::whole(0)),
            whole == groups_added(input@, i as nat, count as nat, value@),
            forall|encoded: DecimalView|
                reads_back(encoded) && input@ == #[trigger] pg_bytes(encoded) ==> fields_hold(
                    encoded,
                    input@,
                ) && summed(encoded, i as int, value@),
        decreases count - i,
    {
        let ghost before = value@;
        proof {
            assert forall|encoded: DecimalView|
                reads_back(encoded) && input@ == #[trigger] pg_bytes(encoded) implies group_fits(
                encoded,
                i as int,
                before,
            ) by {
                assert(fields_hold(encoded, input@));
                lemma_group_fits(encoded, i as int, before);
                assert(signed_at(input@, 8 + 2 * i as int) == kept_groups(encoded)[i as int]);
            }
        }
        let group: i16 = signed_field(input, 8 + 2 * i);
        if group < 0 || group >= 10_000 {
            return None;
        }
        let term: Decimal = match term_of_group(group, 4 * (weight - i as i32)) {
            Some(term) => term,
            None => return None,
        };
        value = match arithmetic::checked_add(&value, &term) {
            Some(sum) => sum,
            None => return None,
        };
        proof {
            assert forall|encoded: DecimalView|
                reads_back(encoded) && input@ == #[trigger] pg_bytes(encoded) implies summed(
                encoded,
                i + 1,
                value@,
            ) by {
                assert(group_fits(encoded, i as int, before));
                assert(fields_hold(encoded, input@));
                assert(signed_at(input@, 8 + 2 * i as int) == kept_groups(encoded)[i as int]);
                lemma_sum_step(encoded, i as int, before, value@);
            }
        }
        i += 1;
    }
    proof {
        assert forall|encoded: DecimalView|
            reads_back(encoded) && input@ == #[trigger] pg_bytes(encoded) implies value@.rescaled(
            encoded.scale,
        ) == (DecimalView { negative: false, ..encoded }) by {
            assert(fields_hold(encoded, input@));
            lemma_sum_rescaled(encoded, value@);
        }
    }
    let kept: u32 = if scale as u32 <= numeric::MAX_SCALE {
        scale as u32
    } else {
        numeric::MAX_SCALE
    };
    let rescaled: Decimal = arithmetic::rescale(&value, kept);
    let negative: bool = sign == NUMERIC_NEG || rescaled.is_sign_negative();
    Some(Decimal::of_parts(negative, rescaled.magnitude(), rescaled.scale()))
}

/// A decimal whose binary form is made without rounding: it is not zero with a minus
/// sign, and its magnitude fits when it is padded to whole groups.
pub open spec fn reads_back(value: DecimalView) -> bool {
    value.valid() && !value.is_negative_zero() && padded(value) <= numeric::MAX_MAGNITUDE
}

spec fn kept_groups(value: DecimalView) -> Seq<u16> {
    without_zero_groups(groups_of(padded(value)))
}

/// The power of ten, in units of the last place that any decimal can have, of the
/// group at `index`.
spec fn place(value: DecimalView, index: int) -> nat {
    numeric::pow10((28 + 4 * (group_weight(value) - index)) as nat)
}

/// What the first `index` groups are worth, in those units.
spec fn partial(value: DecimalView, index: int) -> nat {
    grouped(kept_groups(value).take(index)) * place(value, index - 1)
}

proof fn lemma_trimmed_groups(groups: Seq<u16>)
    ensures
        ({
            let kept = without_zero_groups(groups);
            &&& kept.len() <= groups.len()
            &&& kept == groups.take(kept.len() as int)
            &&& grouped(groups) == grouped(kept) * numeric::pow10(4 * (groups.len() - kept.len()) as nat)
            &&& groups.len() > 0 && groups[0] != 0 ==> kept.len() > 0
        }),
    decreases groups.len(),
{
    let kept = without_zero_groups(groups);
    if groups.len() > 0 && groups.last() == 0 {
        let front = groups.drop_last();
        lemma_trimmed_groups(front);
        assert(kept == groups.take(kept.len() as int));
        numeric::lemma_pow10_values();
        let more = (front.len() - kept.len()) as nat;
        numeric::lemma_pow10_add(4, 4 * more);
        assert(4 + 4 * more == 4 * (more + 1));
        let a = grouped(kept) as int;
        let b = numeric::pow10(4 * more) as int;
        assert((a * b) * 10_000 == a * (10_000 * b)) by (nonlinear_arith);
    } else {
        assert(groups.take(groups.len() as int) == groups);
        assert(numeric::pow10(0) == 1);
        assert(grouped(groups) * 1 == grouped(groups));
    }
}

/// The padded magnitude has few groups, and the decimal point lies near them.
proof fn lemma_group_bounds(value: DecimalView)
    requires
        value.valid(),
    ensures
        ({
            let n = kept_groups(value).len();
            let all = groups_of(padded(value));
            &&& n <= all.len() <= 8
            &&& fraction_groups(value.scale) <= 7
            &&& -8 <= group_weight(value) <= 7
            &&& value.magnitude > 0 ==> n > 0 && kept_groups(value)[0] != 0
            &&& value.magnitude == 0 ==> n == 0
            &&& forall|i: int| 0 <= i < n ==> #[trigger] kept_groups(value)[i] < 10_000
            &&& group_weight(value) - n >= -(fraction_groups(value.scale) as int) - 1
        }),
{
    let pad = numeric::pow10((4 * fraction_groups(value.scale) - value.scale) as nat);
    let all = groups_of(padded(value));
    let kept = kept_groups(value);
    numeric::lemma_pow10_values();
    numeric::lemma_pow10_monotonic((4 * fraction_groups(value.scale) - value.scale) as nat, 3);
    assert(0 <= value.magnitude * pad <= numeric::MAX_MAGNITUDE * 1_000) by (nonlinear_arith)
        requires
            0 <= value.magnitude <= numeric::MAX_MAGNITUDE,
            0 < pad <= 1_000,
    ;
    assert(value.magnitude > 0 ==> value.magnitude * pad > 0) by (nonlinear_arith)
        requires
            pad > 0,
    ;
    assert(value.magnitude == 0 ==> value.magnitude * pad == 0) by (nonlinear_arith);
    numeric::lemma_pow10_add(4, 28);
    lemma_group_count(padded(value), 8);
    lemma_groups(padded(value));
    lemma_trimmed_groups(all);
    assert forall|i: int| 0 <= i < kept.len() implies #[trigger] kept[i] < 10_000 by {
        assert(kept[i] == all[i]);
    }
}

proof fn lemma_group_bytes(groups: Seq<u16>)
    ensures
        group_bytes(groups).len() == 2 * groups.len(),
        forall|i: int|
            0 <= i < groups.len() ==> #[trigger] unsigned_at(group_bytes(groups), 2 * i)
                == groups[i],
    decreases groups.len(),
{
    if groups.len() > 0 {
        let front = groups.drop_last();
        lemma_group_bytes(front);
        bytes::lemma_pow256();
        bytes::be_bytes_round_trip(groups.last() as nat, 2);
        let whole = group_bytes(groups);
        assert forall|i: int| 0 <= i < groups.len() implies #[trigger] unsigned_at(whole, 2 * i)
            == groups[i] by {
            if i < front.len() {
                assert(whole.subrange(2 * i, 2 * i + 2) == group_bytes(front).subrange(
                    2 * i,
                    2 * i + 2,
                ));
                assert(unsigned_at(group_bytes(front), 2 * i) == front[i]);
            } else {
                assert(whole.subrange(2 * i, 2 * i + 2) == bytes::be_bytes(
                    groups.last() as nat,
                    2,
                ));
            }
        }
    }
}

/// The fields of the binary form are found at their places.
proof fn lemma_fields(value: DecimalView)
    requires
        value.valid(),
    ensures
        ({
            let b = pg_bytes(value);
            let kept = kept_groups(value);
            &&& b.len() == 8 + 2 * kept.len()
            &&& signed_at(b, 0) == kept.len()
            &&& signed_at(b, 2) == group_weight(value)
            &&& unsigned_at(b, 4) == if value.negative && value.magnitude != 0 {
                NUMERIC_NEG
            } else {
                NUMERIC_POS
            }
            &&& unsigned_at(b, 6) == value.scale
            &&& forall|i: int|
                0 <= i < kept.len() ==> #[trigger] signed_at(b, 8 + 2 * i) == kept[i]
        }),
{
    let b = pg_bytes(value);
    let kept = kept_groups(value);
    let weight = bytes::unsigned_of(group_weight(value), 0x1_0000);
    let sign = if value.negative && value.magnitude != 0 {
        NUMERIC_NEG as nat
    } else {
        NUMERIC_POS as nat
    };
    lemma_group_bounds(value);
    lemma_group_bytes(kept);
    bytes::lemma_pow256();
    bytes::signed_round_trip(group_weight(value), 0x1_0000);
    bytes::be_bytes_round_trip(kept.len(), 2);
    bytes::be_bytes_round_trip(weight, 2);
    bytes::be_bytes_round_trip(sign, 2);
    bytes::be_bytes_round_trip(value.scale, 2);
    assert(b.subrange(0, 2) == bytes::be_bytes(kept.len(), 2));
    assert(b.subrange(2, 4) == bytes::be_bytes(weight, 2));
    assert(b.subrange(4, 6) == bytes::be_bytes(sign, 2));
    assert(b.subrange(6, 8) == bytes::be_bytes(value.scale, 2));
    assert forall|i: int| 0 <= i < kept.len() implies #[trigger] signed_at(b, 8 + 2 * i)
        == kept[i] by {
        assert(b.subrange(8 + 2 * i, 8 + 2 * i + 2) == group_bytes(kept).subrange(
            2 * i,
            2 * i + 2,
        ));
        assert(unsigned_at(group_bytes(kept), 2 * i) == kept[i]);
        assert(kept[i] < 10_000);
    }
}

/// One more group adds what it is worth.
proof fn lemma_partial_step(value: DecimalView, index: int)
    requires
        value.valid(),
        0 <= index < kept_groups(value).len(),
    ensures
        partial(value, index + 1) == partial(value, index) + kept_groups(value)[index] * place(
            value,
            index,
        ),
{
    lemma_group_bounds(value);
    let kept = kept_groups(value);
    let low = (28 + 4 * (group_weight(value) - index)) as nat;
    numeric::lemma_pow10_values();
    numeric::lemma_pow10_add(4, low);
    assert(4 + low == (28 + 4 * (group_weight(value) - (index - 1))) as nat);
    assert(kept.take(index + 1).drop_last() == kept.take(index));
    assert(kept.take(index + 1).last() == kept[index]);
    let g = grouped(kept.take(index)) as int;
    let d = kept[index] as int;
    let p = place(value, index) as int;
    assert((g * 10_000 + d) * p == g * (10_000 * p) + d * p) by (nonlinear_arith);
}

/// No group but the last one completes the number.
proof fn lemma_partial_bound(value: DecimalView, index: int)
    requires
        value.valid(),
        0 <= index <= kept_groups(value).len(),
    ensures
        partial(value, index) <= partial(value, kept_groups(value).len() as int),
    decreases kept_groups(value).len() - index,
{
    if index < kept_groups(value).len() {
        lemma_partial_step(value, index);
        lemma_partial_bound(value, index + 1);
        assert(kept_groups(value)[index] * place(value, index) >= 0) by (nonlinear_arith)
            requires
                kept_groups(value)[index] >= 0,
                place(value, index) >= 0,
        ;
    }
}

/// All groups together are worth the number.
proof fn lemma_partial_total(value: DecimalView)
    requires
        value.valid(),
    ensures
        ({
            let fraction = 4 * fraction_groups(value.scale);
            &&& partial(value, kept_groups(value).len() as int) == padded(value) * numeric::pow10(
                (28 - fraction) as nat,
            )
            &&& partial(value, kept_groups(value).len() as int) == value.magnitude * numeric::pow10(
                (28 - value.scale) as nat,
            )
        }),
{
    lemma_group_bounds(value);
    let kept = kept_groups(value);
    let all = groups_of(padded(value));
    let n = kept.len();
    let fraction = 4 * fraction_groups(value.scale);
    let pad = (fraction - value.scale) as nat;
    lemma_groups(padded(value));
    lemma_trimmed_groups(all);
    assert(kept.take(n as int) == kept);
    numeric::lemma_pow10_add(pad, (28 - fraction) as nat);
    assert(pad + (28 - fraction) as nat == (28 - value.scale) as nat);
    let m = value.magnitude as int;
    let a = numeric::pow10(pad) as int;
    let b = numeric::pow10((28 - fraction) as nat) as int;
    assert((m * a) * b == m * (a * b)) by (nonlinear_arith);
    if value.magnitude > 0 {
        let more = 4 * (all.len() - n) as nat;
        numeric::lemma_pow10_add(more, (28 - fraction) as nat);
        assert(more + (28 - fraction) as nat == (28 + 4 * (group_weight(value) - (n - 1))) as nat);
        let g = grouped(kept) as int;
        let c = numeric::pow10(more) as int;
        assert((g * c) * b == g * (c * b)) by (nonlinear_arith);
    } else {
        assert(grouped(kept) == 0);
        let p = place(value, n - 1) as int;
        assert(0 * p == 0) by (nonlinear_arith);
        assert(0 * a == 0 && 0 * b == 0 && 0 * (a * b) == 0) by (nonlinear_arith);
    }
}

/// The sum of the first `index` groups, as it is built up.
spec fn summed(value: DecimalView, index: int, sum: DecimalView) -> bool {
    &&& sum.valid()
    &&& !sum.negative
    &&& index == 0 ==> sum == DecimalView::whole(0)
    &&& index > 0 ==> sum.magnitude > 0
    &&& sum.scale > 0 ==> sum.scale <= 4 * (index - 1 - group_weight(value))
    &&& sum.key() == partial(value, index)
}

/// Before the first group the sum is zero.
proof fn lemma_no_groups(value: DecimalView)
    ensures
        summed(value, 0, DecimalView::whole(0)),
{
    let p = place(value, -1) as int;
    let q = numeric::pow10(28) as int;
    assert(0 * p == 0) by (nonlinear_arith);
    assert(0 * q == 0) by (nonlinear_arith);
    assert(kept_groups(value).take(0) == Seq::<u16>::empty());
}

/// The next group is a term that fits, and the sum with it does.
proof fn lemma_group_fits(value: DecimalView, index: int, sum: DecimalView)
    requires
        reads_back(value),
        0 <= index < kept_groups(value).len(),
        summed(value, index, sum),
    ensures
        ({
            let group = kept_groups(value)[index] as int;
            let term = group_term(group, 4 * (group_weight(value) - index));
            &&& term is Some
            &&& !term->0.negative
            &&& term->0.valid()
            &&& index == 0 ==> term->0.magnitude > 0
            &&& term->0.magnitude > 0 ==> {
                let scale = sum.common_scale(term->0);
                &&& index > 0 ==> scale == term->0.scale
                &&& term->0.scale > 0 ==> term->0.scale <= 4 * (index - group_weight(value))
                &&& term->0.key() == group * place(value, index)
                &&& sum.units(term->0.scale) * numeric::pow10((28 - term->0.scale) as nat)
                    == sum.key()
                &&& sum.units(term->0.scale) + term->0.units(term->0.scale)
                    <= numeric::MAX_MAGNITUDE
            }
            &&& term->0.magnitude == 0 <==> group == 0
        }),
{
    let group = kept_groups(value)[index] as int;
    let exponent = 4 * (group_weight(value) - index);
    let fraction = 4 * fraction_groups(value.scale);
    let total = partial(value, kept_groups(value).len() as int) as int;
    lemma_group_bounds(value);
    lemma_partial_step(value, index);
    lemma_partial_bound(value, index);
    lemma_partial_bound(value, index + 1);
    lemma_partial_total(value);
    numeric::lemma_pow10_values();
    if group > 0 {
        let scale = if exponent < 0 {
            (-exponent) as nat
        } else {
            0
        };
        let unit = numeric::pow10((28 - scale) as nat) as int;
        let least = numeric::pow10((28 - fraction) as nat) as int;
        numeric::lemma_pow10_monotonic((28 - fraction) as nat, (28 - scale) as nat);
        let worth = group * place(value, index);
        // What the term is worth, in units of its own scale.
        let magnitude = if exponent < 0 {
            group
        } else {
            group * numeric::pow10(exponent as nat)
        };
        if exponent >= 0 {
            numeric::lemma_pow10_add(exponent as nat, 28);
            let e = numeric::pow10(exponent as nat) as int;
            assert((group * e) * unit == group * (e * unit)) by (nonlinear_arith);
            assert(exponent as nat + 28 == (28 + exponent) as nat);
            numeric::lemma_pow10_monotonic(exponent as nat, exponent as nat);
            assert(group * e > 0) by (nonlinear_arith)
                requires
                    group > 0,
                    e > 0,
            ;
        } else {
            assert((28 + exponent) as nat == (28 - scale) as nat);
        }
        assert(magnitude * unit == worth);
        // The sum so far in units of that scale.
        let lift = (scale - sum.scale) as nat;
        numeric::lemma_pow10_add(lift, (28 - scale) as nat);
        assert(lift + (28 - scale) as nat == (28 - sum.scale) as nat);
        let s = sum.magnitude as int;
        let l = numeric::pow10(lift) as int;
        assert((s * l) * unit == s * (l * unit)) by (nonlinear_arith);
        let units = s * l;
        assert(units * unit == sum.key());
        assert(units * unit + magnitude * unit == partial(value, index + 1));
        assert(padded(value) * least <= numeric::MAX_MAGNITUDE * unit) by (nonlinear_arith)
            requires
                0 <= padded(value) <= numeric::MAX_MAGNITUDE,
                0 < least <= unit,
        ;
        assert(units + magnitude <= numeric::MAX_MAGNITUDE) by (nonlinear_arith)
            requires
                units * unit + magnitude * unit <= numeric::MAX_MAGNITUDE * unit,
                unit > 0,
        ;
        assert(units >= 0) by (nonlinear_arith)
            requires
                units == s * l,
                s >= 0,
                l >= 0,
        ;
        assert(magnitude * numeric::pow10(0) == magnitude);
    }
}

/// Adding the next group keeps the sum.
proof fn lemma_sum_step(value: DecimalView, index: int, sum: DecimalView, next: DecimalView)
    requires
        reads_back(value),
        0 <= index < kept_groups(value).len(),
        summed(value, index, sum),
        ({
            let term = group_term(
                kept_groups(value)[index] as int,
                4 * (group_weight(value) - index),
            )->0;
            let scale = sum.common_scale(term);
            if sum.magnitude == 0 {
                next == term
            } else if term.magnitude == 0 {
                next == sum
            } else {
                next == (DecimalView {
                    negative: false,
                    magnitude: sum.units(scale) + term.units(scale),
                    scale,
                })
            }
        }),
    ensures
        summed(value, index + 1, next),
{
    lemma_group_fits(value, index, sum);
    lemma_partial_step(value, index);
    lemma_group_bounds(value);
    let group = kept_groups(value)[index] as int;
    let term = group_term(group, 4 * (group_weight(value) - index))->0;
    if sum.magnitude == 0 {
        let p = numeric::pow10((28 - sum.scale) as nat) as int;
        assert(0 * p == 0) by (nonlinear_arith);
    } else if term.magnitude == 0 {
        let p = place(value, index) as int;
        assert(0 * p == 0) by (nonlinear_arith);
    } else {
        let unit = numeric::pow10((28 - term.scale) as nat) as int;
        let a = sum.units(term.scale) as int;
        let b = term.units(term.scale) as int;
        assert(b == term.magnitude) by {
            assert(numeric::pow10(0) == 1);
            assert(term.magnitude * 1 == term.magnitude) by (nonlinear_arith);
        }
        assert((a + b) * unit == a * unit + b * unit) by (nonlinear_arith);
    }
}

/// Rescaling the whole sum gives the number its scale back.
proof fn lemma_sum_rescaled(value: DecimalView, sum: DecimalView)
    requires
        reads_back(value),
        summed(value, kept_groups(value).len() as int, sum),
    ensures
        sum.rescaled(value.scale) == (DecimalView { negative: false, ..value }),
{
    lemma_partial_total(value);
    lemma_group_bounds(value);
    let m = value.magnitude as int;
    let s = sum.magnitude as int;
    let unit = numeric::pow10((28 - value.scale) as nat) as int;
    let sum_unit = numeric::pow10((28 - sum.scale) as nat) as int;
    numeric::lemma_pow10_monotonic((28 - value.scale) as nat, 28);
    numeric::lemma_pow10_monotonic((28 - sum.scale) as nat, 28);
    assert(s * sum_unit == m * unit);
    if value.magnitude > 0 {
        if sum.scale == value.scale {
            assert(s == m) by (nonlinear_arith)
                requires
                    s * unit == m * unit,
                    unit > 0,
            ;
        } else if sum.scale > value.scale {
            let places = (sum.scale - value.scale) as nat;
            let p = numeric::pow10(places) as int;
            numeric::lemma_pow10_add(places, (28 - sum.scale) as nat);
            assert(places + (28 - sum.scale) as nat == (28 - value.scale) as nat);
            assert(s == m * p) by (nonlinear_arith)
                requires
                    s * sum_unit == m * (p * sum_unit),
                    sum_unit > 0,
            ;
            numeric::lemma_pow10_monotonic(places, places);
            vstd::arithmetic::div_mod::lemma_fundamental_div_mod_converse(
                m * p + p / 2,
                p,
                m,
                p / 2,
            );
        } else {
            let places = (value.scale - sum.scale) as nat;
            let p = numeric::pow10(places) as int;
            numeric::lemma_pow10_add(places, (28 - value.scale) as nat);
            assert(places + (28 - value.scale) as nat == (28 - sum.scale) as nat);
            assert(m == s * p) by (nonlinear_arith)
                requires
                    s * (p * unit) == m * unit,
                    unit > 0,
            ;
            arithmetic::lemma_room(sum.magnitude, places);
        }
    }
}

/// The number that two bytes hold, the greater one first.
pub open spec fn two_bytes(bytes: Seq<u8>, start: int) -> int {
    bytes[start] * 256 + bytes[start + 1]
}

/// What the first `count` pairs of bytes behind the header are worth as the digits of a
/// number in base 10000.
pub open spec fn digits_worth(bytes: Seq<u8>, count: nat) -> int
    decreases count,
{
    if count == 0 {
        0
    } else {
        10_000 * digits_worth(bytes, (count - 1) as nat) + two_bytes(bytes, 8 + 2 * (count - 1))
    }
}

proof fn lemma_two_bytes(bytes: Seq<u8>, start: int)
    requires
        0 <= start,
        start + 2 <= bytes.len(),
    ensures
        unsigned_at(bytes, start) == two_bytes(bytes, start),
{
    let pair = bytes.subrange(start, start + 2);
    reveal_with_fuel(bytes::be_nat, 3);
    assert(pair.drop_last().drop_last().len() == 0);
    assert(pair.drop_last().last() == bytes[start]);
    assert(pair.last() == bytes[start + 1]);
}

proof fn lemma_digits_worth(bytes: Seq<u8>, groups: Seq<u16>, count: nat)
    requires
        count <= groups.len(),
        forall|i: int|
            0 <= i < groups.len() ==> #[trigger] two_bytes(bytes, 8 + 2 * i) == groups[i],
    ensures
        digits_worth(bytes, count) == grouped(groups.take(count as int)),
    decreases count,
{
    if count > 0 {
        lemma_digits_worth(bytes, groups, (count - 1) as nat);
        let taken = groups.take(count as int);
        assert(taken.drop_last() == groups.take(count - 1));
        assert(taken.last() == groups[count - 1]);
        assert(two_bytes(bytes, 8 + 2 * (count - 1)) == groups[count - 1]);
    }
}

proof fn lemma_last_group(groups: Seq<u16>)
    ensures
        without_zero_groups(groups).len() > 0 ==> without_zero_groups(groups).last() != 0,
    decreases groups.len(),
{
    if groups.len() > 0 && groups.last() == 0 {
        lemma_last_group(groups.drop_last());
    }
}

/// The binary form of a number denotes it. The header tells how many digits in base
/// 10000 follow, the power of 10000 that the first one counts, the sign, which is 0x4000
/// for numbers below zero, and the scale. Each digit takes two bytes, and neither the
/// first nor the last one is zero. Both sides of the equation count in units of the
/// 28th decimal place.
pub proof fn binary_numerics_denote_the_value(value: DecimalView)
    requires
        value.valid(),
    ensures
        ({
            let b = pg_bytes(value);
            let count = two_bytes(b, 0);
            let weight = if b[2] < 128 {
                two_bytes(b, 2)
            } else {
                two_bytes(b, 2) - 65_536
            };
            &&& b.len() == 8 + 2 * count
            &&& two_bytes(b, 4) == if value.negative && value.magnitude > 0 {
                0x4000
            } else {
                0int
            }
            &&& two_bytes(b, 6) == value.scale
            &&& forall|i: int| 0 <= i < count ==> 0 <= #[trigger] two_bytes(b, 8 + 2 * i) < 10_000
            &&& count > 0 ==> two_bytes(b, 8) != 0 && two_bytes(b, 8 + 2 * (count - 1)) != 0
            &&& weight - count + 8 >= 0
            &&& digits_worth(b, count as nat) * numeric::pow10((4 * (weight - count + 8)) as nat)
                == value.magnitude * numeric::pow10((28 - value.scale) as nat)
        }),
{
    let b = pg_bytes(value);
    let kept = kept_groups(value);
    let count = kept.len();
    lemma_fields(value);
    lemma_group_bounds(value);
    lemma_partial_total(value);
    lemma_last_group(groups_of(padded(value)));
    lemma_two_bytes(b, 0);
    lemma_two_bytes(b, 2);
    lemma_two_bytes(b, 4);
    lemma_two_bytes(b, 6);
    assert forall|i: int| 0 <= i < kept.len() implies #[trigger] two_bytes(b, 8 + 2 * i)
        == kept[i] by {
        assert(signed_at(b, 8 + 2 * i) == kept[i]);
        lemma_two_bytes(b, 8 + 2 * i);
    }
    assert(two_bytes(b, 0) == count);
    if count > 0 {
        assert(two_bytes(b, 8 + 2 * 0int) == kept[0]);
        assert(two_bytes(b, 8 + 2 * (count - 1)) == kept[count - 1]);
    }
    lemma_digits_worth(b, kept, count);
    assert(kept.take(count as int) == kept);
    assert(28 + 4 * (group_weight(value) - (count - 1)) == 4 * (group_weight(value) - count + 8));
}

proof fn lemma_groups_are_digits(input: Seq<u8>, index: nat, count: nat, value: DecimalView, i: int)
    requires
        groups_added(input, index, count, value) is Some,
        index <= i < count,
    ensures
        0 <= signed_at(input, 8 + 2 * i) < 10_000,
    decreases count - index,
{
    if index < i {
        let group = signed_at(input, 8 + 2 * index as int);
        let term = group_term(group, 4 * (signed_at(input, 2) - index))->0;
        let sum = arithmetic::decimal_sum(value, term)->0;
        lemma_groups_are_digits(input, index + 1, count, sum, i);
    }
}

/// Bytes are read as a number only if they have a header, a sign that is neither that of
/// no number nor any other, and as many digits as the header says, each below 10000.
pub proof fn malformed_numerics_are_refused(input: Seq<u8>, i: int)
    requires
        decimal_of_pg_bytes(input) is Some,
    ensures
        input.len() >= 8,
        input.len() == 8 + 2 * two_bytes(input, 0),
        two_bytes(input, 4) == 0 || two_bytes(input, 4) == 0x4000,
        0 <= i < two_bytes(input, 0) ==> two_bytes(input, 8 + 2 * i) < 10_000,
        two_bytes(input, 4) == 0x4000 ==> decimal_of_pg_bytes(input)->0.negative,
{
    lemma_two_bytes(input, 0);
    lemma_two_bytes(input, 4);
    if 0 <= i < two_bytes(input, 0) {
        lemma_groups_are_digits(
            input,
            0,
            signed_at(input, 0) as nat,
            DecimalView::whole(0),
            i,
        );
        lemma_two_bytes(input, 8 + 2 * i);
    }
}

} // verus!
