//! Measured values and how they are rounded for publication.

use crate::double::{law_one_double_is_nearest, nearest, nearest_double};
use crate::json::{content, null, parse_decimal, short_decimal, Json};
use crate::text::{three_decimals, write_three_decimals};
use vstd::arithmetic::power2::{lemma2_to64, lemma2_to64_rest, lemma_pow2_adds, lemma_pow2_pos, lemma_pow2_strictly_increases, lemma_pow2_unfold, pow2};
use vstd::prelude::*;

verus! {

/// A measured value, by the bit pattern of an IEEE 754 single-precision number.
#[derive(Clone, Copy, Debug, PartialEq, Eq, Structural)]
pub struct Reading {
    pub bits: u32,
}

impl Reading {
    /// The sign bit.
    pub open spec fn negative(self) -> bool {
        self.bits >= 0x8000_0000
    }

    /// The eight exponent bits.
    pub open spec fn exponent_field(self) -> nat {
        (self.bits as nat / 0x80_0000) % 256
    }

    /// The twenty-three fraction bits.
    pub open spec fn fraction_field(self) -> nat {
        self.bits as nat % 0x80_0000
    }

    /// Neither infinite nor "not a number".
    pub open spec fn finite(self) -> bool {
        self.exponent_field() < 255
    }

    /// The integer significand: a finite reading is `significand * 2^scale`, with its sign.
    pub open spec fn significand(self) -> nat {
        if self.exponent_field() == 0 {
            self.fraction_field()
        } else {
            self.fraction_field() + 0x80_0000
        }
    }

    /// The power of two by which the significand is scaled.
    pub open spec fn scale(self) -> int {
        if self.exponent_field() == 0 {
            -149
        } else {
            self.exponent_field() - 150
        }
    }

    /// The magnitude in thousandths, rounded to the nearest integer, a half upwards.
    pub open spec fn thousandths(self) -> nat {
        if self.scale() >= 0 {
            self.significand() * pow2(self.scale() as nat) * 1000
        } else {
            let parts = pow2((-self.scale()) as nat);
            (2 * self.significand() * 1000 + parts) / (2 * parts)
        }
    }

    /// The rounded value, written with three decimals.
    pub open spec fn rounded_text(self) -> Seq<char> {
        three_decimals(self.negative(), self.thousandths())
    }
}

/// The JSON number of a reading: the double that is nearest to its value rounded to three
/// decimals, or `null` where it is not finite.
pub open spec fn reading_json(v: Reading) -> Json {
    if v.finite() {
        Json::Double(nearest_double(v.negative(), v.thousandths()))
    } else {
        Json::Null
    }
}

/// Doubles `n` a number of times.
fn doubled(n: u128, times: u32) -> (r: u128)
    requires
        n < 0x100_0000,
        times <= 104,
    ensures
        r == n * pow2(times as nat),
{
    let mut r: u128 = n;
    let mut i: u32 = 0;
    proof {
        lemma2_to64();
    }
    while i < times
        invariant
            i <= times <= 104,
            n < 0x100_0000,
            r == n * pow2(i as nat),
        decreases times - i,
    {
        proof {
            lemma_pow2_unfold((i + 1) as nat);
            lemma_scaled_bound(n as nat, (i + 1) as nat);
            assert(n * (2 * pow2(i as nat)) == 2 * (n * pow2(i as nat))) by (nonlinear_arith);
        }
        r = r * 2;
        i += 1;
    }
    r
}

/// Twenty-four bits, shifted by at most 104, stay within 128 bits.
proof fn lemma_scaled_bound(n: nat, times: nat)
    requires
        n < 0x100_0000,
        times <= 104,
    ensures
        n * pow2(times) <= u128::MAX,
{
    lemma_pow2_pos(times);
    if times < 104 {
        lemma_pow2_strictly_increases(times, 104);
    }
    lemma2_to64();
    lemma2_to64_rest();
    lemma_pow2_adds(64, 40);
    assert(pow2(104) == 0x1_0000_0000_0000_0000 * 0x100_0000_0000);
    assert(n * pow2(times) <= 0xff_ffff * pow2(104)) by (nonlinear_arith)
        requires
            n <= 0xff_ffff,
            0 < pow2(times) <= pow2(104),
    ;
}

/// Two thousand times a significand is below `2^36`: scaled down further than that, less
/// than half a thousandth is left.
proof fn lemma_rounds_to_zero(significand: nat, shift: nat)
    requires
        significand < 0x100_0000,
        shift >= 36,
    ensures
        (2 * significand * 1000 + pow2(shift)) / (2 * pow2(shift)) == 0,
{
    lemma2_to64_rest();
    if shift > 36 {
        lemma_pow2_strictly_increases(36, shift);
    }
    let parts = pow2(shift);
    vstd::arithmetic::div_mod::lemma_basic_div((2 * significand * 1000 + parts) as int, (2 * parts) as int);
}

/// The magnitude of a reading in units and thousandths.
fn rounded(v: Reading) -> (r: (u128, u64))
    requires
        v.finite(),
    ensures
        r.1 < 1000,
        r.0 * 1000 + r.1 == v.thousandths(),
{
    let exponent: u32 = (v.bits / 0x80_0000) % 256;
    let fraction: u32 = v.bits % 0x80_0000;
    let significand: u64 = if exponent == 0 {
        fraction as u64
    } else {
        (fraction + 0x80_0000) as u64
    };
    if exponent >= 150 {
        let units: u128 = doubled(significand as u128, exponent - 150);
        (units, 0)
    } else {
        let shift: u32 = if exponent == 0 {
            149
        } else {
            150 - exponent
        };
        if shift >= 36 {
            proof {
                lemma_rounds_to_zero(significand as nat, shift as nat);
            }
            (0, 0)
        } else {
            let parts: u128 = doubled(1, shift);
            proof {
                lemma2_to64_rest();
                lemma_pow2_pos(shift as nat);
                lemma_pow2_strictly_increases(shift as nat, 36);
            }
            let k: u128 = (2 * significand as u128 * 1000 + parts) / (2 * parts);
            (k / 1000, (k % 1000) as u64)
        }
    }
}

/// Writes a reading, rounded to three decimals; there is nothing to write where it is not
/// finite.
pub fn rounded_decimal(v: Reading) -> (r: Option<String>)
    ensures
        r is Some <==> v.finite(),
        r is Some ==> r->0@ == v.rounded_text(),
{
    if (v.bits / 0x80_0000) % 256 == 255 {
        return None;
    }
    let (units, rest) = rounded(v);
    Some(write_three_decimals(v.bits >= 0x8000_0000, units, rest))
}

/// The part of a rounded reading before the point fits in 128 bits.
proof fn lemma_rounded_is_short(v: Reading)
    requires
        v.finite(),
    ensures
        short_decimal(v.rounded_text()),
{
    if v.scale() >= 0 {
        lemma_scaled_bound(v.significand(), v.scale() as nat);
    } else {
        let parts = pow2((-v.scale()) as nat);
        lemma_pow2_pos((-v.scale()) as nat);
        assert(v.thousandths() <= 2 * v.significand() * 1000 + 1) by (nonlinear_arith)
            requires
                v.thousandths() == (2 * v.significand() * 1000 + parts) / (2 * parts),
                parts > 0,
        ;
    }
}

/// Rounds to three decimals, to keep payloads stable and readable.
pub fn r3(v: Reading) -> (r: serde_json::Value)
    ensures
        content(r) == reading_json(v),
{
    match rounded_decimal(v) {
        Some(text) => {
            proof {
                lemma_rounded_is_short(v);
            }
            parse_decimal(text.as_str())
        },
        None => null(),
    }
}

/// Rounding moves a reading by half a thousandth at most, and not at all where it is a
/// whole number already.
pub proof fn law_rounding_is_to_the_nearest_thousandth(v: Reading)
    requires
        v.finite(),
    ensures
        v.scale() >= 0 ==> v.thousandths() == v.significand() * pow2(v.scale() as nat) * 1000,
        v.scale() < 0 ==> {
            let parts = pow2((-v.scale()) as nat);
            let exact = v.significand() * 1000;
            &&& 2 * (v.thousandths() * parts - exact) <= parts
            &&& 2 * (exact - v.thousandths() * parts) <= parts
        },
{
    if v.scale() < 0 {
        let parts = pow2((-v.scale()) as nat);
        lemma_pow2_pos((-v.scale()) as nat);
        let n = 2 * v.significand() * 1000 + parts;
        let k = v.thousandths();
        vstd::arithmetic::div_mod::lemma_fundamental_div_mod(n as int, (2 * parts) as int);
        vstd::arithmetic::div_mod::lemma_mod_bound(n as int, (2 * parts) as int);
        assert((2 * parts) * k == 2 * (k * parts)) by (nonlinear_arith);
    }
}

/// `thousandths` is what a single-precision number with these exponent and fraction bits is in
/// thousandths, rounded to the nearest integer, and upwards where it lies halfway between two.
/// The number is `(2^23 + fraction) * 2^(exponent - 150)`, or `fraction * 2^-149` where the
/// exponent bits are all zero.
pub open spec fn rounds_to(exponent: nat, fraction: nat, thousandths: nat) -> bool {
    let significand = if exponent == 0 {
        fraction
    } else {
        fraction + 0x80_0000
    };
    if exponent >= 150 {
        thousandths == significand * pow2((exponent - 150) as nat) * 1000
    } else {
        let parts = if exponent == 0 {
            pow2(149)
        } else {
            pow2((150 - exponent) as nat)
        };
        2 * (thousandths * parts) <= 2 * (significand * 1000) + parts < 2 * (thousandths * parts) + 2 * parts
    }
}

/// The JSON number of a reading is the double nearest to its value in thousandths, rounded a
/// half away from zero, and has its sign; what is infinite or no number is `null`. The value is
/// read off the sign bit, the eight exponent bits and the twenty-three fraction bits.
pub proof fn law_readings_are_told_to_three_decimals(v: Reading, negative: bool, exponent: nat, fraction: nat)
    requires
        v.bits == (if negative { 0x8000_0000int } else { 0 }) + exponent * 0x80_0000 + fraction,
        exponent < 256,
        fraction < 0x80_0000,
    ensures
        v.finite() <==> exponent < 255,
        exponent == 255 ==> reading_json(v) == Json::Null,
        exponent < 255 ==> exists|thousandths: nat| #[trigger]
            rounds_to(exponent, fraction, thousandths) && v.rounded_text() == three_decimals(negative, thousandths) && (reading_json(v) matches Json::Double(bits)
                && nearest(negative, thousandths, bits)),
{
    assert(v.exponent_field() == exponent);
    assert(v.fraction_field() == fraction);
    assert(v.negative() == negative);
    if exponent < 255 {
        let significand = if exponent == 0 { fraction } else { fraction + 0x80_0000 };
        let e: nat = if exponent == 0 { 1 } else { exponent };
        assert(v.significand() == significand && v.scale() == e - 150);
        let k = v.thousandths();
        law_one_double_is_nearest(negative, k, 0);
        if e < 150 {
            let parts = pow2((150 - e) as nat);
            lemma_pow2_pos((150 - e) as nat);
            let n = 2 * significand * 1000 + parts;
            vstd::arithmetic::div_mod::lemma_fundamental_div_mod(n as int, (2 * parts) as int);
            vstd::arithmetic::div_mod::lemma_mod_bound(n as int, (2 * parts) as int);
            assert((2 * parts) * k == 2 * (k * parts)) by (nonlinear_arith);
            assert((150 - e) as nat == (-v.scale()) as nat);
        } else {
            assert((e - 150) as nat == v.scale() as nat);
        }
        assert(rounds_to(exponent, fraction, k));
    }
}

} // verus!
