//! From single-precision floating-point numbers onto the grid.
//!
//! A caller that measures in floats hands over the 32 bits of each number
//! (sign, eight bits of exponent, twenty-three bits of fraction, as IEEE 754
//! lays them out) and gets the nearest whole number of grid units. The
//! number is decoded with integer arithmetic alone, so the result is the
//! same on every machine.

use vstd::prelude::*;
use vstd::arithmetic::div_mod::{
    lemma_div_is_ordered, lemma_div_multiples_vanish_fancy, lemma_div_multiples_vanish_quotient,
};
use vstd::arithmetic::power2::{
    lemma2_to64, lemma_pow2_adds, lemma_pow2_pos, lemma_pow2_strictly_increases, pow2,
};
use vstd::bits::lemma_u64_shl_is_mul;
use crate::collision::Block;
use crate::vector::{Point, Vector3};

verus! {

/// How many binary places of a number the grid keeps.
pub const FRACTION_BITS: u32 = 10;

/// Grid units in one unit of the caller's numbers: two to the power of
/// `FRACTION_BITS`.
pub const UNITS_PER_ONE: i32 = 1024;

/// The largest number of units that a conversion gives; larger numbers are
/// cut off here, and smaller ones at its negative. Two coordinates within
/// the limit have a sum and a difference that can be stored.
pub const UNIT_LIMIT: i32 = 0x3fff_ffff;

/// The sign bit is set.
pub open spec fn is_negative(bits: u32) -> bool {
    bits >= 0x8000_0000
}

/// The eight bits of the exponent.
pub open spec fn exponent_field(bits: u32) -> int {
    (bits as int / 0x80_0000) % 0x100
}

/// The twenty-three bits of the fraction.
pub open spec fn fraction_field(bits: u32) -> int {
    bits as int % 0x80_0000
}

/// The bits stand for no number.
pub open spec fn is_nan(bits: u32) -> bool {
    exponent_field(bits) == 255 && fraction_field(bits) != 0
}

/// The bits stand for infinity, positive or negative.
pub open spec fn is_infinite(bits: u32) -> bool {
    exponent_field(bits) == 255 && fraction_field(bits) == 0
}

/// The significand of a finite number: the fraction, with the leading one
/// that a normal number leaves out.
pub open spec fn significand(bits: u32) -> int {
    if exponent_field(bits) == 0 {
        fraction_field(bits)
    } else {
        fraction_field(bits) + 0x80_0000
    }
}

/// The power of two that scales the significand: a finite number is, up to
/// its sign, `significand * 2^power`. No float has a power below -149.
pub open spec fn power(bits: u32) -> int {
    (if exponent_field(bits) == 0 {
        1
    } else {
        exponent_field(bits)
    }) - 150
}

/// The size of a float as a whole number of the smallest steps that a float
/// can make, each of them `2^-149`; infinity lies above every finite size.
pub open spec fn scaled_magnitude(bits: u32) -> int {
    if is_infinite(bits) {
        pow2(277) as int
    } else {
        significand(bits) * pow2((power(bits) + 149) as nat)
    }
}

/// The float as a whole number of steps of `2^-149`, with its sign. Of two
/// floats that are numbers, the one is less than or equal to the other
/// exactly if its scaled value is.
pub open spec fn scaled_value(bits: u32) -> int {
    if is_negative(bits) {
        -scaled_magnitude(bits)
    } else {
        scaled_magnitude(bits)
    }
}

/// The units of a size that is given in steps of `2^-149`, of which a unit
/// holds `2^139`: the nearest whole number of units, a half rounded up, cut
/// off at the limit.
pub open spec fn units_of_steps(steps: int) -> int {
    let rounded = (2 * steps + pow2(139)) / (2 * pow2(139) as int);
    if rounded >= UNIT_LIMIT {
        UNIT_LIMIT as int
    } else {
        rounded
    }
}

/// The grid units that stand for a float: zero for what is no number; else
/// the nearest whole number of units, a half rounded away from zero, cut
/// off at the limit; with the sign of the float.
pub open spec fn units_of(bits: u32) -> int {
    if is_nan(bits) {
        0
    } else if is_negative(bits) {
        -units_of_steps(scaled_magnitude(bits))
    } else {
        units_of_steps(scaled_magnitude(bits))
    }
}

/// Every coordinate lies within the limit.
pub open spec fn within_limit(p: Point) -> bool {
    &&& -UNIT_LIMIT <= p.x <= UNIT_LIMIT
    &&& -UNIT_LIMIT <= p.y <= UNIT_LIMIT
    &&& -UNIT_LIMIT <= p.z <= UNIT_LIMIT
}

/// `significand * 2^shift`, rounded to the nearest integer, a half rounded
/// up: what the conversion computes for a finite float, in place of the far
/// larger numbers of `units_of_steps`.
spec fn rounded_product(significand: int, shift: int) -> int {
    if shift >= 0 {
        significand * pow2(shift as nat)
    } else {
        (2 * significand + pow2((-shift) as nat)) / (2 * pow2((-shift) as nat) as int)
    }
}

/// The two ways of rounding agree: the steps of a finite float, rounded to
/// units, are its significand, scaled by its power and by the places that
/// the grid keeps, and rounded.
proof fn lemma_rounded_product(bits: u32)
    requires
        exponent_field(bits) != 255,
    ensures
        0 <= scaled_magnitude(bits),
        0 <= rounded_product(significand(bits), power(bits) + FRACTION_BITS),
        (2 * scaled_magnitude(bits) + pow2(139)) / (2 * pow2(139) as int) == rounded_product(
            significand(bits),
            power(bits) + FRACTION_BITS,
        ),
{
    let unit = pow2(139) as int;
    lemma_pow2_pos(139);
    let s = significand(bits);
    let shift = power(bits) + FRACTION_BITS;
    let steps = scaled_magnitude(bits);
    assert(power(bits) + 149 == shift + 139);
    if shift >= 0 {
        let whole = s * pow2(shift as nat);
        lemma_pow2_pos(shift as nat);
        lemma_pow2_adds(shift as nat, 139);
        assert(0 <= whole) by (nonlinear_arith)
            requires
                whole == s * pow2(shift as nat),
                0 <= s,
                0 < pow2(shift as nat),
        ;
        assert(steps == whole * unit) by (nonlinear_arith)
            requires
                steps == s * (pow2(shift as nat) * unit),
                whole == s * pow2(shift as nat),
        ;
        assert(0 <= steps) by (nonlinear_arith)
            requires
                steps == whole * unit,
                0 <= whole,
                0 < unit,
        ;
        assert(2 * steps + unit == (2 * unit) * whole + unit) by (nonlinear_arith)
            requires
                steps == whole * unit,
        ;
        lemma_div_multiples_vanish_fancy(whole, unit, 2 * unit);
    } else {
        let down = (-shift) as nat;
        let rest = (139 - down) as nat;
        let divisor = pow2(down) as int;
        let factor = pow2(rest) as int;
        lemma_pow2_pos(down);
        lemma_pow2_pos(rest);
        lemma_pow2_adds(rest, down);
        assert(unit == factor * divisor);
        assert(steps == s * factor);
        assert(0 <= steps) by (nonlinear_arith)
            requires
                steps == s * factor,
                0 <= s,
                0 < factor,
        ;
        assert(2 * steps + unit == factor * (2 * s + divisor)) by (nonlinear_arith)
            requires
                steps == s * factor,
                unit == factor * divisor,
        ;
        assert(2 * unit == factor * (2 * divisor)) by (nonlinear_arith)
            requires
                unit == factor * divisor,
        ;
        lemma_div_multiples_vanish_quotient(factor, 2 * s + divisor, 2 * divisor);
        assert(0 <= (2 * s + divisor) / (2 * divisor)) by (nonlinear_arith)
            requires
                0 <= s,
                0 < divisor,
        ;
    }
}

/// Infinity is cut off at the limit.
proof fn lemma_infinity_is_cut_off(bits: u32)
    requires
        is_infinite(bits),
    ensures
        units_of_steps(scaled_magnitude(bits)) == UNIT_LIMIT,
{
    // 2^277 steps are 2^138 units.
    let unit = pow2(139) as int;
    let whole = pow2(138) as int;
    lemma_pow2_pos(139);
    lemma_pow2_adds(138, 139);
    lemma2_to64();
    lemma_pow2_strictly_increases(30, 138);
    assert(2 * (whole * unit) + unit == (2 * unit) * whole + unit) by (nonlinear_arith);
    lemma_div_multiples_vanish_fancy(whole, unit, 2 * unit);
}

/// No float that is a number has a negative size, and none gets a negative
/// number of units for its size.
pub proof fn lemma_sizes_are_not_negative(bits: u32)
    requires
        !is_nan(bits),
    ensures
        0 <= scaled_magnitude(bits),
        0 <= units_of_steps(scaled_magnitude(bits)) <= UNIT_LIMIT,
{
    if is_infinite(bits) {
        lemma_infinity_is_cut_off(bits);
        lemma_pow2_pos(277);
    } else {
        lemma_rounded_product(bits);
    }
}

/// Below the limit the conversion gives a nearest number of units: it misses
/// the float by half a unit at most, and by nothing where the float is a
/// whole number of units.
pub proof fn lemma_units_are_nearest(bits: u32)
    requires
        !is_nan(bits),
        -UNIT_LIMIT < units_of(bits) < UNIT_LIMIT,
    ensures
        -pow2(139) <= 2 * (units_of(bits) * pow2(139) - scaled_value(bits)) <= pow2(139),
        scaled_magnitude(bits) % (pow2(139) as int) == 0 ==> units_of(bits) * pow2(139)
            == scaled_value(bits),
{
    lemma_sizes_are_not_negative(bits);
    lemma_pow2_pos(139);
    let unit = pow2(139) as int;
    let steps = scaled_magnitude(bits);
    let rounded = (2 * steps + unit) / (2 * unit);
    assert(rounded == units_of_steps(steps));
    assert(0 <= (2 * steps + unit) - rounded * (2 * unit) < 2 * unit) by (nonlinear_arith)
        requires
            rounded == (2 * steps + unit) / (2 * unit),
            0 < unit,
    ;
    assert(rounded * (2 * unit) == 2 * (rounded * unit)) by (nonlinear_arith);
    assert((-rounded) * unit == -(rounded * unit)) by (nonlinear_arith);
    if steps % unit == 0 {
        let whole = steps / unit;
        assert(steps == whole * unit) by (nonlinear_arith)
            requires
                steps % unit == 0,
                whole == steps / unit,
                0 < unit,
        ;
        assert(rounded == whole) by (nonlinear_arith)
            requires
                steps == whole * unit,
                -unit < 2 * (rounded * unit - steps) <= unit,
                0 < unit,
        ;
    }
}

/// The conversion keeps the order: of two floats that are numbers, the
/// lesser one never gets more units than the greater one.
pub proof fn lemma_units_keep_order(a: u32, b: u32)
    requires
        !is_nan(a),
        !is_nan(b),
        scaled_value(a) <= scaled_value(b),
    ensures
        units_of(a) <= units_of(b),
{
    lemma_sizes_are_not_negative(a);
    lemma_sizes_are_not_negative(b);
    lemma_pow2_pos(139);
    let unit = pow2(139) as int;
    let steps_a = scaled_magnitude(a);
    let steps_b = scaled_magnitude(b);
    if is_negative(a) && is_negative(b) {
        lemma_div_is_ordered(2 * steps_b + unit, 2 * steps_a + unit, 2 * unit);
    } else if !is_negative(a) && !is_negative(b) {
        lemma_div_is_ordered(2 * steps_a + unit, 2 * steps_b + unit, 2 * unit);
    } else if !is_negative(a) && is_negative(b) {
        assert(steps_a == 0 && steps_b == 0);
        assert(unit / (2 * unit) == 0) by (nonlinear_arith)
            requires
                0 < unit,
        ;
    }
}

/// A box around a center within the limit, with a half size within the
/// limit, has corners that can be stored: whatever floats two vectors come
/// from, a box can be made of them.
pub proof fn lemma_box_within_limit_fits(half_size: Point, center: Point)
    requires
        within_limit(half_size),
        within_limit(center),
    ensures
        Block::around(center, half_size).representable(),
{
}

/// The grid units nearest to the float with these bits.
pub fn to_units(bits: u32) -> (units: i32)
    ensures
        units == units_of(bits),
        -UNIT_LIMIT <= units <= UNIT_LIMIT,
{
    let negative = bits >= 0x8000_0000;
    let exponent: u32 = (bits / 0x80_0000) % 0x100;
    let fraction: u32 = bits % 0x80_0000;
    if exponent == 255 && fraction != 0 {
        return 0;
    }
    let magnitude: i32 = if exponent == 255 {
        proof {
            lemma_infinity_is_cut_off(bits);
        }
        UNIT_LIMIT
    } else {
        let significand: u64 = if exponent == 0 {
            fraction as u64
        } else {
            fraction as u64 + 0x80_0000
        };
        let scale: u32 = if exponent == 0 {
            1
        } else {
            exponent
        };
        proof {
            lemma_rounded_product(bits);
            assert(scale - 150 == power(bits));
            assert(significand == self::significand(bits));
        }
        if scale >= 140 {
            let up: u32 = scale - 140;
            if significand == 0 {
                assert(0 * pow2(up as nat) == 0);
                0
            } else if up >= 30 {
                proof {
                    lemma2_to64();
                    if up > 30 {
                        lemma_pow2_strictly_increases(30, up as nat);
                    }
                    assert(significand * pow2(up as nat) >= UNIT_LIMIT) by (nonlinear_arith)
                        requires
                            significand >= 1,
                            pow2(up as nat) >= 0x4000_0000,
                    ;
                }
                UNIT_LIMIT
            } else {
                proof {
                    lemma2_to64();
                    if up < 29 {
                        lemma_pow2_strictly_increases(up as nat, 29);
                    }
                    assert(significand * pow2(up as nat) <= 0x100_0000 * 0x2000_0000)
                        by (nonlinear_arith)
                        requires
                            significand <= 0x100_0000,
                            pow2(up as nat) <= 0x2000_0000,
                    ;
                    lemma_u64_shl_is_mul(significand, up as u64);
                }
                let product: u64 = significand << (up as u64);
                if product >= UNIT_LIMIT as u64 {
                    UNIT_LIMIT
                } else {
                    product as i32
                }
            }
        } else {
            let down: u32 = 140 - scale;
            if down >= 26 {
                proof {
                    lemma2_to64();
                    if down > 26 {
                        lemma_pow2_strictly_increases(26, down as nat);
                    }
                    let divisor = pow2(down as nat) as int;
                    assert((2 * significand + divisor) / (2 * divisor) == 0) by (nonlinear_arith)
                        requires
                            0 <= 2 * significand < divisor,
                    ;
                }
                0
            } else {
                proof {
                    lemma2_to64();
                    if down < 25 {
                        lemma_pow2_strictly_increases(down as nat, 25);
                    }
                    lemma_pow2_pos(down as nat);
                    assert(1 * pow2(down as nat) == pow2(down as nat));
                    lemma_u64_shl_is_mul(1, down as u64);
                }
                let divisor: u64 = 1u64 << (down as u64);
                assert(divisor == pow2(down as nat));
                let rounded = (2 * significand + divisor) / (2 * divisor);
                assert(rounded <= 0x100_0000) by (nonlinear_arith)
                    requires
                        rounded == (2 * significand + divisor) / (2 * divisor),
                        significand <= 0x100_0000,
                        2 <= divisor,
                ;
                rounded as i32
            }
        }
    };
    if negative {
        -magnitude
    } else {
        magnitude
    }
}

/// The grid vector nearest to the vector of three floats with these bits.
pub fn vector_to_units(x: u32, y: u32, z: u32) -> (vector: Vector3)
    ensures
        vector@ == (Point { x: units_of(x), y: units_of(y), z: units_of(z) }),
        within_limit(vector@),
{
    Vector3 { x: to_units(x), y: to_units(y), z: to_units(z) }
}

} // verus!
