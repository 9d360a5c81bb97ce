//! The whole part of a double-precision number, read from its 64 bits.
//!
//! The bits are laid out as one sign bit, eleven exponent bits and fifty-two
//! fraction bits. A finite number is its significand times a power of two;
//! the whole part drops what stands behind the binary point.

use vstd::prelude::*;
use vstd::arithmetic::div_mod::lemma_basic_div;
use vstd::arithmetic::power2::{
    lemma2_to64,
    lemma2_to64_rest,
    lemma_pow2_pos,
    lemma_pow2_strictly_increases,
    pow2,
};
use vstd::bits::{lemma_u64_shl_is_mul, lemma_u64_shr_is_div};

verus! {

/// The lowest pattern with the sign bit set.
pub const SIGN_BIT: u64 = 0x8000_0000_0000_0000;

/// Two to the power 52: the place of the bit that a normal number's
/// significand has in front of its fraction.
pub const HIDDEN_BIT: u64 = 0x0010_0000_0000_0000;

/// The number of values of the exponent field.
pub const EXPONENT_RANGE: u64 = 2048;

/// The exponent field of infinities and of values that are no number.
pub const EXPONENT_SPECIAL: u64 = 2047;

/// The exponent field of the numbers from one up to two.
pub const EXPONENT_OF_ONE: u64 = 1023;

/// The exponent field at which the significand counts ones.
pub const EXPONENT_OF_UNITS: u64 = 1075;

/// The exponent field from which on every number is at least two to the
/// power 63.
pub const EXPONENT_OF_OVERFLOW: u64 = 1086;

/// Whether the sign bit is set.
pub open spec fn is_negative(bits: u64) -> bool {
    bits >= SIGN_BIT
}

/// The exponent field.
pub open spec fn exponent_field(bits: u64) -> nat {
    ((bits / HIDDEN_BIT) % EXPONENT_RANGE) as nat
}

/// The fraction field.
pub open spec fn fraction_field(bits: u64) -> nat {
    (bits % HIDDEN_BIT) as nat
}

/// Whether the bits stand for no number.
pub open spec fn is_nan(bits: u64) -> bool {
    exponent_field(bits) == EXPONENT_SPECIAL && fraction_field(bits) != 0
}

/// Whether the bits stand for an infinity.
pub open spec fn is_infinite(bits: u64) -> bool {
    exponent_field(bits) == EXPONENT_SPECIAL && fraction_field(bits) == 0
}

/// The significand of a finite number: the fraction, with the hidden bit in
/// front unless the exponent field is zero.
pub open spec fn significand(bits: u64) -> nat {
    if exponent_field(bits) == 0 {
        fraction_field(bits)
    } else {
        HIDDEN_BIT as nat + fraction_field(bits)
    }
}

/// The power of two, counted from the place of the units, by which the
/// significand is scaled. An exponent field of zero scales as a field of one.
pub open spec fn scale_exponent(bits: u64) -> int {
    if exponent_field(bits) == 0 {
        1 - EXPONENT_OF_UNITS
    } else {
        exponent_field(bits) - EXPONENT_OF_UNITS
    }
}

/// The whole part of the magnitude of a finite number: the significand
/// times two to the scale, without what is behind the point.
pub open spec fn whole_magnitude(bits: u64) -> nat {
    let scale = scale_exponent(bits);
    if scale < 0 {
        significand(bits) / pow2((-scale) as nat)
    } else {
        significand(bits) * pow2(scale as nat)
    }
}

/// A finite number cut off towards zero.
pub open spec fn truncated(bits: u64) -> int {
    if is_negative(bits) {
        -(whole_magnitude(bits) as int)
    } else {
        whole_magnitude(bits) as int
    }
}

/// The nearest value that a signed 64-bit integer can hold.
pub open spec fn clamped(n: int) -> int {
    if n < i64::MIN {
        i64::MIN as int
    } else if n > i64::MAX {
        i64::MAX as int
    } else {
        n
    }
}

/// The integer that a double-precision number is taken for: the number cut
/// off towards zero, and the nearest 64-bit integer where that is out of
/// range. An infinity counts as out of range; what is no number gives zero.
pub open spec fn double_to_int(bits: u64) -> int {
    if is_nan(bits) {
        0
    } else if is_infinite(bits) {
        if is_negative(bits) {
            i64::MIN as int
        } else {
            i64::MAX as int
        }
    } else {
        clamped(truncated(bits))
    }
}

/// A number below one has no whole part.
proof fn lemma_small_has_no_whole_part(bits: u64)
    requires
        exponent_field(bits) < EXPONENT_OF_ONE,
    ensures
        whole_magnitude(bits) == 0,
{
    let down = (-scale_exponent(bits)) as nat;
    lemma2_to64_rest();
    assert(significand(bits) < pow2(53));
    if down > 53 {
        lemma_pow2_strictly_increases(53, down);
    }
    lemma_basic_div(significand(bits) as int, pow2(down) as int);
}

/// A number with so large an exponent is out of the range of a signed
/// 64-bit integer.
proof fn lemma_large_is_out_of_range(bits: u64)
    requires
        EXPONENT_OF_OVERFLOW <= exponent_field(bits) < EXPONENT_SPECIAL,
    ensures
        whole_magnitude(bits) >= 0x8000_0000_0000_0000,
{
    let up = scale_exponent(bits) as nat;
    lemma2_to64();
    lemma2_to64_rest();
    if up > 11 {
        lemma_pow2_strictly_increases(11, up);
    }
    assert(significand(bits) * pow2(up) >= 0x0010_0000_0000_0000 * 0x800) by (nonlinear_arith)
        requires
            significand(bits) >= 0x0010_0000_0000_0000,
            pow2(up) >= 0x800,
    ;
}

/// Takes a double-precision number, given by its bits, for an integer.
pub fn double_to_i64(bits: u64) -> (r: i64)
    ensures
        r == double_to_int(bits),
{
    let negative = bits >= SIGN_BIT;
    let exponent: u64 = (bits / HIDDEN_BIT) % EXPONENT_RANGE;
    let fraction: u64 = bits % HIDDEN_BIT;
    if exponent == EXPONENT_SPECIAL {
        if fraction != 0 {
            0
        } else if negative {
            i64::MIN
        } else {
            i64::MAX
        }
    } else if exponent < EXPONENT_OF_ONE {
        proof {
            lemma_small_has_no_whole_part(bits);
        }
        0
    } else if exponent < EXPONENT_OF_OVERFLOW {
        let full: u64 = HIDDEN_BIT + fraction;
        let whole: u64 = if exponent < EXPONENT_OF_UNITS {
            let down: u64 = EXPONENT_OF_UNITS - exponent;
            proof {
                lemma_u64_shr_is_div(full, down);
                lemma_pow2_pos(down as nat);
                assert(full as nat / pow2(down as nat) <= full) by (nonlinear_arith)
                    requires
                        pow2(down as nat) > 0,
                ;
            }
            full >> down
        } else {
            let up: u64 = exponent - EXPONENT_OF_UNITS;
            proof {
                lemma2_to64();
                if up < 10 {
                    lemma_pow2_strictly_increases(up as nat, 10);
                }
                assert(full * pow2(up as nat) < 0x0020_0000_0000_0000 * 0x400) by (nonlinear_arith)
                    requires
                        full < 0x0020_0000_0000_0000,
                        pow2(up as nat) <= 0x400,
                ;
                lemma_u64_shl_is_mul(full, up);
            }
            full << up
        };
        assert(whole == whole_magnitude(bits));
        if negative {
            -(whole as i64)
        } else {
            whole as i64
        }
    } else {
        proof {
            lemma_large_is_out_of_range(bits);
        }
        if negative {
            i64::MIN
        } else {
            i64::MAX
        }
    }
}

} // verus!
