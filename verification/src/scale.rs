//! The page scale factor, held as the bit pattern of an IEEE 754 double.
//!
//! The service receives the scale as a double and hands it on unchanged. All
//! that it decides is whether the scale lies in the accepted range, and for
//! that the bit pattern is enough: patterns without the sign bit are ordered
//! as the numbers they stand for.
use vstd::arithmetic::power2::*;
use vstd::prelude::*;

verus! {

/// The pattern of the double 0.1, the smallest accepted scale.
pub const MIN_SCALE_BITS: u64 = 0x3FB9_9999_9999_999A;

/// The pattern of the double 2.0, the largest accepted scale.
pub const MAX_SCALE_BITS: u64 = 0x4000_0000_0000_0000;

/// The pattern of the double 1.0, the scale of a request that names none.
pub const DEFAULT_SCALE_BITS: u64 = 0x3FF0_0000_0000_0000;

/// The sign bit is set.
pub open spec fn is_negative(bits: u64) -> bool {
    bits >= 0x8000_0000_0000_0000
}

/// The exponent field.
pub open spec fn exponent_field(bits: u64) -> nat {
    (bits as nat / 0x10_0000_0000_0000) % 0x800
}

/// The fraction field.
pub open spec fn fraction_field(bits: u64) -> nat {
    bits as nat % 0x10_0000_0000_0000
}

/// The pattern stands for a number: neither an infinity nor a NaN.
pub open spec fn is_finite(bits: u64) -> bool {
    exponent_field(bits) != 0x7FF
}

/// The magnitude of the number that a pattern stands for, in units of the
/// smallest positive double (two to the power of minus 1074).
pub open spec fn magnitude(bits: u64) -> nat {
    if exponent_field(bits) == 0 {
        fraction_field(bits)
    } else {
        (0x10_0000_0000_0000 + fraction_field(bits)) * pow2((exponent_field(bits) - 1) as nat)
    }
}

/// The scale is a number, is not negative and lies between 0.1 and 2.0, both
/// of them accepted.
pub open spec fn scale_accepted(bits: u64) -> bool {
    &&& !is_negative(bits)
    &&& is_finite(bits)
    &&& magnitude(MIN_SCALE_BITS) <= magnitude(bits) <= magnitude(MAX_SCALE_BITS)
}

/// The smaller of two non-negative patterns stands for the smaller number.
pub proof fn lemma_patterns_ordered(a: u64, b: u64)
    requires
        a < b,
        !is_negative(b),
    ensures
        magnitude(a) < magnitude(b),
{
    let ea = exponent_field(a);
    let eb = exponent_field(b);
    let fa = fraction_field(a);
    let fb = fraction_field(b);
    assert(a == ea * 0x10_0000_0000_0000 + fa);
    assert(b == eb * 0x10_0000_0000_0000 + fb);
    assert(ea <= eb);
    if ea == eb {
        if ea > 0 {
            let p = pow2((ea - 1) as nat);
            lemma_pow2_pos((ea - 1) as nat);
            assert((0x10_0000_0000_0000 + fa) * p < (0x10_0000_0000_0000 + fb) * p)
                by (nonlinear_arith)
                requires
                    fa < fb,
                    p > 0,
            ;
        }
    } else {
        let q = pow2((eb - 1) as nat);
        lemma_pow2_pos((eb - 1) as nat);
        assert((0x10_0000_0000_0000 + fb) * q >= 0x10_0000_0000_0000 * q) by (nonlinear_arith)
            requires
                q > 0,
        ;
        if ea == 0 {
            assert(0x10_0000_0000_0000 * q >= 0x10_0000_0000_0000) by (nonlinear_arith)
                requires
                    q > 0,
            ;
        } else {
            let p = pow2((ea - 1) as nat);
            lemma_pow2_pos((ea - 1) as nat);
            lemma_pow2_unfold(ea);
            if ea < eb - 1 {
                lemma_pow2_strictly_increases(ea, (eb - 1) as nat);
            }
            assert(2 * p <= q);
            assert((0x10_0000_0000_0000 + fa) * p < 0x10_0000_0000_0000 * q) by (nonlinear_arith)
                requires
                    fa < 0x10_0000_0000_0000,
                    p > 0,
                    2 * p <= q,
            ;
        }
    }
}

/// The ends of the accepted range: the upper one is exactly 2, and the lower
/// one is the double nearest to one tenth (ten times it misses 1 by at most
/// ten halves of the spacing of the doubles there).
pub proof fn lemma_range_ends()
    ensures
        magnitude(MAX_SCALE_BITS) == 2 * pow2(1074),
        -5 * pow2(1018) <= 10 * magnitude(MIN_SCALE_BITS) - pow2(1074) <= 5 * pow2(1018),
        exponent_field(MIN_SCALE_BITS) - 1 == 1018,
{
    lemma2_to64_rest();
    assert(exponent_field(MAX_SCALE_BITS) == 0x400 && fraction_field(MAX_SCALE_BITS) == 0);
    lemma_pow2_adds(52, 1023);
    lemma_pow2_unfold(1075);
    assert(exponent_field(MIN_SCALE_BITS) == 0x3FB && fraction_field(MIN_SCALE_BITS)
        == 0x9_9999_9999_999A);
    lemma_pow2_adds(56, 1018);
    let p = pow2(1018);
    assert(10 * (0x19_9999_9999_999A * p) == 0x100_0000_0000_0004 * p) by (nonlinear_arith);
    assert(0x100_0000_0000_0004 * p == 0x100_0000_0000_0000 * p + 4 * p) by (nonlinear_arith);
    lemma_pow2_pos(1018);
}

/// Decides whether a scale lies in the accepted range.
pub fn scale_in_range(bits: u64) -> (r: bool)
    ensures
        r == scale_accepted(bits),
{
    proof {
        assert(exponent_field(MIN_SCALE_BITS) == 0x3FB);
        assert(exponent_field(MAX_SCALE_BITS) == 0x400);
        if !is_negative(bits) {
            if bits < MIN_SCALE_BITS {
                lemma_patterns_ordered(bits, MIN_SCALE_BITS);
            } else if bits > MIN_SCALE_BITS {
                lemma_patterns_ordered(MIN_SCALE_BITS, bits);
            }
            if bits < MAX_SCALE_BITS {
                lemma_patterns_ordered(bits, MAX_SCALE_BITS);
            } else if bits > MAX_SCALE_BITS {
                lemma_patterns_ordered(MAX_SCALE_BITS, bits);
            }
        }
    }
    MIN_SCALE_BITS <= bits && bits <= MAX_SCALE_BITS
}

/// The scale of a request that names none: 1.0.
pub fn default_scale() -> (bits: u64)
    ensures
        bits == DEFAULT_SCALE_BITS,
        scale_accepted(bits),
        !is_negative(bits),
        magnitude(bits) == pow2(1074),
{
    proof {
        let b = DEFAULT_SCALE_BITS;
        lemma_patterns_ordered(MIN_SCALE_BITS, b);
        lemma_patterns_ordered(b, MAX_SCALE_BITS);
        assert(exponent_field(b) == 0x3FF);
        assert(fraction_field(b) == 0);
        lemma_pow2_adds(52, 1022);
        lemma2_to64_rest();
        assert(pow2(52) == 0x10_0000_0000_0000);
    }
    DEFAULT_SCALE_BITS
}

/// `scale_in_range` accepts exactly the patterns from that of 0.1 to that of 2.0,
/// and so exactly the numbers from the double nearest to one tenth to 2: no
/// negative number, no infinity and no NaN.
pub proof fn lemma_scale_in_range_result(bits: u64, r: bool)
    requires
        call_ensures(scale_in_range, (bits,), r),
    ensures
        r <==> 0x3FB9_9999_9999_999A <= bits <= 0x4000_0000_0000_0000,
        r ==> 0x19_9999_9999_999A * pow2(1018) <= magnitude(bits) <= 2 * pow2(1074),
        bits < 0x7FF0_0000_0000_0000 && 0x19_9999_9999_999A * pow2(1018) <= magnitude(bits) <= 2
            * pow2(1074) ==> r,
{
    lemma_range_ends();
    assert(exponent_field(MIN_SCALE_BITS) == 0x3FB && fraction_field(MIN_SCALE_BITS)
        == 0x9_9999_9999_999A);
    assert(exponent_field(MAX_SCALE_BITS) == 0x400);
    if bits < 0x8000_0000_0000_0000 {
        if bits < MIN_SCALE_BITS {
            lemma_patterns_ordered(bits, MIN_SCALE_BITS);
        } else if bits > MIN_SCALE_BITS {
            lemma_patterns_ordered(MIN_SCALE_BITS, bits);
        }
        if bits < MAX_SCALE_BITS {
            lemma_patterns_ordered(bits, MAX_SCALE_BITS);
        } else if bits > MAX_SCALE_BITS {
            lemma_patterns_ordered(MAX_SCALE_BITS, bits);
        }
    }
}

/// A pattern below that of infinity stands for its fraction where the exponent
/// field is zero, and otherwise for the fraction with a leading one, doubled as
/// often as the exponent field says beyond one.
pub proof fn lemma_magnitude_of_fields(exponent: nat, fraction: nat, bits: u64)
    requires
        exponent < 0x7FF,
        fraction < 0x10_0000_0000_0000,
        bits == exponent * 0x10_0000_0000_0000 + fraction,
    ensures
        exponent == 0 ==> magnitude(bits) == fraction,
        exponent > 0 ==> magnitude(bits) == (0x10_0000_0000_0000 + fraction) * pow2(
            (exponent - 1) as nat,
        ),
        scale_accepted(bits) ==> 0x3FB <= exponent <= 0x400,
{
    assert(exponent_field(bits) == exponent);
    assert(fraction_field(bits) == fraction);
    if scale_accepted(bits) {
        if bits < MIN_SCALE_BITS {
            lemma_patterns_ordered(bits, MIN_SCALE_BITS);
        }
        if bits > MAX_SCALE_BITS {
            lemma_patterns_ordered(MAX_SCALE_BITS, bits);
        }
    }
}

/// The scale of a request that names none is the number 1: the exponent of one
/// and no fraction.
pub proof fn lemma_default_scale_result(bits: u64)
    requires
        call_ensures(default_scale, (), bits),
    ensures
        bits == 0x3FF * 0x10_0000_0000_0000,
        magnitude(bits) == pow2(1074),
{
}

} // verus!
