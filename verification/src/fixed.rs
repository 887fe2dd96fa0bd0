//! Exact fixed-point arithmetic: scaling by a rational factor with the
//! division truncated toward zero, and clamping, as the pipeline's filters
//! and window weights need them. The scaling factor may be negative.

use vstd::prelude::*;

use crate::FP_ONE;

verus! {

/// `v * num / den` with the division truncated toward zero, as machine
/// integer division does it.
pub open spec fn mul_div(v: int, num: int, den: int) -> int
    recommends
        den > 0,
{
    let p = v * num;
    if p >= 0 {
        p / den
    } else {
        -((-p) / den)
    }
}

/// `v` scaled by `num / FP_ONE` and then clamped: first capped at `hi`, then
/// raised to `lo`, the order the activation filters use.
pub open spec fn scale_clamp(v: int, num: int, lo: int, hi: int) -> int {
    let scaled = mul_div(v, num, FP_ONE as int);
    let capped = if scaled < hi {
        scaled
    } else {
        hi
    };
    if capped < lo {
        lo
    } else {
        capped
    }
}

/// The product of two values below `2^63` stays below `2^126`.
proof fn lemma_mag_product_bound(a: u128, b: u128)
    requires
        a <= 0x8000_0000_0000_0000,
        b <= 0x8000_0000_0000_0000,
    ensures
        a * b <= 0x4000_0000_0000_0000_0000_0000_0000_0000,
{
    assert(a * b <= 0x8000_0000_0000_0000 * 0x8000_0000_0000_0000) by (nonlinear_arith)
        requires
            a <= 0x8000_0000_0000_0000,
            b <= 0x8000_0000_0000_0000,
    ;
}

/// A magnitude bound on the inputs gives a magnitude bound on the scaled
/// value.
pub proof fn lemma_mul_div_magnitude(v: int, num: int, den: int, vb: int, nb: int)
    requires
        -vb <= v <= vb,
        -nb <= num <= nb,
        1 <= den,
        0 <= vb,
        0 <= nb,
    ensures
        -((vb * nb) / den) <= mul_div(v, num, den) <= (vb * nb) / den,
{
    let p = v * num;
    let vm = if v >= 0 {
        v
    } else {
        -v
    };
    let nm = if num >= 0 {
        num
    } else {
        -num
    };
    lemma_signed_product(v, num, vm, nm);
    assert(vm * nm <= vb * nb) by (nonlinear_arith)
        requires
            0 <= vm <= vb,
            0 <= nm <= nb,
    ;
    assert(vb * nb >= 0);
    assert(-(vb * nb) <= p <= vb * nb);
    assert((vb * nb) / den >= 0) by {
        vstd::arithmetic::div_mod::lemma_div_is_ordered(0, vb * nb, den);
    }
    if p >= 0 {
        vstd::arithmetic::div_mod::lemma_div_is_ordered(p, vb * nb, den);
        vstd::arithmetic::div_mod::lemma_div_is_ordered(0, p, den);
    } else {
        vstd::arithmetic::div_mod::lemma_div_is_ordered(-p, vb * nb, den);
        vstd::arithmetic::div_mod::lemma_div_is_ordered(0, -p, den);
    }
}

/// The magnitudes of the operands determine the product's magnitude and
/// sign: `v * num` is the signed version of `|v| * |num|`.
proof fn lemma_signed_product(v: int, num: int, vm: int, nm: int)
    requires
        vm == if v >= 0 {
            v
        } else {
            -v
        },
        nm == if num >= 0 {
            num
        } else {
            -num
        },
    ensures
        v * num == if (v < 0) != (num < 0) {
            -(vm * nm)
        } else {
            vm * nm
        },
        vm * nm >= 0,
{
    assert(v * num == (if (v < 0) != (num < 0) {
        -(vm * nm)
    } else {
        vm * nm
    }) && vm * nm >= 0) by (nonlinear_arith)
        requires
            vm == (if v >= 0 {
                v
            } else {
                -v
            }),
            nm == (if num >= 0 {
                num
            } else {
                -num
            }),
    ;
}

/// `v * num / den`, exact, truncated toward zero.
pub fn scale_value(v: i64, num: i64, den: i64) -> (r: i64)
    requires
        0 < den,
        -(i64::MAX as int) <= mul_div(v as int, num as int, den as int) <= i64::MAX as int,
    ensures
        r as int == mul_div(v as int, num as int, den as int),
{
    let vm: u128 = if v >= 0 {
        v as u128
    } else {
        (-(v as i128)) as u128
    };
    let nm: u128 = if num >= 0 {
        num as u128
    } else {
        (-(num as i128)) as u128
    };
    proof {
        lemma_mag_product_bound(vm, nm);
        lemma_signed_product(v as int, num as int, vm as int, nm as int);
    }
    let mag: u128 = vm * nm / (den as u128);
    if (v < 0) != (num < 0) {
        -(mag as i64)
    } else {
        mag as i64
    }
}

/// `v` scaled by `num / FP_ONE` and clamped into the band from `lo` to `hi`
/// (cap first, then raise), exact for every `v`.
pub fn scale_value_clamped(v: i64, num: i64, lo: i64, hi: i64) -> (r: i64)
    ensures
        r as int == scale_clamp(v as int, num as int, lo as int, hi as int),
{
    let vm: u128 = if v >= 0 {
        v as u128
    } else {
        (-(v as i128)) as u128
    };
    let nm: u128 = if num >= 0 {
        num as u128
    } else {
        (-(num as i128)) as u128
    };
    proof {
        lemma_mag_product_bound(vm, nm);
        lemma_signed_product(v as int, num as int, vm as int, nm as int);
    }
    let mag: i128 = (vm * nm / (FP_ONE as u128)) as i128;
    let scaled: i128 = if (v < 0) != (num < 0) {
        -mag
    } else {
        mag
    };
    let capped: i128 = if scaled < hi as i128 {
        scaled
    } else {
        hi as i128
    };
    if capped < lo as i128 {
        lo
    } else {
        capped as i64
    }
}

} // verus!
