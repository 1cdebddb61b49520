//! Fixed-point numbers: a raw `i32` `x` stands for the real `x / SCALE`.
use vstd::prelude::*;
use vstd::arithmetic::div_mod::lemma_fundamental_div_mod;
use vstd::arithmetic::div_mod::lemma_fundamental_div_mod_converse;

verus! {

/// Number of fractional bits of the encoding.
pub const FRAC_BITS: u32 = 16;

/// Raw value of the real number one.
pub const SCALE: i32 = 65536;

/// The raw product of two fixed-point values carries `SCALE` twice; this
/// brings it back to one `SCALE`, rounding towards minus infinity.
pub open spec fn rescale(x: int) -> int {
    x / (SCALE as int)
}

pub open spec fn fits_i32(x: int) -> bool {
    i32::MIN <= x <= i32::MAX
}

/// Bound on the magnitude of the raw product of two `i32` values.
pub proof fn lemma_mul_bound(a: i32, b: i32)
    ensures
        -0x4000_0000_0000_0000 <= (a as int) * (b as int) <= 0x4000_0000_0000_0000,
{
    assert(-0x8000_0000 <= (a as int) <= 0x7fff_ffff);
    assert(-0x8000_0000 <= (b as int) <= 0x7fff_ffff);
    assert(-0x4000_0000_0000_0000 <= (a as int) * (b as int) <= 0x4000_0000_0000_0000)
        by (nonlinear_arith)
        requires
            -0x8000_0000 <= (a as int) <= 0x7fff_ffff,
            -0x8000_0000 <= (b as int) <= 0x7fff_ffff,
    ;
}

/// Floor division of `x` by `SCALE`, computed on magnitudes.
pub fn rescale_i128(x: i128) -> (r: i128)
    requires
        x > i128::MIN,
    ensures
        r == rescale(x as int),
{
    let s: i128 = SCALE as i128;
    if x >= 0 {
        let q: u128 = (x as u128) / (s as u128);
        proof {
            lemma_fundamental_div_mod(x as int, s as int);
        }
        q as i128
    } else {
        let n: u128 = (-x) as u128;
        let q: u128 = (n + (s as u128) - 1) / (s as u128);
        proof {
            let d = s as int;
            let fq = (x as int) / d;
            let fr = (x as int) % d;
            lemma_fundamental_div_mod(x as int, d);
            assert((n as int) + d - 1 == (-fq) * d + (d - 1 - fr)) by (nonlinear_arith)
                requires
                    (x as int) == d * fq + fr,
                    (n as int) == -(x as int),
            ;
            lemma_fundamental_div_mod_converse((n as int) + d - 1, d, -fq, d - 1 - fr);
        }
        -(q as i128)
    }
}

} // verus!
