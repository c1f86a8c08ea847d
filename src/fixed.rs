use vstd::prelude::*;

verus! {

/// One whole unit in the fixed-point representation: values count millionths.
pub const SCALE: i64 = 1_000_000;

/// The exact product of two 64-bit integers.
pub fn mul_wide(a: i64, b: i64) -> (r: i128)
    ensures
        r == a * b,
{
    proof {
        assert(-0x8000_0000_0000_0000 * 0x8000_0000_0000_0000 <= a * b <= 0x8000_0000_0000_0000
            * 0x8000_0000_0000_0000) by (nonlinear_arith)
            requires
                -0x8000_0000_0000_0000 <= a <= 0x7fff_ffff_ffff_ffff,
                -0x8000_0000_0000_0000 <= b <= 0x7fff_ffff_ffff_ffff,
        ;
    }
    (a as i128) * (b as i128)
}

/// Division rounded toward negative infinity, for a positive divisor.
pub fn floor_div(a: i128, b: i128) -> (r: i128)
    requires
        b > 0,
    ensures
        r == a as int / b as int,
{
    if a >= 0 {
        a / b
    } else {
        let m: i128 = -(a + 1);
        let q: i128 = m / b;
        proof {
            let ai = a as int;
            let bi = b as int;
            let qi = q as int;
            let mi = m as int;
            vstd::arithmetic::div_mod::lemma_fundamental_div_mod(mi, bi);
            assert(mi == bi * qi + mi % bi);
            assert(0 <= mi % bi < bi);
            assert(ai == bi * (-qi - 1) + (bi - 1 - mi % bi)) by (nonlinear_arith)
                requires
                    mi == bi * qi + mi % bi,
                    ai == -mi - 1,
            ;
            vstd::arithmetic::div_mod::lemma_fundamental_div_mod_converse(
                ai,
                bi,
                -qi - 1,
                bi - 1 - mi % bi,
            );
        }
        -q - 1
    }
}

} // verus!
