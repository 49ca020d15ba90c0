//! The arithmetic that an exercise task grinds through between its sleeps:
//! a long product, kept small by taking remainders on the way.

use vstd::prelude::*;

verus! {

/// The prime by which the running product is reduced.
pub const MODULUS: u64 = 998_244_353;

/// The product of all numbers from 1 up to, but not including, `n`, reduced
/// by [`MODULUS`] after every multiplication. It is 1 where there is nothing
/// to multiply.
pub open spec fn product_below(n: nat) -> nat
    decreases n,
{
    if n <= 1 {
        1
    } else {
        (product_below((n - 1) as nat) * (n - 1)) as nat % (MODULUS as nat)
    }
}

/// Computes [`product_below`].
pub fn reduced_product(n: u64) -> (result: u64)
    ensures
        result == product_below(n as nat),
        result < MODULUS,
{
    let mut result: u64 = 1;
    let mut i: u64 = 1;
    while i < n
        invariant
            1 <= i,
            i <= n || i == 1,
            result == product_below(i as nat),
            result < MODULUS,
        decreases n - i,
    {
        assert(result * i <= 0xffff_ffff_ffff_ffff * 0xffff_ffff_ffff_ffff) by (nonlinear_arith)
            requires
                0 <= result <= 0xffff_ffff_ffff_ffff,
                0 <= i <= 0xffff_ffff_ffff_ffff,
        ;
        let wide: u128 = (result as u128) * (i as u128);
        result = (wide % (MODULUS as u128)) as u64;
        i = i + 1;
    }
    result
}

} // verus!
