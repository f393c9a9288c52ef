//! Exact integer arithmetic helpers used by the physics engine:
//! sign-magnitude (truncating) division and the integer square root.

use vstd::prelude::*;

verus! {

/// Division that truncates toward zero, the rounding the engine uses when a
/// scaled product is brought back down to its unit. For a non-negative
/// dividend it coincides with Euclidean division.
pub open spec fn sdiv(x: int, d: int) -> int {
    if x >= 0 {
        x / d
    } else {
        -((-x) / d)
    }
}

/// `sdiv` is an odd function of its dividend.
pub proof fn lemma_sdiv_odd(x: int, d: int)
    requires
        d >= 1,
    ensures
        sdiv(-x, d) == -sdiv(x, d),
{
    if x == 0 {
        assert(sdiv(0int, d) == 0) by {
            vstd::arithmetic::div_mod::lemma_div_of0(d);
        }
    }
}

/// Truncating division never grows the magnitude of the dividend.
pub proof fn lemma_sdiv_bound(x: int, d: int)
    requires
        d >= 1,
    ensures
        -abs_int(x) <= sdiv(x, d) <= abs_int(x),
        x >= 0 ==> 0 <= sdiv(x, d) <= x,
        x < 0 ==> x <= sdiv(x, d) <= 0,
{
    if x >= 0 {
        vstd::arithmetic::div_mod::lemma_div_basics_4(x, d);
        vstd::arithmetic::div_mod::lemma_div_basics_5(x, d);
    } else {
        vstd::arithmetic::div_mod::lemma_div_basics_4(-x, d);
        vstd::arithmetic::div_mod::lemma_div_basics_5(-x, d);
    }
}

/// A bound on the dividend, stated as a multiple of the divisor, carries
/// over to the quotient.
pub proof fn lemma_sdiv_quotient_bound(x: int, d: int, m: int)
    requires
        d >= 1,
        m >= 0,
        abs_int(x) <= m * d,
    ensures
        abs_int(sdiv(x, d)) <= m,
{
    if x >= 0 {
        vstd::arithmetic::div_mod::lemma_div_basics_4(x, d);
        vstd::arithmetic::div_mod::lemma_div_is_ordered(x, m * d, d);
    } else {
        vstd::arithmetic::div_mod::lemma_div_basics_4(-x, d);
        vstd::arithmetic::div_mod::lemma_div_is_ordered(-x, m * d, d);
    }
    vstd::arithmetic::div_mod::lemma_div_by_multiple(m, d);
}

/// Truncating division leaves a remainder smaller than the divisor: the
/// exact dividend is recovered from the quotient within `d - 1`.
pub proof fn lemma_sdiv_remainder(y: int, d: int)
    requires
        d >= 1,
    ensures
        abs_int(y - d * sdiv(y, d)) <= d - 1,
{
    if y >= 0 {
        vstd::arithmetic::div_mod::lemma_fundamental_div_mod(y, d);
        vstd::arithmetic::div_mod::lemma_mod_bound(y, d);
    } else {
        vstd::arithmetic::div_mod::lemma_fundamental_div_mod(-y, d);
        vstd::arithmetic::div_mod::lemma_mod_bound(-y, d);
        assert(d * -((-y) / d) == -(d * ((-y) / d))) by (nonlinear_arith);
        assert(y - d * sdiv(y, d) == -((-y) - d * ((-y) / d)));
    }
}

/// Magnitude of an integer.
pub open spec fn abs_int(x: int) -> int {
    if x >= 0 {
        x
    } else {
        -x
    }
}

/// Floor of the real square root, defined by counting up.
pub open spec fn sqrt_floor(n: nat) -> nat
    decreases n,
{
    if n == 0 {
        0
    } else {
        let s = sqrt_floor((n - 1) as nat);
        if (s + 1) * (s + 1) <= n {
            s + 1
        } else {
            s
        }
    }
}

/// `sqrt_floor(n)` is the unique integer whose square brackets `n`.
pub proof fn lemma_sqrt_floor_bounds(n: nat)
    ensures
        sqrt_floor(n) * sqrt_floor(n) <= n,
        n < (sqrt_floor(n) + 1) * (sqrt_floor(n) + 1),
    decreases n,
{
    if n > 0 {
        lemma_sqrt_floor_bounds((n - 1) as nat);
        let s = sqrt_floor((n - 1) as nat);
        assert(sqrt_floor(n) == if (s + 1) * (s + 1) <= n {
            s + 1
        } else {
            s
        });
        if (s + 1) * (s + 1) <= n {
            assert(n < (s + 2) * (s + 2)) by (nonlinear_arith)
                requires
                    n - 1 < (s + 1) * (s + 1),
                    (s + 1) * (s + 1) <= n,
                    s >= 0,
            ;
            assert(sqrt_floor(n) == s + 1);
            assert(sqrt_floor(n) + 1 == s + 2);
            assert((sqrt_floor(n) + 1) * (sqrt_floor(n) + 1) == (s + 2) * (s + 2))
                by (nonlinear_arith)
                requires
                    sqrt_floor(n) + 1 == s + 2,
            ;
            assert(n < (sqrt_floor(n) + 1) * (sqrt_floor(n) + 1));
        } else {
            assert(sqrt_floor(n) == s);
            assert(n < (s + 1) * (s + 1));
            assert(n < (sqrt_floor(n) + 1) * (sqrt_floor(n) + 1));
        }
    } else {
        assert(sqrt_floor(0) == 0);
        assert((sqrt_floor(n) + 1) * (sqrt_floor(n) + 1) == 1) by (nonlinear_arith)
            requires
                sqrt_floor(n) == 0,
        ;
        assert(n < (sqrt_floor(n) + 1) * (sqrt_floor(n) + 1));
    }
}

/// Any integer whose square brackets `n` is `sqrt_floor(n)`.
pub proof fn lemma_sqrt_floor_unique(n: nat, r: nat)
    requires
        r * r <= n,
        n < (r + 1) * (r + 1),
    ensures
        r == sqrt_floor(n),
{
    lemma_sqrt_floor_bounds(n);
    let s = sqrt_floor(n);
    assert(r == s) by (nonlinear_arith)
        requires
            r * r <= n,
            n < (r + 1) * (r + 1),
            s * s <= n,
            n < (s + 1) * (s + 1),
            r >= 0,
            s >= 0,
    ;
}

/// Computes the floor of the square root by binary search.
pub fn isqrt(x: u128) -> (r: u128)
    ensures
        r == sqrt_floor(x as nat),
        r * r <= x < (r + 1) * (r + 1),
{
    let mut lo: u128 = 0;
    let mut hi: u128 = 0x1_0000_0000_0000_0000;
    proof {
        assert((hi * hi) as int > x as int) by (nonlinear_arith)
            requires
                hi == 0x1_0000_0000_0000_0000u128,
                x <= u128::MAX,
        ;
    }
    while lo + 1 < hi
        invariant
            lo < hi <= 0x1_0000_0000_0000_0000,
            lo * lo <= x,
            (hi * hi) as int > x as int,
        decreases hi - lo,
    {
        let mid: u128 = lo + (hi - lo) / 2;
        assert(lo < mid < hi);
        proof {
            assert(mid * mid <= u128::MAX) by (nonlinear_arith)
                requires
                    0 <= mid <= 0xffff_ffff_ffff_ffffu128,
            ;
        }
        if mid * mid <= x {
            lo = mid;
        } else {
            hi = mid;
        }
    }
    proof {
        assert(x < ((lo + 1) * (lo + 1)) as int) by (nonlinear_arith)
            requires
                hi == lo + 1,
                (hi * hi) as int > x as int,
        ;
        lemma_sqrt_floor_unique(x as nat, lo as nat);
    }
    lo
}

} // verus!
