//! Rounding as double-precision numbers do it.
use vstd::prelude::*;

verus! {

/// The whole number nearest to the fraction, the even one of two.
pub open spec fn nearest(n: int, d: int) -> int {
    let q = n / d;
    let r = n % d;
    if 2 * r > d || (2 * r == d && q % 2 == 1) {
        q + 1
    } else {
        q
    }
}

/// The least power of two, from `unit` on, in which the number has 53 bits or fewer.
pub open spec fn coarse_unit(v: int, unit: int) -> int
    decreases v - unit,
    when unit > 0
{
    if v < 0x20_0000_0000_0000 * unit {
        unit
    } else {
        coarse_unit(v, 2 * unit)
    }
}

/// The number rounded to 53 bits.
pub open spec fn rounded(v: int) -> int {
    nearest(v, coarse_unit(v, 1)) * coarse_unit(v, 1)
}

pub fn nearest_whole(n: u128, d: u128) -> (r: u128)
    requires
        0 < d <= 0xffff_ffff_ffff_ffff_ffff_ffff,
        n <= 0xffff_ffff_ffff_ffff_ffff_ffff,
    ensures
        r == nearest(n as int, d as int),
        2 * (r * d) <= 2 * n + d,
{
    let q: u128 = n / d;
    let r: u128 = n % d;
    proof {
        vstd::arithmetic::div_mod::lemma_fundamental_div_mod(n as int, d as int);
        assert(d * q == q * d) by (nonlinear_arith);
        assert((q + 1) * d == q * d + d) by (nonlinear_arith);
        assert(q <= n) by (nonlinear_arith)
            requires
                n == q * d + r,
                d >= 1,
                r >= 0,
                q >= 0,
        ;
    }
    if 2 * r > d || (2 * r == d && q % 2 == 1) {
        q + 1
    } else {
        q
    }
}

/// The number rounded to 53 bits.
pub fn round_to_double(v: u128) -> (r: u128)
    requires
        v <= 0xffff_ffff_ffff_ffff_ffff_ffff,
    ensures
        r == rounded(v as int),
        0x20_0000_0000_0000 * r <= 0x20_0000_0000_0001 * v,
{
    let mut coarse: u128 = 1;
    while v >= 0x20_0000_0000_0000 * coarse
        invariant
            1 <= coarse,
            coarse == 1 || 0x10_0000_0000_0000 * coarse <= v,
            v <= 0xffff_ffff_ffff_ffff_ffff_ffff,
            coarse_unit(v as int, 1) == coarse_unit(v as int, coarse as int),
        decreases 2 * v - coarse,
    {
        coarse = 2 * coarse;
    }
    let significant: u128 = nearest_whole(v, coarse);
    proof {
        if coarse == 1 {
            assert(nearest(v as int, 1) == v);
            assert(significant * coarse == v) by (nonlinear_arith)
                requires
                    coarse == 1,
                    significant == v,
            ;
        }
        assert(significant * coarse >= 0) by (nonlinear_arith);
    }
    significant * coarse
}

/// The nearest whole number is off by half at most, and where it is off by half it is even.
pub proof fn nearest_is_off_by_half_at_most(n: int, d: int)
    requires
        d > 0,
    ensures
        2 * (nearest(n, d) * d - n) <= d,
        2 * (n - nearest(n, d) * d) <= d,
        2 * (nearest(n, d) * d - n) == d || 2 * (n - nearest(n, d) * d) == d ==> nearest(n, d) % 2
            == 0,
{
    vstd::arithmetic::div_mod::lemma_fundamental_div_mod(n, d);
    let q = n / d;
    assert(d * q == q * d) by (nonlinear_arith);
    assert((q + 1) * d == q * d + d) by (nonlinear_arith);
}

proof fn lemma_coarse_unit(v: int, unit: int)
    requires
        v >= 0,
        unit >= 1,
        unit == 1 || 0x10_0000_0000_0000 * unit <= v,
    ensures
        coarse_unit(v, unit) >= 1,
        v < 0x20_0000_0000_0000 * coarse_unit(v, unit),
        coarse_unit(v, unit) == 1 || 0x10_0000_0000_0000 * coarse_unit(v, unit) <= v,
    decreases v - unit,
{
    if v >= 0x20_0000_0000_0000 * unit {
        lemma_coarse_unit(v, 2 * unit);
    }
}

/// A number of 53 bits is kept as it is, and any other is off by no more than half of its last bit
/// of those.
pub proof fn rounding_keeps_the_leading_bits(v: int)
    requires
        v >= 0,
    ensures
        v < 0x20_0000_0000_0000 ==> rounded(v) == v,
        0x20_0000_0000_0000 * rounded(v) <= 0x20_0000_0000_0001 * v,
        0x20_0000_0000_0000 * rounded(v) >= 0x1f_ffff_ffff_ffff * v,
{
    lemma_coarse_unit(v, 1);
    let unit = coarse_unit(v, 1);
    nearest_is_off_by_half_at_most(v, unit);
    if unit == 1 {
        assert(nearest(v, 1) == v);
        assert(nearest(v, 1) * 1 == v);
    } else {
        assert(0x10_0000_0000_0000 * unit <= v);
    }
    if v < 0x20_0000_0000_0000 {
        assert(coarse_unit(v, 1) == 1);
    }
}

}
