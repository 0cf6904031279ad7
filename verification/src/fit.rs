//! The size of the shared picture.
//!
//! A display that is too large is scaled down to the largest size that a shared desktop may have.
//! The scale is a double-precision number, that is one of 53 bits, and so is each scaled side before
//! it is rounded to whole pixels; here both are kept as whole numbers of a unit.
use crate::remote_desktop::{
    RemoteDesktopConfig, MAX_DESKTOP_FPS, MAX_DESKTOP_HEIGHT, MAX_DESKTOP_WIDTH,
};
use crate::rounding::{nearest_whole, round_to_double};
use crate::rounding;
use vstd::prelude::*;

verus! {

/// The least power of two, from `unit` on, by which the fraction must be multiplied to have 53 bits
/// before the point.
pub open spec fn scale_unit(n: int, d: int, unit: int) -> int
    decreases 0x20_0000_0000_0000 * d - n * unit,
    when n > 0 && unit > 0
    via scale_unit_decreases
{
    if n * unit >= 0x10_0000_0000_0000 * d {
        unit
    } else {
        scale_unit(n, d, 2 * unit)
    }
}

#[via_fn]
proof fn scale_unit_decreases(n: int, d: int, unit: int) {
    assert(n * (2 * unit) == 2 * (n * unit)) by (nonlinear_arith);
    assert(n * unit > 0) by (nonlinear_arith)
        requires
            n > 0,
            unit > 0,
    ;
}

/// The fraction as a double-precision number, in units of `scale_unit`.
pub open spec fn significand(n: int, d: int) -> int {
    rounding::nearest(n * scale_unit(n, d, 1), d)
}

/// The side, scaled by the fraction and rounded to whole pixels, at least one.
pub open spec fn scaled_side(side: int, n: int, d: int) -> int {
    let unit = scale_unit(n, d, 1);
    let pixels = (rounding::rounded(side * significand(n, d)) + unit / 2) / unit;
    if pixels < 1 {
        1
    } else {
        pixels
    }
}

/// The size in which a display of this size is shared.
pub open spec fn fitted(width: u32, height: u32) -> RemoteDesktopConfig {
    if width == 0 || height == 0 || (width <= MAX_DESKTOP_WIDTH && height <= MAX_DESKTOP_HEIGHT) {
        RemoteDesktopConfig {
            width: if width == 0 || height == 0 {
                MAX_DESKTOP_WIDTH
            } else {
                width
            },
            height: if width == 0 || height == 0 {
                MAX_DESKTOP_HEIGHT
            } else {
                height
            },
            max_fps: MAX_DESKTOP_FPS,
        }
    } else if MAX_DESKTOP_WIDTH * height <= MAX_DESKTOP_HEIGHT * width {
        RemoteDesktopConfig {
            width: scaled_side(width as int, MAX_DESKTOP_WIDTH as int, width as int) as u32,
            height: scaled_side(height as int, MAX_DESKTOP_WIDTH as int, width as int) as u32,
            max_fps: MAX_DESKTOP_FPS,
        }
    } else {
        RemoteDesktopConfig {
            width: scaled_side(width as int, MAX_DESKTOP_HEIGHT as int, height as int) as u32,
            height: scaled_side(height as int, MAX_DESKTOP_HEIGHT as int, height as int) as u32,
            max_fps: MAX_DESKTOP_FPS,
        }
    }
}

/// The side, scaled by the fraction `n / d`, which is less than one. A side that exactly scaled is
/// no longer than `limit` is not made longer by rounding.
fn scale_side(side: u32, n: u32, d: u32, Ghost(limit): Ghost<int>) -> (r: u32)
    requires
        0 < n < d,
        n <= 1280,
        1 <= limit <= 1280,
        side * n <= limit * d,
    ensures
        r == scaled_side(side as int, n as int, d as int),
        1 <= scaled_side(side as int, n as int, d as int) <= limit,
{
    let n128: u128 = n as u128;
    let d128: u128 = d as u128;
    let goal: u128 = 0x10_0000_0000_0000 * d128;
    let mut unit: u128 = 1;
    let mut grown: u128 = n128;
    while grown < goal
        invariant
            n128 == n,
            d128 == d,
            0 < n < d,
            n <= 1280,
            goal == 0x10_0000_0000_0000 * d,
            unit >= 1,
            grown == n * unit,
            unit <= grown,
            grown < 2 * goal,
            scale_unit(n as int, d as int, 1) == scale_unit(n as int, d as int, unit as int),
        decreases 2 * goal - grown,
    {
        assert(n * (2 * unit) == 2 * (n * unit)) by (nonlinear_arith);
        unit = 2 * unit;
        grown = 2 * grown;
    }
    assert(unit > 1) by {
        assert(unit == 1 ==> n * unit == n);
    }
    assert(unit == scale_unit(n as int, d as int, 1));
    let m: u128 = nearest_whole(grown, d128);
    let ghost s = side as int;
    proof {
        assert(m <= 0x20_0000_0000_0000) by (nonlinear_arith)
            requires
                2 * (m * d128) <= 2 * grown + d128,
                grown < 0x20_0000_0000_0000 * d128,
                d128 > 0,
        ;
        assert(s * m <= 0xffff_ffff * 0x20_0000_0000_0000) by (nonlinear_arith)
            requires
                0 <= s <= 0xffff_ffff,
                0 <= m <= 0x20_0000_0000_0000,
        ;
        assert(s * m >= 0) by (nonlinear_arith)
            requires
                s >= 0,
                m >= 0,
        ;
    }
    let v: u128 = (side as u128) * m;
    let product: u128 = round_to_double(v);
    proof {
        lemma_scaled_bound(
            n as int,
            d as int,
            s,
            limit,
            unit as int,
            m as int,
            v as int,
            product as int,
        );
    }
    let pixels: u128 = (product + unit / 2) / unit;
    if pixels < 1 {
        1
    } else {
        pixels as u32
    }
}

/// Rounding to 53 bits twice and to whole pixels does not carry a side over its limit.
proof fn lemma_scaled_bound(
    n: int,
    d: int,
    side: int,
    limit: int,
    unit: int,
    m: int,
    v: int,
    product: int,
)
    requires
        0 < n < d,
        0 <= side,
        1 <= limit <= 1280,
        side * n <= limit * d,
        1 < unit,
        n * unit >= 0x10_0000_0000_0000 * d,
        0 <= m,
        2 * (m * d) <= 2 * (n * unit) + d,
        v == side * m,
        0 <= v,
        0x20_0000_0000_0000 * product <= 0x20_0000_0000_0001 * v,
        0 <= product,
    ensures
        0 <= (product + unit / 2) / unit <= limit,
        product + unit / 2 < (limit + 1) * unit,
{
    let u = limit * unit;
    assert(u <= 1280 * unit) by (nonlinear_arith)
        requires
            u == limit * unit,
            limit <= 1280,
            unit > 0,
    ;
    assert(0x10_0000_0000_0000 * side <= u) by {
        let a = side * n;
        let b = limit * d;
        assert(0x10_0000_0000_0000 * a <= 0x10_0000_0000_0000 * b);
        assert(0x10_0000_0000_0000 * b <= limit * (n * unit)) by (nonlinear_arith)
            requires
                b == limit * d,
                n * unit >= 0x10_0000_0000_0000 * d,
                limit >= 1,
        ;
        assert(limit * (n * unit) == n * u) by (nonlinear_arith)
            requires
                u == limit * unit,
        ;
        assert(0x10_0000_0000_0000 * side <= u) by (nonlinear_arith)
            requires
                0x10_0000_0000_0000 * (side * n) <= n * u,
                n > 0,
        ;
    }
    assert(2 * v <= 2 * u + side) by {
        assert(2 * (v * d) <= 2 * (side * (n * unit)) + side * d) by (nonlinear_arith)
            requires
                v == side * m,
                2 * (m * d) <= 2 * (n * unit) + d,
                side >= 0,
        ;
        assert(side * (n * unit) <= u * d) by (nonlinear_arith)
            requires
                side * n <= limit * d,
                u == limit * unit,
                unit > 0,
        ;
        assert(2 * v <= 2 * u + side) by (nonlinear_arith)
            requires
                2 * (v * d) <= 2 * (u * d) + side * d,
                d > 0,
        ;
    }
    assert(0x20_0000_0000_0000 * v <= 0x20_0000_0000_0001 * u);
    assert(2 * product < 2 * u + unit - 1);
    assert((limit + 1) * unit == u + unit) by (nonlinear_arith)
        requires
            u == limit * unit,
    ;
    let total = product + unit / 2;
    assert(total < u + unit);
    vstd::arithmetic::div_mod::lemma_fundamental_div_mod(total, unit);
    let q = total / unit;
    assert(q <= limit) by (nonlinear_arith)
        requires
            total == unit * q + total % unit,
            total % unit >= 0,
            total < (limit + 1) * unit,
            unit > 0,
    ;
    vstd::arithmetic::div_mod::lemma_div_pos_is_pos(total, unit);
}

/// The size in which a display of this size is shared.
pub fn fit_dimensions(source_width: u32, source_height: u32) -> (r: RemoteDesktopConfig)
    ensures
        r == fitted(source_width, source_height),
        r.checked() is Ok,
{
    if source_width == 0 || source_height == 0 {
        return RemoteDesktopConfig::default();
    }
    let w: u32 = source_width;
    let h: u32 = source_height;
    if w <= MAX_DESKTOP_WIDTH && h <= MAX_DESKTOP_HEIGHT {
        return RemoteDesktopConfig { width: w, height: h, max_fps: MAX_DESKTOP_FPS };
    }
    let (width, height) = if MAX_DESKTOP_WIDTH as u64 * h as u64 <= MAX_DESKTOP_HEIGHT as u64
        * w as u64 {
        (
            scale_side(w, MAX_DESKTOP_WIDTH, w, Ghost(1280)),
            scale_side(h, MAX_DESKTOP_WIDTH, w, Ghost(720)),
        )
    } else {
        (
            scale_side(w, MAX_DESKTOP_HEIGHT, h, Ghost(1280)),
            scale_side(h, MAX_DESKTOP_HEIGHT, h, Ghost(720)),
        )
    };
    RemoteDesktopConfig { width, height, max_fps: MAX_DESKTOP_FPS }
}

proof fn lemma_scale_unit(n: int, d: int, unit: int)
    requires
        0 < n,
        unit > 0,
    ensures
        scale_unit(n, d, unit) >= unit,
        n * scale_unit(n, d, unit) >= 0x10_0000_0000_0000 * d,
    decreases 0x20_0000_0000_0000 * d - n * unit,
{
    assert(n * (2 * unit) == 2 * (n * unit)) by (nonlinear_arith);
    assert(n * unit > 0) by (nonlinear_arith)
        requires
            n > 0,
            unit > 0,
    ;
    if n * unit < 0x10_0000_0000_0000 * d {
        lemma_scale_unit(n, d, 2 * unit);
    }
}

/// Is this the whole number nearest to the fraction, up to a thousandth?
pub open spec fn is_near(pixels: int, numerator: int, denominator: int) -> bool {
    &&& 2000 * (pixels * denominator - numerator) <= 1001 * denominator
    &&& 2000 * (numerator - pixels * denominator) <= 1001 * denominator
}

/// A side of a display that is scaled down is as long as the proportion says, in the nearest whole
/// number of pixels, and at least one pixel long.
pub proof fn a_scaled_side_keeps_the_proportion(side: int, n: int, d: int, limit: int)
    requires
        0 < n < d,
        0 <= side,
        1 <= limit <= 1280,
        side * n <= limit * d,
    ensures
        1 <= scaled_side(side, n, d) <= limit,
        is_near(scaled_side(side, n, d), side * n, d) || scaled_side(side, n, d) == 1 && side * n
            < d,
{
    lemma_scale_unit(n, d, 1);
    let unit = scale_unit(n, d, 1);
    let m = significand(n, d);
    let v = side * m;
    let product = rounding::rounded(v);
    assert(unit >= 0x10_0000_0000_0000) by (nonlinear_arith)
        requires
            n * unit >= 0x10_0000_0000_0000 * d,
            0 < n < d,
    ;
    rounding::nearest_is_off_by_half_at_most(n * unit, d);
    assert(m >= 0) by (nonlinear_arith)
        requires
            2 * (n * unit - m * d) <= d,
            n * unit >= 0x10_0000_0000_0000 * d,
            d > 0,
    ;
    assert(v >= 0) by (nonlinear_arith)
        requires
            v == side * m,
            side >= 0,
            m >= 0,
    ;
    rounding::rounding_keeps_the_leading_bits(v);
    assert(product >= 0);
    lemma_scaled_bound(n, d, side, limit, unit, m, v, product);
    let p = (product + unit / 2) / unit;
    vstd::arithmetic::div_mod::lemma_fundamental_div_mod(product + unit / 2, unit);
    assert(unit * p == p * unit) by (nonlinear_arith);
    // The side is short against the unit.
    assert(0x10_0000_0000_0000 * side <= 1280 * unit) by {
        assert(0x10_0000_0000_0000 * (side * n) <= 0x10_0000_0000_0000 * (limit * d));
        assert(limit * (0x10_0000_0000_0000 * d) <= limit * (n * unit)) by (nonlinear_arith)
            requires
                0x10_0000_0000_0000 * d <= n * unit,
                limit >= 1,
        ;
        assert(limit * (0x10_0000_0000_0000 * d) == 0x10_0000_0000_0000 * (limit * d))
            by (nonlinear_arith);
        assert(limit * (n * unit) == n * (limit * unit)) by (nonlinear_arith);
        assert(0x10_0000_0000_0000 * side <= limit * unit) by (nonlinear_arith)
            requires
                0x10_0000_0000_0000 * (side * n) <= n * (limit * unit),
                n > 0,
        ;
        assert(limit * unit <= 1280 * unit) by (nonlinear_arith)
            requires
                limit <= 1280,
                unit > 0,
        ;
    }
    let u = side * n * unit;
    // What rounding the proportion costs.
    assert(2 * (v * d - u) <= side * d) by (nonlinear_arith)
        requires
            v == side * m,
            u == side * n * unit,
            2 * (m * d - n * unit) <= d,
            side >= 0,
    ;
    assert(2 * (u - v * d) <= side * d) by (nonlinear_arith)
        requires
            v == side * m,
            u == side * n * unit,
            2 * (n * unit - m * d) <= d,
            side >= 0,
    ;
    assert(u <= 1280 * (unit * d)) by (nonlinear_arith)
        requires
            u == side * n * unit,
            side * n <= limit * d,
            limit <= 1280,
            unit > 0,
            d > 0,
    ;
    let w = unit * d;
    assert(0x10_0000_0000_0000 * (side * d) <= 1280 * w) by (nonlinear_arith)
        requires
            0x10_0000_0000_0000 * side <= 1280 * unit,
            w == unit * d,
            d > 0,
    ;
    // What rounding the product costs.
    let a = product * d;
    let b = v * d;
    assert(0x20_0000_0000_0000 * a <= 0x20_0000_0000_0001 * b) by (nonlinear_arith)
        requires
            0x20_0000_0000_0000 * product <= 0x20_0000_0000_0001 * v,
            a == product * d,
            b == v * d,
            d > 0,
    ;
    assert(0x20_0000_0000_0000 * a >= 0x1f_ffff_ffff_ffff * b) by (nonlinear_arith)
        requires
            0x20_0000_0000_0000 * product >= 0x1f_ffff_ffff_ffff * v,
            a == product * d,
            b == v * d,
            d > 0,
    ;
    assert(w >= 0x10_0000_0000_0000) by (nonlinear_arith)
        requires
            w == unit * d,
            unit >= 0x10_0000_0000_0000,
            d >= 1,
    ;
    assert(10000 * (a - u) <= w);
    assert(10000 * (u - a) <= w);
    // What rounding to whole pixels costs.
    let c = p * unit * d;
    assert(2 * (c - a) <= w) by (nonlinear_arith)
        requires
            2 * (p * unit - product) <= unit,
            c == p * unit * d,
            a == product * d,
            w == unit * d,
            d > 0,
    ;
    assert(2 * (a - c) <= w + d) by (nonlinear_arith)
        requires
            2 * (product - p * unit) <= unit + 1,
            c == p * unit * d,
            a == product * d,
            w == unit * d,
            d > 0,
    ;
    assert(10000 * d <= w) by (nonlinear_arith)
        requires
            w == unit * d,
            unit >= 0x10_0000_0000_0000,
            d > 0,
    ;
    assert(10000 * (c - u) <= 5001 * w);
    assert(10000 * (u - c) <= 5002 * w);
    let numerator = side * n;
    assert(10000 * (p * d - numerator) <= 5001 * d) by (nonlinear_arith)
        requires
            10000 * (c - u) <= 5001 * w,
            c == p * unit * d,
            u == numerator * unit,
            w == unit * d,
            unit > 0,
    ;
    assert(10000 * (numerator - p * d) <= 5002 * d) by (nonlinear_arith)
        requires
            10000 * (u - c) <= 5002 * w,
            c == p * unit * d,
            u == numerator * unit,
            w == unit * d,
            unit > 0,
    ;
    if p < 1 {
        assert(p * d == 0) by (nonlinear_arith)
            requires
                p == 0,
        ;
    }
}

/// A display that can be shared as it is keeps its size. A larger one fills the largest size that a
/// shared desktop may have, in its width or in its height, and the other side keeps the proportion.
/// A display without a size is shared in the largest.
pub proof fn displays_are_shared_in_proportion(width: u32, height: u32)
    ensures
        ({
            let r = fitted(width, height);
            let empty = width == 0 || height == 0;
            let small = width <= 1280 && height <= 720;
            &&& empty ==> r.width == 1280 && r.height == 720
            &&& !empty && small ==> r.width == width && r.height == height
            &&& !empty && !small && 1280 * height <= 720 * width ==> {
                &&& r.width == 1280
                &&& is_near(r.height as int, height * 1280, width as int) || r.height == 1 && height
                    * 1280 < width
            }
            &&& !empty && !small && 1280 * height > 720 * width ==> {
                &&& r.height == 720
                &&& is_near(r.width as int, width * 720, height as int) || r.width == 1 && width
                    * 720 < height
            }
            &&& 1 <= r.width <= 1280
            &&& 1 <= r.height <= 720
        }),
{
    let w = width as int;
    let h = height as int;
    if w > 0 && h > 0 && !(w <= 1280 && h <= 720) {
        if 1280 * h <= 720 * w {
            assert(w * 1280 == 1280 * w) by (nonlinear_arith);
            a_scaled_side_keeps_the_proportion(w, 1280, w, 1280);
            a_scaled_side_keeps_the_proportion(h, 1280, w, 720);
            let p = scaled_side(w, 1280, w);
            assert(p == 1280) by (nonlinear_arith)
                requires
                    2000 * (w * 1280 - p * w) <= 1001 * w || p == 1 && w * 1280 < w,
                    p <= 1280,
                    w > 0,
            ;
        } else {
            a_scaled_side_keeps_the_proportion(w, 720, h, 1280);
            a_scaled_side_keeps_the_proportion(h, 720, h, 720);
            let p = scaled_side(h, 720, h);
            assert(p == 720) by (nonlinear_arith)
                requires
                    2000 * (h * 720 - p * h) <= 1001 * h || p == 1 && h * 720 < h,
                    p <= 720,
                    h > 0,
            ;
        }
    }
}

}
