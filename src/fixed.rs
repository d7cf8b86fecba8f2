//! Fixed-point arithmetic: a value `v` stands for `v / SCALE`.
use vstd::prelude::*;

verus! {

/// Number of fixed-point units in one whole unit.
pub const SCALE: i64 = 1_000_000;

/// Clamps a mathematical integer into the range of `i64`.
pub open spec fn clamp_i64(x: int) -> int {
    if x < i64::MIN {
        i64::MIN as int
    } else if x > i64::MAX {
        i64::MAX as int
    } else {
        x
    }
}

/// Division rounding toward zero (the divisor is positive).
pub open spec fn quot(a: int, b: int) -> int {
    if a >= 0 {
        a / b
    } else {
        -((-a) / b)
    }
}

/// Fixed-point product, rounded toward zero and saturated.
pub open spec fn mul_spec(a: int, b: int) -> int {
    clamp_i64(quot(a * b, SCALE as int))
}

/// Fixed-point sum, saturated.
pub open spec fn add_spec(a: int, b: int) -> int {
    clamp_i64(a + b)
}

/// Fixed-point difference, saturated.
pub open spec fn sub_spec(a: int, b: int) -> int {
    clamp_i64(a - b)
}

/// Saturates a wide integer into `i64`.
pub fn clamp_wide(q: i128) -> (r: i64)
    ensures
        r == clamp_i64(q as int),
{
    if q > i64::MAX as i128 {
        i64::MAX
    } else if q < i64::MIN as i128 {
        i64::MIN
    } else {
        q as i64
    }
}

/// Saturating fixed-point multiplication.
pub fn fx_mul(a: i64, b: i64) -> (r: i64)
    ensures
        r == mul_spec(a as int, b as int),
{
    let ai = a as i128;
    let bi = b as i128;
    assert(-0x4000_0000_0000_0000_0000_0000_0000_0000int <= ai * bi
        <= 0x4000_0000_0000_0000_0000_0000_0000_0000int) by (nonlinear_arith)
        requires
            i64::MIN <= ai <= i64::MAX,
            i64::MIN <= bi <= i64::MAX,
    ;
    let p: i128 = ai * bi;
    let s: i128 = SCALE as i128;
    let q: i128 = if p >= 0 {
        p / s
    } else {
        let n: i128 = -p;
        let d: i128 = n / s;
        -d
    };
    clamp_wide(q)
}

/// Saturating fixed-point addition.
pub fn fx_add(a: i64, b: i64) -> (r: i64)
    ensures
        r == add_spec(a as int, b as int),
{
    clamp_wide(a as i128 + b as i128)
}

/// Saturating fixed-point subtraction.
pub fn fx_sub(a: i64, b: i64) -> (r: i64)
    ensures
        r == sub_spec(a as int, b as int),
{
    clamp_wide(a as i128 - b as i128)
}

/// A three-component fixed-point vector.
#[derive(Clone, Copy, Debug, PartialEq, Eq, Structural)]
pub struct Vec3 {
    pub x: i64,
    pub y: i64,
    pub z: i64,
}

/// A four-component fixed-point vector (a color is RGBA).
#[derive(Clone, Copy, Debug, PartialEq, Eq, Structural)]
pub struct Vec4 {
    pub x: i64,
    pub y: i64,
    pub z: i64,
    pub w: i64,
}

impl Vec3 {
    pub fn new(x: i64, y: i64, z: i64) -> (r: Vec3)
        ensures
            r == (Vec3 { x, y, z }),
    {
        Vec3 { x, y, z }
    }

    pub fn zero() -> (r: Vec3)
        ensures
            r == (Vec3 { x: 0, y: 0, z: 0 }),
    {
        Vec3 { x: 0, y: 0, z: 0 }
    }
}

impl Vec4 {
    pub fn new(x: i64, y: i64, z: i64, w: i64) -> (r: Vec4)
        ensures
            r == (Vec4 { x, y, z, w }),
    {
        Vec4 { x, y, z, w }
    }
}

} // verus!
