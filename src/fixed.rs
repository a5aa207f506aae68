use vstd::prelude::*;

verus! {

/// Number of fixed-point units in one whole unit: a field value `v` stands
/// for the real number `v / SCALE`.
pub const SCALE: i64 = 1000;

/// Clamps an exact value into the range of `i64`: results that overflow
/// saturate, as a float would go to an infinity.
pub open spec fn clamp(v: int) -> int {
    if v > i64::MAX {
        i64::MAX as int
    } else if v < i64::MIN {
        i64::MIN as int
    } else {
        v
    }
}

/// Division that rounds toward zero, as integer division does in Rust.
pub open spec fn div_trunc(x: int, d: int) -> int
    recommends
        d != 0,
{
    let q = (if x >= 0 { x } else { -x }) / (if d >= 0 { d } else { -d });
    if (x >= 0) == (d >= 0) {
        q
    } else {
        -q
    }
}

/// Sum of two fixed-point numbers.
pub open spec fn sum_of(a: int, b: int) -> int {
    clamp(a + b)
}

/// Product of two fixed-point numbers, rounded toward zero.
pub open spec fn product_of(a: int, b: int) -> int {
    clamp(div_trunc(a * b, SCALE as int))
}

/// Negation of a fixed-point number.
pub open spec fn negation_of(a: int) -> int {
    clamp(-a)
}

/// Reciprocal of a fixed-point number, rounded toward zero. The reciprocal
/// of zero is the largest value, the counterpart of a float's infinity.
pub open spec fn reciprocal_of(a: int) -> int {
    if a == 0 {
        i64::MAX as int
    } else {
        clamp(div_trunc(SCALE * SCALE, a))
    }
}

/// Absolute value of a fixed-point number.
pub open spec fn abs_of(a: int) -> int {
    clamp(if a >= 0 { a } else { -a })
}

/// Whether `r` is the integer square root of `n`.
pub open spec fn is_root(n: int, r: int) -> bool {
    0 <= r && r * r <= n < (r + 1) * (r + 1)
}

/// The integer square root of `n`, rounded down.
pub open spec fn root(n: int) -> int {
    choose|r: int| is_root(n, r)
}

proof fn lemma_root_unique(n: int, r: int, s: int)
    requires
        is_root(n, r),
        is_root(n, s),
    ensures
        r == s,
{
    if r < s {
        assert((r + 1) * (r + 1) <= s * s) by (nonlinear_arith)
            requires
                0 <= r,
                r + 1 <= s,
        ;
    }
    if s < r {
        assert((s + 1) * (s + 1) <= r * r) by (nonlinear_arith)
            requires
                0 <= s,
                s + 1 <= r,
        ;
    }
}

fn clamp_wide(v: i128) -> (r: i64)
    ensures
        r == clamp(v as int),
{
    if v > i64::MAX as i128 {
        i64::MAX
    } else if v < i64::MIN as i128 {
        i64::MIN
    } else {
        v as i64
    }
}

/// Divides by a positive divisor, rounding toward zero.
fn div_toward_zero(x: i128, d: i128) -> (r: i128)
    requires
        d > 0,
        x > i128::MIN,
    ensures
        r == div_trunc(x as int, d as int),
{
    if x >= 0 {
        x / d
    } else {
        let m: i128 = -x;
        -(m / d)
    }
}

/// Saturating sum.
pub fn plus(a: i64, b: i64) -> (r: i64)
    ensures
        r == sum_of(a as int, b as int),
{
    clamp_wide(a as i128 + b as i128)
}

/// Saturating product, rounded toward zero.
pub fn times(a: i64, b: i64) -> (r: i64)
    ensures
        r == product_of(a as int, b as int),
{
    proof {
        lemma_product_bound(a as int, b as int);
    }
    let p: i128 = (a as i128) * (b as i128);
    clamp_wide(div_toward_zero(p, SCALE as i128))
}

proof fn lemma_product_bound(a: int, b: int)
    requires
        i64::MIN <= a <= i64::MAX,
        i64::MIN <= b <= i64::MAX,
    ensures
        -0x4000_0000_0000_0000_0000_0000_0000_0000 <= a * b <= 0x4000_0000_0000_0000_0000_0000_0000_0000,
{
    assert(-0x4000_0000_0000_0000_0000_0000_0000_0000 <= a * b
        <= 0x4000_0000_0000_0000_0000_0000_0000_0000) by (nonlinear_arith)
        requires
            -0x8000_0000_0000_0000 <= a <= 0x8000_0000_0000_0000,
            -0x8000_0000_0000_0000 <= b <= 0x8000_0000_0000_0000,
    ;
}

/// Saturating negation.
pub fn negate(a: i64) -> (r: i64)
    ensures
        r == negation_of(a as int),
{
    clamp_wide(-(a as i128))
}

/// Saturating absolute value.
pub fn absolute(a: i64) -> (r: i64)
    ensures
        r == abs_of(a as int),
{
    if a >= 0 {
        a
    } else {
        clamp_wide(-(a as i128))
    }
}

/// Reciprocal, rounded toward zero; the largest value at zero.
pub fn reciprocal(a: i64) -> (r: i64)
    ensures
        r == reciprocal_of(a as int),
{
    if a == 0 {
        i64::MAX
    } else {
        let n: i128 = 1_000_000;
        assert(n == SCALE * SCALE);
        let q: i128 = if a > 0 {
            n / (a as i128)
        } else {
            -(n / (-(a as i128)))
        };
        clamp_wide(q)
    }
}

/// Integer square root, rounded down.
pub fn square_root(n: u128) -> (r: u128)
    ensures
        r == root(n as int),
        r < 0x1_0000_0000_0000_0000,
{
    // Invariant: lo * lo <= n < hi * hi.
    let mut lo: u128 = 0;
    let mut hi: u128 = 0x1_0000_0000_0000_0000;
    proof {
        assert(0x1_0000_0000_0000_0000 * 0x1_0000_0000_0000_0000 > u128::MAX) by (nonlinear_arith);
    }
    while hi - lo > 1
        invariant
            lo < hi <= 0x1_0000_0000_0000_0000,
            lo * lo <= n,
            n < hi * hi,
        decreases hi - lo,
    {
        let mid: u128 = lo + (hi - lo) / 2;
        assert(mid * mid <= 0xffff_ffff_ffff_ffff * 0xffff_ffff_ffff_ffff) by (nonlinear_arith)
            requires
                mid < 0x1_0000_0000_0000_0000,
        ;
        if mid * mid <= n {
            lo = mid;
        } else {
            hi = mid;
        }
    }
    proof {
        assert(is_root(n as int, lo as int));
        lemma_root_unique(n as int, lo as int, root(n as int));
    }
    lo
}

} // verus!
