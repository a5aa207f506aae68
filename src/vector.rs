use vstd::prelude::*;

use crate::fixed::{
    clamp, div_trunc, negation_of, plus, product_of, root, square_root, sum_of, times,
    negate, SCALE,
};

verus! {

/// A 2-vector of fixed-point numbers.
#[derive(Clone, Copy, Debug, PartialEq, Eq, Structural)]
pub struct Vec2 {
    pub x: i64,
    pub y: i64,
}

/// The zero vector.
pub open spec fn zero() -> Vec2 {
    Vec2 { x: 0, y: 0 }
}

pub open spec fn vec_sum(a: Vec2, b: Vec2) -> Vec2 {
    Vec2 { x: sum_of(a.x as int, b.x as int) as i64, y: sum_of(a.y as int, b.y as int) as i64 }
}

pub open spec fn vec_difference(a: Vec2, b: Vec2) -> Vec2 {
    vec_sum(a, vec_negation(b))
}

pub open spec fn vec_negation(a: Vec2) -> Vec2 {
    Vec2 { x: negation_of(a.x as int) as i64, y: negation_of(a.y as int) as i64 }
}

/// Component-wise product.
pub open spec fn vec_product(a: Vec2, b: Vec2) -> Vec2 {
    Vec2 {
        x: product_of(a.x as int, b.x as int) as i64,
        y: product_of(a.y as int, b.y as int) as i64,
    }
}

/// A vector scaled by a scalar.
pub open spec fn vec_scaled(a: Vec2, s: int) -> Vec2 {
    Vec2 { x: product_of(a.x as int, s) as i64, y: product_of(a.y as int, s) as i64 }
}

/// Euclidean length, rounded down.
pub open spec fn length_of(a: Vec2) -> int {
    clamp(root(a.x * a.x + a.y * a.y))
}

/// `a` rotated by the rotation whose unit vector (cosine, sine) is `f`.
pub open spec fn vec_rotated(a: Vec2, f: Vec2) -> Vec2 {
    Vec2 {
        x: clamp(div_trunc(a.x * f.x - a.y * f.y, SCALE as int)) as i64,
        y: clamp(div_trunc(a.x * f.y + a.y * f.x, SCALE as int)) as i64,
    }
}

/// The inverse rotation of `f`: (cosine, -sine).
pub open spec fn conjugate(f: Vec2) -> Vec2 {
    Vec2 { x: f.x, y: negation_of(f.y as int) as i64 }
}

impl Vec2 {
    pub fn new(x: i64, y: i64) -> (r: Vec2)
        ensures
            r == (Vec2 { x, y }),
    {
        Vec2 { x, y }
    }

    pub fn zero() -> (r: Vec2)
        ensures
            r == zero(),
    {
        Vec2 { x: 0, y: 0 }
    }

    pub fn sum(self, o: Vec2) -> (r: Vec2)
        ensures
            r == vec_sum(self, o),
    {
        Vec2 { x: plus(self.x, o.x), y: plus(self.y, o.y) }
    }

    pub fn difference(self, o: Vec2) -> (r: Vec2)
        ensures
            r == vec_difference(self, o),
    {
        self.sum(o.negation())
    }

    pub fn negation(self) -> (r: Vec2)
        ensures
            r == vec_negation(self),
    {
        Vec2 { x: negate(self.x), y: negate(self.y) }
    }

    pub fn product(self, o: Vec2) -> (r: Vec2)
        ensures
            r == vec_product(self, o),
    {
        Vec2 { x: times(self.x, o.x), y: times(self.y, o.y) }
    }

    pub fn scaled(self, s: i64) -> (r: Vec2)
        ensures
            r == vec_scaled(self, s as int),
    {
        Vec2 { x: times(self.x, s), y: times(self.y, s) }
    }

    pub fn length(self) -> (r: i64)
        ensures
            r == length_of(self),
    {
        let ax: u128 = (if self.x >= 0 { self.x as i128 } else { -(self.x as i128) }) as u128;
        let ay: u128 = (if self.y >= 0 { self.y as i128 } else { -(self.y as i128) }) as u128;
        proof {
            assert(ax * ax <= 0x4000_0000_0000_0000_0000_0000_0000_0000) by (nonlinear_arith)
                requires
                    ax <= 0x8000_0000_0000_0000,
            ;
            assert(ay * ay <= 0x4000_0000_0000_0000_0000_0000_0000_0000) by (nonlinear_arith)
                requires
                    ay <= 0x8000_0000_0000_0000,
            ;
            assert(ax * ax == self.x * self.x) by (nonlinear_arith)
                requires
                    ax == self.x || ax == -self.x,
            ;
            assert(ay * ay == self.y * self.y) by (nonlinear_arith)
                requires
                    ay == self.y || ay == -self.y,
            ;
        }
        let r: u128 = square_root(ax * ax + ay * ay);
        if r > i64::MAX as u128 {
            i64::MAX
        } else {
            r as i64
        }
    }

    pub fn rotated(self, f: Vec2) -> (r: Vec2)
        ensures
            r == vec_rotated(self, f),
    {
        proof {
            lemma_mul_bound(self.x as int, f.x as int);
            lemma_mul_bound(self.y as int, f.y as int);
            lemma_mul_bound(self.x as int, f.y as int);
            lemma_mul_bound(self.y as int, f.x as int);
        }
        let px: i128 = (self.x as i128) * (f.x as i128) - (self.y as i128) * (f.y as i128);
        let a: i128 = (self.x as i128) * (f.y as i128);
        let b: i128 = (self.y as i128) * (f.x as i128);
        let y: i64 = if a > 0 && b > i128::MAX - a {
            // The exact sum is past the range of `i128`, so far past that of `i64`.
            i64::MAX
        } else {
            shrink(a + b)
        };
        Vec2 { x: shrink(px), y }
    }

    pub fn conjugate(self) -> (r: Vec2)
        ensures
            r == conjugate(self),
    {
        Vec2 { x: self.x, y: negate(self.y) }
    }
}

/// Bounds on the product of two `i64` values: it never reaches `-2^126`.
pub(crate) proof fn lemma_mul_bound(a: int, b: int)
    requires
        i64::MIN <= a <= i64::MAX,
        i64::MIN <= b <= i64::MAX,
    ensures
        -0x3fff_ffff_ffff_ffff_8000_0000_0000_0000 <= a * b <= 0x4000_0000_0000_0000_0000_0000_0000_0000,
{
    if (a >= 0) == (b >= 0) {
        assert(0 <= a * b <= 0x4000_0000_0000_0000_0000_0000_0000_0000) by (nonlinear_arith)
            requires
                (a >= 0) == (b >= 0),
                -0x8000_0000_0000_0000 <= a <= 0x8000_0000_0000_0000,
                -0x8000_0000_0000_0000 <= b <= 0x8000_0000_0000_0000,
        ;
    } else if a >= 0 {
        assert(-0x3fff_ffff_ffff_ffff_8000_0000_0000_0000 <= a * b <= 0) by (nonlinear_arith)
            requires
                0 <= a <= 0x7fff_ffff_ffff_ffff,
                -0x8000_0000_0000_0000 <= b < 0,
        ;
    } else {
        assert(-0x3fff_ffff_ffff_ffff_8000_0000_0000_0000 <= a * b <= 0) by (nonlinear_arith)
            requires
                0 <= b <= 0x7fff_ffff_ffff_ffff,
                -0x8000_0000_0000_0000 <= a < 0,
        ;
    }
}

/// Divides an exact product of two fixed-point numbers back to one unit.
fn shrink(p: i128) -> (r: i64)
    requires
        -0x8000_0000_0000_0000_0000_0000_0000_0000 < p,
    ensures
        r == clamp(div_trunc(p as int, SCALE as int)),
{
    let q: i128 = if p >= 0 {
        p / 1000
    } else {
        -((-p) / 1000)
    };
    if q > i64::MAX as i128 {
        i64::MAX
    } else if q < i64::MIN as i128 {
        i64::MIN
    } else {
        q as i64
    }
}

} // verus!
