use vstd::prelude::*;
use vstd::arithmetic::div_mod::lemma_div_is_ordered_by_denominator;

verus! {

/// Raw units in one whole unit: a `Fixed` counts millionths.
pub const SCALE: i64 = 1_000_000;

/// Absolute value.
pub open spec fn magnitude(v: int) -> int {
    if v < 0 {
        -v
    } else {
        v
    }
}

/// `n / d` rounded toward zero, as Rust's integer division rounds.
pub open spec fn div_toward_zero(n: int, d: int) -> int {
    let q = magnitude(n) / magnitude(d);
    if (n < 0) == (d < 0) {
        q
    } else {
        -q
    }
}

/// `v` clamped into the range of `i64`.
pub open spec fn saturate(v: int) -> int {
    if v > i64::MAX {
        i64::MAX as int
    } else if v < i64::MIN {
        i64::MIN as int
    } else {
        v
    }
}

/// Raw value of `a + b`, saturated.
pub open spec fn sum(a: int, b: int) -> int {
    saturate(a + b)
}

/// Raw value of `a - b`, saturated.
pub open spec fn difference(a: int, b: int) -> int {
    saturate(a - b)
}

/// Raw value of `a * b`: the raw product carries the scale twice.
pub open spec fn product(a: int, b: int) -> int {
    saturate(div_toward_zero(a * b, SCALE as int))
}

/// Raw value of `a / b`.
pub open spec fn quotient(a: int, b: int) -> int {
    saturate(div_toward_zero(a * SCALE, b))
}

/// Raw value of `a * b / c`, rounded once.
pub open spec fn product_over(a: int, b: int, c: int) -> int {
    saturate(div_toward_zero(a * b, c))
}

/// A product of two `i64` values fits well inside `i128`.
pub proof fn lemma_i64_product_bound(a: int, b: int)
    requires
        i64::MIN <= a <= i64::MAX,
        i64::MIN <= b <= i64::MAX,
    ensures
        magnitude(a * b) <= 0x4000_0000_0000_0000_0000_0000_0000_0000,
{
    assert(magnitude(a) <= 0x8000_0000_0000_0000);
    assert(magnitude(b) <= 0x8000_0000_0000_0000);
    assert(magnitude(a * b) == magnitude(a) * magnitude(b)) by (nonlinear_arith);
    assert(magnitude(a) * magnitude(b) <= 0x8000_0000_0000_0000 * 0x8000_0000_0000_0000)
        by (nonlinear_arith)
        requires
            0 <= magnitude(a) <= 0x8000_0000_0000_0000,
            0 <= magnitude(b) <= 0x8000_0000_0000_0000,
    ;
}

/// Rounds `n / d` toward zero.
pub fn div_i128(n: i128, d: i128) -> (q: i128)
    requires
        d != 0,
        n > i128::MIN,
        d > i128::MIN,
    ensures
        q == div_toward_zero(n as int, d as int),
        magnitude(q as int) <= magnitude(n as int),
{
    let un: u128 = if n < 0 {
        (-n) as u128
    } else {
        n as u128
    };
    let ud: u128 = if d < 0 {
        (-d) as u128
    } else {
        d as u128
    };
    let uq: u128 = un / ud;
    proof {
        lemma_div_is_ordered_by_denominator(un as int, 1, ud as int);
        assert(uq >= 0);
    }
    if (n < 0) == (d < 0) {
        uq as i128
    } else {
        -(uq as i128)
    }
}

/// Clamps a wide value into `i64`.
pub fn saturate_i128(v: i128) -> (r: i64)
    ensures
        r == saturate(v as int),
{
    if v > i64::MAX as i128 {
        i64::MAX
    } else if v < i64::MIN as i128 {
        i64::MIN
    } else {
        v as i64
    }
}

/// A fixed-point number of millionths: `micros / SCALE` is its value.
#[derive(Clone, Copy, Debug, PartialEq, Eq, Structural)]
pub struct Fixed {
    pub micros: i64,
}

impl Fixed {
    pub fn from_micros(micros: i64) -> (r: Fixed)
        ensures
            r.micros == micros,
    {
        Fixed { micros }
    }

    /// The whole number `n`.
    pub fn from_whole(n: i32) -> (r: Fixed)
        ensures
            r.micros == n * SCALE,
    {
        Fixed { micros: n as i64 * SCALE }
    }

    pub fn zero() -> (r: Fixed)
        ensures
            r.micros == 0,
    {
        Fixed { micros: 0 }
    }

    pub fn micros(self) -> (r: i64)
        ensures
            r == self.micros,
    {
        self.micros
    }

    pub fn plus(self, o: Fixed) -> (r: Fixed)
        ensures
            r.micros == sum(self.micros as int, o.micros as int),
    {
        Fixed { micros: saturate_i128(self.micros as i128 + o.micros as i128) }
    }

    pub fn minus(self, o: Fixed) -> (r: Fixed)
        ensures
            r.micros == difference(self.micros as int, o.micros as int),
    {
        Fixed { micros: saturate_i128(self.micros as i128 - o.micros as i128) }
    }

    pub fn times(self, o: Fixed) -> (r: Fixed)
        ensures
            r.micros == product(self.micros as int, o.micros as int),
    {
        proof {
            lemma_i64_product_bound(self.micros as int, o.micros as int);
        }
        let p: i128 = self.micros as i128 * o.micros as i128;
        Fixed { micros: saturate_i128(div_i128(p, SCALE as i128)) }
    }

    pub fn over(self, o: Fixed) -> (r: Fixed)
        requires
            o.micros != 0,
        ensures
            r.micros == quotient(self.micros as int, o.micros as int),
    {
        proof {
            lemma_i64_product_bound(self.micros as int, SCALE as int);
        }
        let p: i128 = self.micros as i128 * SCALE as i128;
        Fixed { micros: saturate_i128(div_i128(p, o.micros as i128)) }
    }

    /// `self * b / c`, rounded once.
    pub fn times_over(self, b: Fixed, c: Fixed) -> (r: Fixed)
        requires
            c.micros != 0,
        ensures
            r.micros == product_over(self.micros as int, b.micros as int, c.micros as int),
    {
        proof {
            lemma_i64_product_bound(self.micros as int, b.micros as int);
        }
        let p: i128 = self.micros as i128 * b.micros as i128;
        Fixed { micros: saturate_i128(div_i128(p, c.micros as i128)) }
    }

    pub fn min(self, o: Fixed) -> (r: Fixed)
        ensures
            r.micros == if self.micros <= o.micros { self.micros } else { o.micros },
    {
        if self.micros <= o.micros {
            self
        } else {
            o
        }
    }
}

/// A point or a velocity in the plane.
#[derive(Clone, Copy, Debug, PartialEq, Eq, Structural)]
pub struct Vec2 {
    pub x: Fixed,
    pub y: Fixed,
}

impl Vec2 {
    pub fn new(x: Fixed, y: Fixed) -> (r: Vec2)
        ensures
            r.x == x,
            r.y == y,
    {
        Vec2 { x, y }
    }

    pub fn zero() -> (r: Vec2)
        ensures
            r.x.micros == 0,
            r.y.micros == 0,
    {
        Vec2 { x: Fixed::zero(), y: Fixed::zero() }
    }
}

/// A point in space; the plane is its `x` and `y`.
#[derive(Clone, Copy, Debug, PartialEq, Eq, Structural)]
pub struct Vec3 {
    pub x: Fixed,
    pub y: Fixed,
    pub z: Fixed,
}

impl Vec3 {
    pub fn new(x: Fixed, y: Fixed, z: Fixed) -> (r: Vec3)
        ensures
            r == (Vec3 { x, y, z }),
    {
        Vec3 { x, y, z }
    }

    /// The point's projection onto the plane.
    pub fn truncate(self) -> (r: Vec2)
        ensures
            r == (Vec2 { x: self.x, y: self.y }),
    {
        Vec2 { x: self.x, y: self.y }
    }
}

} // verus!
