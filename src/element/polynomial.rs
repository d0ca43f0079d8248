//! Polynomials in two variables of degree at most one in each, and their
//! partial derivatives.
use vstd::prelude::*;

verus! {

/// The largest magnitude of a coordinate numerator or denominator that
/// `Bilinear::evaluate_scaled` accepts.
pub const COORDINATE_BOUND: i64 = 1_000_000_000;

/// The polynomial `constant + x·X + y·Y + xy·X·Y` with integer coefficients.
#[derive(Debug, Clone, Copy, PartialEq, Eq, Structural)]
pub struct Bilinear {
    pub constant: i64,
    pub x: i64,
    pub y: i64,
    pub xy: i64,
}

/// A factor of -1, 0 or 1 keeps a product within the bound of the other
/// factor.
proof fn lemma_unit_times(c: int, v: int, m: int)
    requires
        -1 <= c <= 1,
        -m <= v <= m,
    ensures
        -m <= c * v <= m,
{
    assert(-m <= c * v <= m) by (nonlinear_arith)
        requires
            -1 <= c <= 1,
            -m <= v <= m,
    ;
}

impl Bilinear {
    /// The zero polynomial.
    pub open spec fn zero() -> Bilinear {
        Bilinear { constant: 0, x: 0, y: 0, xy: 0 }
    }

    /// The partial derivative in `X`.
    pub open spec fn d_dx(self) -> Bilinear {
        Bilinear { constant: self.x, x: 0, y: self.xy, xy: 0 }
    }

    /// The partial derivative in `Y`.
    pub open spec fn d_dy(self) -> Bilinear {
        Bilinear { constant: self.y, x: self.xy, y: 0, xy: 0 }
    }

    /// The derivative taken `dx` times in `X` and `dy` times in `Y`.
    pub open spec fn partial(self, dx: nat, dy: nat) -> Bilinear
        decreases dx + dy,
    {
        if dx > 0 {
            self.d_dx().partial((dx - 1) as nat, dy)
        } else if dy > 0 {
            self.d_dy().partial(0, (dy - 1) as nat)
        } else {
            self
        }
    }

    /// The value at `(px / den, py / den)`, times `den * den`.
    pub open spec fn scaled_value(self, px: int, py: int, den: int) -> int {
        self.constant * den * den + self.x * px * den + self.y * py * den + self.xy * px * py
    }

    /// Every coefficient is -1, 0 or 1.
    pub open spec fn has_unit_coefficients(self) -> bool {
        &&& -1 <= self.constant <= 1
        &&& -1 <= self.x <= 1
        &&& -1 <= self.y <= 1
        &&& -1 <= self.xy <= 1
    }

    /// The value at a corner of the unit square.
    pub proof fn lemma_value_at_corner(self, px: int, py: int)
        requires
            px == 0 || px == 1,
            py == 0 || py == 1,
        ensures
            self.scaled_value(px, py, 1) == self.constant + (if px == 1 { self.x as int } else { 0 })
                + (if py == 1 { self.y as int } else { 0 }) + (if px == 1 && py == 1 {
                self.xy as int
            } else {
                0
            }),
    {
        let (c, x, y, z) = (self.constant as int, self.x as int, self.y as int, self.xy as int);
        assert(c * 1 * 1 + x * px * 1 + y * py * 1 + z * px * py == c + (if px == 1 { x } else { 0 })
            + (if py == 1 { y } else { 0 }) + (if px == 1 && py == 1 { z } else { 0 }))
            by (nonlinear_arith)
            requires
                px == 0 || px == 1,
                py == 0 || py == 1,
        ;
    }

    /// The derivatives in closed form: two derivatives in the same variable
    /// leave nothing.
    pub proof fn lemma_partial_closed_form(self, dx: nat, dy: nat)
        ensures
            self.partial(dx, dy) == (if dx >= 2 || dy >= 2 {
                Bilinear::zero()
            } else if dx == 1 && dy == 1 {
                Bilinear { constant: self.xy, x: 0, y: 0, xy: 0 }
            } else if dx == 1 {
                self.d_dx()
            } else if dy == 1 {
                self.d_dy()
            } else {
                self
            }),
    {
        if dx >= 2 {
            Bilinear::lemma_zero_partial((dx - 2) as nat, dy);
            assert(self.partial(dx, dy) == self.d_dx().partial((dx - 1) as nat, dy));
            assert(self.d_dx().partial((dx - 1) as nat, dy) == self.d_dx().d_dx().partial(
                (dx - 2) as nat,
                dy,
            ));
            assert(self.d_dx().d_dx() == Bilinear::zero());
        } else if dx == 1 {
            assert(self.partial(1, dy) == self.d_dx().partial(0, dy));
            assert(self.d_dx().partial(0, 0) == self.d_dx());
            if dy >= 2 {
                Bilinear::lemma_zero_partial(0, (dy - 2) as nat);
                let g = self.d_dx();
                assert(g.partial(0, dy) == g.d_dy().partial(0, (dy - 1) as nat));
                assert(g.d_dy().partial(0, (dy - 1) as nat) == g.d_dy().d_dy().partial(
                    0,
                    (dy - 2) as nat,
                ));
                assert(g.d_dy().d_dy() == Bilinear::zero());
            } else if dy == 1 {
                assert(self.d_dx().partial(0, 1) == self.d_dx().d_dy().partial(0, 0));
            }
        } else if dy >= 2 {
            Bilinear::lemma_zero_partial(0, (dy - 2) as nat);
            assert(self.partial(0, dy) == self.d_dy().partial(0, (dy - 1) as nat));
            assert(self.d_dy().partial(0, (dy - 1) as nat) == self.d_dy().d_dy().partial(
                0,
                (dy - 2) as nat,
            ));
            assert(self.d_dy().d_dy() == Bilinear::zero());
        } else if dy == 1 {
            assert(self.partial(0, 1) == self.d_dy().partial(0, 0));
        }
    }

    /// Every derivative of the zero polynomial is zero.
    pub proof fn lemma_zero_partial(dx: nat, dy: nat)
        ensures
            Bilinear::zero().partial(dx, dy) == Bilinear::zero(),
        decreases dx + dy,
    {
        if dx > 0 {
            Bilinear::lemma_zero_partial((dx - 1) as nat, dy);
        } else if dy > 0 {
            Bilinear::lemma_zero_partial(0, (dy - 1) as nat);
        }
    }

    /// A polynomial with unit coefficients keeps them under derivatives.
    pub proof fn lemma_partial_unit_coefficients(self, dx: nat, dy: nat)
        requires
            self.has_unit_coefficients(),
        ensures
            self.partial(dx, dy).has_unit_coefficients(),
    {
        self.lemma_partial_closed_form(dx, dy);
    }

    /// The derivative taken `dx` times in `X` and `dy` times in `Y`.
    pub fn partial_derivative(&self, dx: usize, dy: usize) -> (r: Bilinear)
        ensures
            r == self.partial(dx as nat, dy as nat),
    {
        proof {
            self.lemma_partial_closed_form(dx as nat, dy as nat);
        }
        if dx >= 2 || dy >= 2 {
            Bilinear { constant: 0, x: 0, y: 0, xy: 0 }
        } else if dx == 1 && dy == 1 {
            Bilinear { constant: self.xy, x: 0, y: 0, xy: 0 }
        } else if dx == 1 {
            Bilinear { constant: self.x, x: 0, y: self.xy, xy: 0 }
        } else if dy == 1 {
            Bilinear { constant: self.y, x: self.xy, y: 0, xy: 0 }
        } else {
            *self
        }
    }

    /// The value at `(px / den, py / den)`, times `den * den`: exact, since
    /// each term is an integer.
    pub fn evaluate_scaled(&self, px: i64, py: i64, den: i64) -> (r: i64)
        requires
            self.has_unit_coefficients(),
            -COORDINATE_BOUND <= px <= COORDINATE_BOUND,
            -COORDINATE_BOUND <= py <= COORDINATE_BOUND,
            0 < den <= COORDINATE_BOUND,
        ensures
            r == self.scaled_value(px as int, py as int, den as int),
    {
        let ghost b = COORDINATE_BOUND as int;
        assert(-b * b <= px * den <= b * b) by (nonlinear_arith)
            requires
                -b <= px <= b,
                0 < den <= b,
        ;
        assert(-b * b <= py * den <= b * b) by (nonlinear_arith)
            requires
                -b <= py <= b,
                0 < den <= b,
        ;
        assert(-b * b <= px * py <= b * b) by (nonlinear_arith)
            requires
                -b <= px <= b,
                -b <= py <= b,
        ;
        assert(0 < den * den <= b * b) by (nonlinear_arith)
            requires
                0 < den <= b,
        ;
        let dd = den * den;
        let xd = px * den;
        let yd = py * den;
        let xy = px * py;
        proof {
            lemma_unit_times(self.constant as int, dd as int, b * b);
            lemma_unit_times(self.x as int, xd as int, b * b);
            lemma_unit_times(self.y as int, yd as int, b * b);
            lemma_unit_times(self.xy as int, xy as int, b * b);
        }
        let t0 = self.constant * dd;
        let t1 = self.x * xd;
        let t2 = self.y * yd;
        let t3 = self.xy * xy;
        proof {
            let (c, x, y, z) = (self.constant as int, self.x as int, self.y as int, self.xy as int);
            let (p, q, d) = (px as int, py as int, den as int);
            assert(c * (d * d) == c * d * d) by (nonlinear_arith);
            assert(x * (p * d) == x * p * d) by (nonlinear_arith);
            assert(y * (q * d) == y * q * d) by (nonlinear_arith);
            assert(z * (p * q) == z * p * q) by (nonlinear_arith);
        }
        t0 + t1 + t2 + t3
    }
}

} // verus!
