//! The value type for one fractal: the Julia constant and the viewport.

use rand::Rng;
use vstd::prelude::*;
use crate::numeric::{div_toward_zero, floor_sqrt, isqrt, lemma_floor_sqrt_exists,
    lemma_product_bound, lemma_square_order, lemma_trunc_div_bounds, lemma_trunc_div_brackets,
    lemma_trunc_div_exact, trunc_div,
    COORD_LIMIT, SCALE};

verus! {

/// A point of the complex plane, both parts in raw fixed-point units.
#[derive(Clone, Copy, Debug, PartialEq, Eq, Structural)]
pub struct Complex {
    pub re: i64,
    pub im: i64,
}

/// One fractal instance: the constant `c` of `z <- z^2 + c`, the zoom factor
/// and the pan offsets, all in raw fixed-point units.
#[derive(Clone, Copy, Debug, PartialEq, Eq, Structural)]
pub struct FractalParameters {
    pub c: Complex,
    pub zoom: i64,
    pub x_offset: i64,
    pub y_offset: i64,
}

/// `-limit <= v <= limit`.
pub open spec fn within(v: int, limit: int) -> bool {
    -limit <= v <= limit
}

/// `t` confined to the unit interval `[0, SCALE]`.
pub open spec fn clamp_unit(t: int) -> int {
    if t < 0 {
        0
    } else if t > SCALE {
        SCALE as int
    } else {
        t
    }
}

/// The point a fraction `t` of the way from `a` to `b`; `t` is clamped to
/// the unit interval first, and the travelled part is rounded toward `a`.
pub open spec fn lerp_value(a: int, b: int, t: int) -> int {
    a + trunc_div((b - a) * clamp_unit(t), SCALE as int)
}

/// Interpolating a value with itself gives that value, whatever `t` is.
pub proof fn lemma_lerp_value_same(a: int, t: int)
    ensures
        lerp_value(a, a, t) == a,
{
    assert((a - a) * clamp_unit(t) == 0) by (nonlinear_arith);
}

/// At `t = 0` the interpolation is at its start, at `t = SCALE` (the real
/// number one) at its end.
pub proof fn lemma_lerp_value_endpoints(a: int, b: int)
    ensures
        lerp_value(a, b, 0) == a,
        lerp_value(a, b, SCALE as int) == b,
{
    assert((b - a) * 0 == 0) by (nonlinear_arith);
    lemma_trunc_div_exact(b - a, SCALE as int);
}

/// An interpolated value never leaves the span of its two ends.
pub proof fn lemma_lerp_value_between(a: int, b: int, t: int)
    ensures
        a <= b ==> a <= lerp_value(a, b, t) <= b,
        b <= a ==> b <= lerp_value(a, b, t) <= a,
{
    let d = b - a;
    let tc = clamp_unit(t);
    let p = d * tc;
    lemma_trunc_div_bounds(p, SCALE as int);
    if d >= 0 {
        assert(0 <= p <= d * SCALE) by (nonlinear_arith)
            requires p == d * tc, d >= 0, 0 <= tc <= SCALE;
    } else {
        assert(d * SCALE <= p <= 0) by (nonlinear_arith)
            requires p == d * tc, d < 0, 0 <= tc <= SCALE;
        assert(-p <= (-d) * SCALE);
    }
}

/// Interpolates one coordinate; see [`lerp_value`].
pub fn lerp_fixed(a: i64, b: i64, t: i64) -> (r: i64)
    ensures
        r == lerp_value(a as int, b as int, t as int),
{
    let tc: i64 = if t < 0 {
        0
    } else if t > SCALE {
        SCALE
    } else {
        t
    };
    let d: i128 = b as i128 - a as i128;
    proof {
        lemma_lerp_value_between(a as int, b as int, t as int);
        lemma_product_bound(d as int, tc as int, 0x1_0000_0000_0000_0000, 1_000_000);
    }
    let q: i128 = div_toward_zero(d * (tc as i128), SCALE as i128);
    (a as i128 + q) as i64
}

impl FractalParameters {
    /// The zoom is positive and every field lies within the coordinate limit.
    pub open spec fn wf(&self) -> bool {
        &&& 0 < self.zoom <= COORD_LIMIT
        &&& within(self.c.re as int, COORD_LIMIT as int)
        &&& within(self.c.im as int, COORD_LIMIT as int)
        &&& within(self.x_offset as int, COORD_LIMIT as int)
        &&& within(self.y_offset as int, COORD_LIMIT as int)
    }

    /// Tells whether the parameter set is well formed.
    pub fn is_valid(&self) -> (ok: bool)
        ensures
            ok == self.wf(),
    {
        0 < self.zoom && self.zoom <= COORD_LIMIT && -COORD_LIMIT <= self.c.re && self.c.re
            <= COORD_LIMIT && -COORD_LIMIT <= self.c.im && self.c.im <= COORD_LIMIT && -COORD_LIMIT
            <= self.x_offset && self.x_offset <= COORD_LIMIT && -COORD_LIMIT <= self.y_offset
            && self.y_offset <= COORD_LIMIT
    }

    /// The parameter set a fraction `t` of the way from `self` to `other`.
    pub open spec fn lerp_spec(&self, other: &FractalParameters, t: int) -> FractalParameters {
        FractalParameters {
            c: Complex {
                re: lerp_value(self.c.re as int, other.c.re as int, t) as i64,
                im: lerp_value(self.c.im as int, other.c.im as int, t) as i64,
            },
            zoom: lerp_value(self.zoom as int, other.zoom as int, t) as i64,
            x_offset: lerp_value(self.x_offset as int, other.x_offset as int, t) as i64,
            y_offset: lerp_value(self.y_offset as int, other.y_offset as int, t) as i64,
        }
    }

    /// What a freshly drawn parameter set satisfies: `|c|` in `[0.3, 0.8)`,
    /// zoom in `[0.5, 2.0)`, offsets in `[-0.5, 0.5)`.
    pub open spec fn in_random_range(&self) -> bool {
        &&& in_ring(self.c.re as int, self.c.im as int)
        &&& 500_000 <= self.zoom < 2_000_000
        &&& -500_000 <= self.x_offset < 500_000
        &&& -500_000 <= self.y_offset < 500_000
    }

    /// A parameter set from its five numbers, each in raw units.
    pub fn new(c_real: i64, c_imag: i64, zoom: i64, x_offset: i64, y_offset: i64) -> (p:
        FractalParameters)
        ensures
            p == (FractalParameters {
                c: Complex { re: c_real, im: c_imag },
                zoom: zoom,
                x_offset: x_offset,
                y_offset: y_offset,
            }),
    {
        FractalParameters { c: Complex { re: c_real, im: c_imag }, zoom, x_offset, y_offset }
    }

    /// Draws a fractal whose constant lies in polar form at a radius in
    /// `[0.3, 0.8)` and in a direction drawn evenly from the full turn, with
    /// zoom in `[0.5, 2.0)` and offsets in `[-0.5, 0.5)`. A draw that
    /// [`PolarDraw::place`] turns down is made again; once [`MAX_DRAWS`]
    /// draws in a row were turned down, which chance all but rules out, the
    /// constant of the next draw is put on the positive real axis at the
    /// draw's radius.
    pub fn random() -> (p: FractalParameters)
        ensures
            p.in_random_range(),
            p.wf(),
    {
        let mut tries: u32 = 0;
        while tries < MAX_DRAWS
            invariant
                tries <= MAX_DRAWS,
            decreases MAX_DRAWS - tries,
        {
            let draw = PolarDraw::random();
            match draw.place() {
                Some(p) => {
                    return p;
                },
                None => {},
            }
            tries += 1;
        }
        let draw = PolarDraw::random();
        proof {
            lemma_product_bound(draw.radius as int, draw.radius as int, 799_999, 799_999);
            assert(draw.radius * draw.radius >= RING_INNER * RING_INNER) by (nonlinear_arith)
                requires draw.radius >= RING_INNER, RING_INNER == 300_000;
        }
        FractalParameters {
            c: Complex { re: draw.radius, im: 0 },
            zoom: draw.zoom,
            x_offset: draw.x_offset,
            y_offset: draw.y_offset,
        }
    }

    /// Componentwise linear interpolation toward `other`; `t` is a
    /// fixed-point fraction and is clamped to `[0, 1]`.
    pub fn lerp(&self, other: &FractalParameters, t: i64) -> (r: FractalParameters)
        ensures
            r == self.lerp_spec(other, t as int),
            self.wf() && other.wf() ==> r.wf(),
    {
        proof {
            lemma_lerp_value_between(self.c.re as int, other.c.re as int, t as int);
            lemma_lerp_value_between(self.c.im as int, other.c.im as int, t as int);
            lemma_lerp_value_between(self.zoom as int, other.zoom as int, t as int);
            lemma_lerp_value_between(self.x_offset as int, other.x_offset as int, t as int);
            lemma_lerp_value_between(self.y_offset as int, other.y_offset as int, t as int);
        }
        FractalParameters {
            c: Complex {
                re: lerp_fixed(self.c.re, other.c.re, t),
                im: lerp_fixed(self.c.im, other.c.im, t),
            },
            zoom: lerp_fixed(self.zoom, other.zoom, t),
            x_offset: lerp_fixed(self.x_offset, other.x_offset, t),
            y_offset: lerp_fixed(self.y_offset, other.y_offset, t),
        }
    }
}

/// Inner radius of the ring from which the constant is drawn.
pub const RING_INNER: i64 = 300_000;

/// Outer radius of that ring, itself outside it.
pub const RING_OUTER: i64 = 800_000;

/// How many draws [`FractalParameters::random`] makes before it settles for
/// the real axis.
pub const MAX_DRAWS: u32 = 64;

/// The smallest squared length of a heading that is taken as a direction:
/// that of a vector of length one half.
pub const HEADING_MIN_SQR: i64 = 250_000_000_000;

/// The largest squared length of a heading: that of a unit vector.
pub const HEADING_MAX_SQR: i64 = 1_000_000_000_000;

/// `RING_INNER <= |(re, im)| < RING_OUTER`, stated over the squares.
pub open spec fn in_ring(re: int, im: int) -> bool {
    RING_INNER * RING_INNER <= re * re + im * im < RING_OUTER * RING_OUTER
}

/// The numbers drawn for one fractal: the radius of its constant, a heading
/// that points where the constant lies, and the viewport. The heading is a
/// point of the square `[-1, 1] x [-1, 1]`; taken from the disk within it,
/// its direction is spread evenly over the full turn.
#[derive(Clone, Copy, Debug, PartialEq, Eq, Structural)]
pub struct PolarDraw {
    pub radius: i64,
    pub heading: Complex,
    pub zoom: i64,
    pub x_offset: i64,
    pub y_offset: i64,
}

impl PolarDraw {
    /// What a draw satisfies: radius in `[0.3, 0.8)`, both parts of the
    /// heading in `[-1, 1]`, zoom in `[0.5, 2.0)`, offsets in `[-0.5, 0.5)`.
    pub open spec fn in_range(&self) -> bool {
        &&& RING_INNER <= self.radius < RING_OUTER
        &&& -SCALE <= self.heading.re <= SCALE
        &&& -SCALE <= self.heading.im <= SCALE
        &&& 500_000 <= self.zoom < 2_000_000
        &&& -500_000 <= self.x_offset < 500_000
        &&& -500_000 <= self.y_offset < 500_000
    }

    /// Squared length of the heading.
    pub open spec fn heading_sqr(&self) -> int {
        self.heading.re * self.heading.re + self.heading.im * self.heading.im
    }

    /// Real part of the constant: the radius times the heading's real part
    /// over the heading's length, the length rounded down.
    pub open spec fn constant_re(&self) -> int {
        trunc_div(self.radius * self.heading.re, floor_sqrt(self.heading_sqr()))
    }

    /// Imaginary part of the constant, likewise.
    pub open spec fn constant_im(&self) -> int {
        trunc_div(self.radius * self.heading.im, floor_sqrt(self.heading_sqr()))
    }

    /// Whether the draw gives a fractal: it is in range, its heading lies in
    /// the unit disk and is at least one half long, and the constant, once
    /// rounded, lies in the ring.
    pub open spec fn accepted(&self) -> bool {
        &&& self.in_range()
        &&& HEADING_MIN_SQR <= self.heading_sqr() <= HEADING_MAX_SQR
        &&& in_ring(self.constant_re(), self.constant_im())
    }

    /// The fractal of an accepted draw.
    pub open spec fn placed(&self) -> FractalParameters {
        FractalParameters {
            c: Complex { re: self.constant_re() as i64, im: self.constant_im() as i64 },
            zoom: self.zoom,
            x_offset: self.x_offset,
            y_offset: self.y_offset,
        }
    }

    /// Draws each number uniformly from its range, independently of the
    /// others.
    pub fn random() -> (d: PolarDraw)
        ensures
            d.in_range(),
    {
        let radius: i64 = uniform_below(RING_INNER, RING_OUTER);
        let re: i64 = uniform_below(-SCALE, SCALE + 1);
        let im: i64 = uniform_below(-SCALE, SCALE + 1);
        let zoom: i64 = uniform_below(500_000, 2_000_000);
        let x_offset: i64 = uniform_below(-500_000, 500_000);
        let y_offset: i64 = uniform_below(-500_000, 500_000);
        PolarDraw { radius, heading: Complex { re, im }, zoom, x_offset, y_offset }
    }

    /// Tells whether every number lies in its range.
    pub fn is_valid(&self) -> (ok: bool)
        ensures
            ok == self.in_range(),
    {
        RING_INNER <= self.radius && self.radius < RING_OUTER && -SCALE <= self.heading.re
            && self.heading.re <= SCALE && -SCALE <= self.heading.im && self.heading.im <= SCALE
            && 500_000 <= self.zoom && self.zoom < 2_000_000 && -500_000 <= self.x_offset
            && self.x_offset < 500_000 && -500_000 <= self.y_offset && self.y_offset < 500_000
    }

    /// Places the constant at the draw's radius in the direction of its
    /// heading and returns the fractal, or nothing where the draw is not
    /// accepted.
    pub fn place(&self) -> (placed: Option<FractalParameters>)
        ensures
            self.accepted() ==> placed == Some(self.placed()),
            !self.accepted() ==> placed.is_none(),
            placed.is_some() ==> placed.unwrap().in_random_range() && placed.unwrap().wf(),
            placed.is_some() ==> (self.radius - 2) * (self.radius - 2) < placed.unwrap().c.re
                * placed.unwrap().c.re + placed.unwrap().c.im * placed.unwrap().c.im < (self.radius
                + 2) * (self.radius + 2),
    {
        if !self.is_valid() {
            return None;
        }
        let u: i64 = self.heading.re;
        let v: i64 = self.heading.im;
        proof {
            lemma_product_bound(u as int, u as int, 1_000_000, 1_000_000);
            lemma_product_bound(v as int, v as int, 1_000_000, 1_000_000);
            assert(u * u >= 0 && v * v >= 0) by (nonlinear_arith);
        }
        let sqr: i64 = u * u + v * v;
        if sqr < HEADING_MIN_SQR || sqr > HEADING_MAX_SQR {
            return None;
        }
        let length: u64 = isqrt(sqr as u64);
        proof {
            assert(length != 0) by {
                if length == 0 {
                    assert((length + 1) * (length + 1) == 1) by (nonlinear_arith)
                        requires length == 0;
                }
            }
            lemma_product_bound(self.radius as int, u as int, 800_000, 1_000_000);
            lemma_product_bound(self.radius as int, v as int, 800_000, 1_000_000);
            lemma_trunc_div_bounds(self.radius * u, length as int);
            lemma_trunc_div_bounds(self.radius * v, length as int);
        }
        let re: i128 = div_toward_zero((self.radius as i128) * (u as i128), length as i128);
        let im: i128 = div_toward_zero((self.radius as i128) * (v as i128), length as i128);
        let outer: i128 = RING_OUTER as i128;
        if re <= -outer || re >= outer || im <= -outer || im >= outer {
            proof {
                assert(re * re + im * im >= RING_OUTER * RING_OUTER) by (nonlinear_arith)
                    requires
                        re <= -RING_OUTER || re >= RING_OUTER || im <= -RING_OUTER || im
                            >= RING_OUTER,
                        RING_OUTER == 800_000,
                ;
            }
            return None;
        }
        proof {
            lemma_product_bound(re as int, re as int, 800_000, 800_000);
            lemma_product_bound(im as int, im as int, 800_000, 800_000);
            assert(re * re >= 0 && im * im >= 0) by (nonlinear_arith);
        }
        let modulus_sqr: i128 = re * re + im * im;
        let inner_sqr: i128 = 90_000_000_000;
        let outer_sqr: i128 = 640_000_000_000;
        assert(inner_sqr == RING_INNER * RING_INNER && outer_sqr == RING_OUTER * RING_OUTER);
        if modulus_sqr < inner_sqr || modulus_sqr >= outer_sqr {
            return None;
        }
        proof {
            lemma_placed_modulus(*self);
        }
        Some(
            FractalParameters {
                c: Complex { re: re as i64, im: im as i64 },
                zoom: self.zoom,
                x_offset: self.x_offset,
                y_offset: self.y_offset,
            },
        )
    }
}

/// The constant of a draw lies at the draw's radius, up to rounding: its
/// modulus is less than two raw units away from the radius.
pub proof fn lemma_placed_modulus(d: PolarDraw)
    requires
        d.in_range(),
        HEADING_MIN_SQR <= d.heading_sqr() <= HEADING_MAX_SQR,
    ensures
        (d.radius - 2) * (d.radius - 2) < d.constant_re() * d.constant_re() + d.constant_im()
            * d.constant_im() < (d.radius + 2) * (d.radius + 2),
{
    let r = d.radius as int;
    let m = d.heading_sqr();
    lemma_floor_sqrt_exists(m);
    let n = floor_sqrt(m);
    assert(n >= 500_000) by {
        if n < 500_000 {
            lemma_square_order(n + 1, 500_000);
        }
    }
    lemma_square_order(n, 1_000_000);
    let au: int = if d.heading.re >= 0 { d.heading.re as int } else { -d.heading.re };
    let av: int = if d.heading.im >= 0 { d.heading.im as int } else { -d.heading.im };
    assert(au * au + av * av == m) by (nonlinear_arith)
        requires
            au == d.heading.re || au == -d.heading.re,
            av == d.heading.im || av == -d.heading.im,
            m == d.heading.re * d.heading.re + d.heading.im * d.heading.im,
    ;
    lemma_trunc_div_brackets(r * d.heading.re, n);
    lemma_trunc_div_brackets(r * d.heading.im, n);
    let x: int = if r * d.heading.re >= 0 { r * d.heading.re } else { -(r * d.heading.re) };
    let y: int = if r * d.heading.im >= 0 { r * d.heading.im } else { -(r * d.heading.im) };
    assert(x == r * au && y == r * av) by (nonlinear_arith)
        requires
            r > 0,
            au >= 0,
            av >= 0,
            au == d.heading.re || au == -d.heading.re,
            av == d.heading.im || av == -d.heading.im,
            x >= 0,
            y >= 0,
            x == r * d.heading.re || x == -(r * d.heading.re),
            y == r * d.heading.im || y == -(r * d.heading.im),
    ;
    let a: int = if r * d.heading.re >= 0 { d.constant_re() } else { -d.constant_re() };
    let b: int = if r * d.heading.im >= 0 { d.constant_im() } else { -d.constant_im() };
    let c2 = a * a + b * b;
    assert(c2 == d.constant_re() * d.constant_re() + d.constant_im() * d.constant_im());
    assert(a * n >= 0 && b * n >= 0) by (nonlinear_arith)
        requires a >= 0, b >= 0, n > 0;
    lemma_square_order(a * n, x);
    lemma_square_order(b * n, y);
    lemma_square_order(x, (a + 1) * n);
    lemma_square_order(y, (b + 1) * n);
    assert(c2 * (n * n) <= x * x + y * y) by (nonlinear_arith)
        requires (a * n) * (a * n) <= x * x, (b * n) * (b * n) <= y * y, c2 == a * a + b * b;
    assert(x * x + y * y == (r * r) * m) by (nonlinear_arith)
        requires x == r * au, y == r * av, au * au + av * av == m;
    let e2 = (a + 1) * (a + 1) + (b + 1) * (b + 1);
    assert(e2 * (n * n) > x * x + y * y) by (nonlinear_arith)
        requires
            x * x < ((a + 1) * n) * ((a + 1) * n),
            y * y < ((b + 1) * n) * ((b + 1) * n),
            e2 == (a + 1) * (a + 1) + (b + 1) * (b + 1),
    ;
    assert(n * n > 0) by (nonlinear_arith)
        requires n > 0;
    assert((a - b) * (a - b) >= 0) by (nonlinear_arith);
    assert((r * r) * m < (r * r) * ((n + 1) * (n + 1))) by (nonlinear_arith)
        requires m < (n + 1) * (n + 1), r > 0;
    assert(r * (n + 1) <= (r + 2) * n) by (nonlinear_arith)
        requires r <= 2 * n;
    assert(r * (n + 1) >= 0) by (nonlinear_arith)
        requires r >= 0, n >= 0;
    lemma_square_order(r * (n + 1), (r + 2) * n);
    assert((r * r) * ((n + 1) * (n + 1)) == (r * (n + 1)) * (r * (n + 1))) by (nonlinear_arith);
    assert(((r + 2) * n) * ((r + 2) * n) == ((r + 2) * (r + 2)) * (n * n)) by (nonlinear_arith);
    let hi = (r + 2) * (r + 2);
    assert(c2 < hi) by (nonlinear_arith)
        requires c2 * (n * n) < hi * (n * n), n * n > 0;
    assert((r * r) * m >= (r * r) * (n * n)) by (nonlinear_arith)
        requires m >= n * n, r > 0;
    assert(e2 > r * r) by (nonlinear_arith)
        requires e2 * (n * n) > (r * r) * (n * n), n * n > 0;
    assert((a + b) * (a + b) <= 2 * c2) by (nonlinear_arith)
        requires c2 == a * a + b * b, (a - b) * (a - b) >= 0;
    assert(2 * hi <= (2 * r - 3) * (2 * r - 3)) by (nonlinear_arith)
        requires hi == (r + 2) * (r + 2), r >= 300_000;
    lemma_square_order(a + b, 2 * r - 3);
    assert(e2 == c2 + 2 * (a + b) + 2) by (nonlinear_arith)
        requires e2 == (a + 1) * (a + 1) + (b + 1) * (b + 1), c2 == a * a + b * b;
    assert((r - 2) * (r - 2) == r * r - 4 * r + 4) by (nonlinear_arith);
}

/// Interpolating a parameter set with itself is the identity, for any `t`.
pub proof fn lemma_lerp_same(a: FractalParameters, t: int)
    ensures
        a.lerp_spec(&a, t) == a,
{
    lemma_lerp_value_same(a.c.re as int, t);
    lemma_lerp_value_same(a.c.im as int, t);
    lemma_lerp_value_same(a.zoom as int, t);
    lemma_lerp_value_same(a.x_offset as int, t);
    lemma_lerp_value_same(a.y_offset as int, t);
}

/// Interpolation starts at its first argument and ends at its second; any
/// `t` at or beyond an end of the unit interval gives that end.
pub proof fn lemma_lerp_endpoints(a: FractalParameters, b: FractalParameters, t: int)
    ensures
        t <= 0 ==> a.lerp_spec(&b, t) == a,
        t >= SCALE ==> a.lerp_spec(&b, t) == b,
{
    lemma_lerp_value_endpoints(a.c.re as int, b.c.re as int);
    lemma_lerp_value_endpoints(a.c.im as int, b.c.im as int);
    lemma_lerp_value_endpoints(a.zoom as int, b.zoom as int);
    lemma_lerp_value_endpoints(a.x_offset as int, b.x_offset as int);
    lemma_lerp_value_endpoints(a.y_offset as int, b.y_offset as int);
}

/// Calls `rand::Rng::gen_range` on the thread-local generator of
/// `rand::thread_rng` with the half-open range `low..high`. The generator
/// rejects an empty range, hence the precondition; all that is claimed of the
/// draw is that it lies in the range. Should the operating system give the
/// generator no seed, the call does not return.
#[verifier::external_body]
fn uniform_below(low: i64, high: i64) -> (r: i64)
    requires
        low < high,
    ensures
        low <= r < high,
{
    rand::thread_rng().gen_range(low..high)
}

} // verus!
