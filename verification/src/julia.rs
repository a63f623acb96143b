//! Escape-time evaluation and the mapping from grid cells to the plane.

use vstd::prelude::*;
use crate::numeric::{div_toward_zero, lemma_product_bound, lemma_trunc_div_bounds, trunc_div,
    COORD_LIMIT, SCALE};
use crate::parameters::{Complex, FractalParameters};

verus! {

/// The cap on the number of steps of the recurrence.
pub const MAX_ITERATIONS: u32 = 100;

/// `|z|^2 > 4`, in raw units on both sides.
pub open spec fn escaped(re: int, im: int) -> bool {
    re * re + im * im > 4 * SCALE * SCALE
}

/// Real part of `z^2 + c`.
pub open spec fn step_re(re: int, im: int, c_re: int) -> int {
    trunc_div(re * re - im * im, SCALE as int) + c_re
}

/// Imaginary part of `z^2 + c`.
pub open spec fn step_im(re: int, im: int, c_im: int) -> int {
    trunc_div(2 * re * im, SCALE as int) + c_im
}

/// Number of steps `z <- z^2 + c` taken from `(re, im)` until the point has
/// escaped or `budget` steps have been made.
pub open spec fn escape_steps(re: int, im: int, c_re: int, c_im: int, budget: nat) -> nat
    decreases budget,
{
    if budget == 0 || escaped(re, im) {
        0
    } else {
        1 + escape_steps(
            step_re(re, im, c_re),
            step_im(re, im, c_im),
            c_re,
            c_im,
            (budget - 1) as nat,
        )
    }
}

/// The escape time of `z` under the constant `c`, with the fixed cap.
pub open spec fn escape_time(z: Complex, c: Complex) -> nat {
    escape_steps(z.re as int, z.im as int, c.re as int, c.im as int, MAX_ITERATIONS as nat)
}

/// The count never exceeds the budget.
pub proof fn lemma_escape_steps_bounded(re: int, im: int, c_re: int, c_im: int, budget: nat)
    ensures
        escape_steps(re, im, c_re, c_im, budget) <= budget,
    decreases budget,
{
    if budget != 0 && !escaped(re, im) {
        lemma_escape_steps_bounded(
            step_re(re, im, c_re),
            step_im(re, im, c_im),
            c_re,
            c_im,
            (budget - 1) as nat,
        );
    }
}

/// Raising the cap never lowers the count.
pub proof fn lemma_escape_steps_monotone(
    re: int,
    im: int,
    c_re: int,
    c_im: int,
    small: nat,
    large: nat,
)
    requires
        small <= large,
    ensures
        escape_steps(re, im, c_re, c_im, small) <= escape_steps(re, im, c_re, c_im, large),
    decreases small,
{
    if small != 0 && !escaped(re, im) {
        lemma_escape_steps_monotone(
            step_re(re, im, c_re),
            step_im(re, im, c_im),
            c_re,
            c_im,
            (small - 1) as nat,
            (large - 1) as nat,
        );
    }
}

/// A count below the cap is final: a larger cap gives the same count.
pub proof fn lemma_escape_steps_stable(
    re: int,
    im: int,
    c_re: int,
    c_im: int,
    small: nat,
    large: nat,
)
    requires
        small <= large,
        escape_steps(re, im, c_re, c_im, small) < small,
    ensures
        escape_steps(re, im, c_re, c_im, large) == escape_steps(re, im, c_re, c_im, small),
    decreases small,
{
    if small != 0 && !escaped(re, im) {
        lemma_escape_steps_stable(
            step_re(re, im, c_re),
            step_im(re, im, c_im),
            c_re,
            c_im,
            (small - 1) as nat,
            (large - 1) as nat,
        );
    }
}

/// From the origin, a constant of modulus above two escapes at the first
/// step: the count is one under every cap of at least one.
pub proof fn lemma_large_constant_escapes(c_re: int, c_im: int, budget: nat)
    requires
        escaped(c_re, c_im),
        budget >= 1,
    ensures
        escape_steps(0, 0, c_re, c_im, budget) == 1,
{
    assert(!escaped(0, 0));
    assert(step_re(0, 0, c_re) == c_re);
    assert(step_im(0, 0, c_im) == c_im);
    assert(escape_steps(c_re, c_im, c_re, c_im, (budget - 1) as nat) == 0);
}

/// Whether `(re, im)` has left the disk of radius two.
fn has_escaped(re: i128, im: i128) -> (e: bool)
    requires
        -0x1_0000_0000_0000_0000 <= re <= 0x1_0000_0000_0000_0000,
        -0x1_0000_0000_0000_0000 <= im <= 0x1_0000_0000_0000_0000,
    ensures
        e == escaped(re as int, im as int),
        !e ==> -2 * SCALE <= re <= 2 * SCALE && -2 * SCALE <= im <= 2 * SCALE,
{
    let two: i128 = 2 * (SCALE as i128);
    if re > two || re < -two || im > two || im < -two {
        proof {
            assert(re * re + im * im > 4 * SCALE * SCALE) by (nonlinear_arith)
                requires
                    re > 2 * SCALE || re < -2 * SCALE || im > 2 * SCALE || im < -2 * SCALE,
                    SCALE == 1_000_000,
            ;
        }
        true
    } else {
        proof {
            lemma_product_bound(re as int, re as int, 2_000_000, 2_000_000);
            lemma_product_bound(im as int, im as int, 2_000_000, 2_000_000);
        }
        re * re + im * im > 4 * (SCALE as i128) * (SCALE as i128)
    }
}

/// Iterates `z <- z^2 + c` from `z` and returns the number of steps made
/// before `|z|^2 > 4`, or the cap if the point never escapes that soon.
pub fn calculate_iterations(z: Complex, c: Complex) -> (n: u32)
    ensures
        n == escape_time(z, c),
        n <= MAX_ITERATIONS,
{
    let mut re: i128 = z.re as i128;
    let mut im: i128 = z.im as i128;
    let mut i: u32 = 0;
    while i < MAX_ITERATIONS
        invariant
            i <= MAX_ITERATIONS,
            -0x1_0000_0000_0000_0000 <= re <= 0x1_0000_0000_0000_0000,
            -0x1_0000_0000_0000_0000 <= im <= 0x1_0000_0000_0000_0000,
            i + escape_steps(
                re as int,
                im as int,
                c.re as int,
                c.im as int,
                (MAX_ITERATIONS - i) as nat,
            ) == escape_time(z, c),
        decreases MAX_ITERATIONS - i,
    {
        if has_escaped(re, im) {
            return i;
        }
        proof {
            lemma_product_bound(re as int, re as int, 2_000_000, 2_000_000);
            lemma_product_bound(im as int, im as int, 2_000_000, 2_000_000);
            lemma_product_bound(2 * re, im as int, 4_000_000, 2_000_000);
            lemma_trunc_div_bounds(re * re - im * im, SCALE as int);
            lemma_trunc_div_bounds(2 * re * im, SCALE as int);
        }
        let next_re: i128 = div_toward_zero(re * re - im * im, SCALE as i128) + c.re as i128;
        let next_im: i128 = div_toward_zero(2 * re * im, SCALE as i128) + c.im as i128;
        re = next_re;
        im = next_im;
        i += 1;
    }
    i
}

/// Real coordinate of column `x` of a grid `width` cells wide:
/// `(x / width - 1/2) * 3 / zoom + x_offset`, computed as one quotient.
pub open spec fn map_re(x: int, width: int, zoom: int, x_offset: int) -> int {
    trunc_div(3 * (2 * x - width) * SCALE * SCALE, 2 * width * zoom) + x_offset
}

/// Imaginary coordinate of row `y` of a grid `height` rows high and `width`
/// cells wide: `(y / height - 1/2) * 3 * (height / width) / zoom + y_offset`,
/// in which `height` cancels up to its place in `2 * y - height`.
pub open spec fn map_im(y: int, width: int, height: int, zoom: int, y_offset: int) -> int {
    trunc_div(3 * (2 * y - height) * SCALE * SCALE, 2 * width * zoom) + y_offset
}

/// The point of the plane that cell `(x, y)` shows.
pub open spec fn map_point(x: int, y: int, width: int, height: int, p: FractalParameters)
    -> Complex {
    Complex {
        re: map_re(x, width, p.zoom as int, p.x_offset as int) as i64,
        im: map_im(y, width, height, p.zoom as int, p.y_offset as int) as i64,
    }
}

/// One axis of the mapping: `3 * centred * SCALE^2 / (2 * width * zoom) + offset`.
fn map_axis(centred: i128, width: u16, zoom: i64, offset: i64) -> (r: i64)
    requires
        -200_000 <= centred <= 200_000,
        width > 0,
        0 < zoom,
        -COORD_LIMIT <= offset <= COORD_LIMIT,
    ensures
        r == trunc_div(3 * centred * SCALE * SCALE, 2 * width * zoom) + offset,
{
    let num: i128 = 3 * centred * (SCALE as i128) * (SCALE as i128);
    proof {
        lemma_product_bound(width as int, zoom as int, 65_535, 0x8000_0000_0000_0000);
        assert(2 * width * zoom == 2 * (width * zoom)) by (nonlinear_arith);
        assert(width * zoom > 0) by (nonlinear_arith)
            requires width > 0, zoom > 0;
        lemma_trunc_div_bounds(num as int, 2 * width * zoom);
    }
    let den: i128 = 2 * (width as i128) * (zoom as i128);
    let q: i128 = div_toward_zero(num, den);
    (q + offset as i128) as i64
}

/// Maps cell `(x, y)` of a `width` by `height` grid to its point of the
/// complex plane. Cells outside the grid are mapped by the same formula.
pub fn map_point_to_complex(x: u16, y: u16, width: u16, height: u16, params: &FractalParameters)
    -> (z: Complex)
    requires
        width > 0,
        height > 0,
        params.wf(),
    ensures
        z == map_point(x as int, y as int, width as int, height as int, *params),
        z.re == map_re(x as int, width as int, params.zoom as int, params.x_offset as int),
        z.im == map_im(
            y as int,
            width as int,
            height as int,
            params.zoom as int,
            params.y_offset as int,
        ),
{
    let cx: i128 = 2 * (x as i128) - width as i128;
    let cy: i128 = 2 * (y as i128) - height as i128;
    Complex {
        re: map_axis(cx, width, params.zoom, params.x_offset),
        im: map_axis(cy, width, params.zoom, params.y_offset),
    }
}

/// Columns at equal distance to the left and to the right of the centre
/// show real parts at equal distance from `x_offset`, rows above and below
/// it imaginary parts at equal distance from `y_offset`.
pub proof fn lemma_map_mirrored(
    x: int,
    y: int,
    width: int,
    height: int,
    zoom: int,
    x_offset: int,
    y_offset: int,
)
    requires
        width > 0,
        zoom > 0,
    ensures
        map_re(width - x, width, zoom, x_offset) - x_offset == x_offset - map_re(
            x,
            width,
            zoom,
            x_offset,
        ),
        map_im(height - y, width, height, zoom, y_offset) - y_offset == y_offset - map_im(
            y,
            width,
            height,
            zoom,
            y_offset,
        ),
{
    let den = 2 * width * zoom;
    assert(den > 0) by (nonlinear_arith)
        requires den == 2 * width * zoom, width > 0, zoom > 0;
    let nx = 3 * (2 * x - width) * SCALE * SCALE;
    assert(3 * (2 * (width - x) - width) * SCALE * SCALE == -nx) by (nonlinear_arith)
        requires nx == 3 * (2 * x - width) * SCALE * SCALE;
    lemma_trunc_div_bounds(nx, den);
    let ny = 3 * (2 * y - height) * SCALE * SCALE;
    assert(3 * (2 * (height - y) - height) * SCALE * SCALE == -ny) by (nonlinear_arith)
        requires ny == 3 * (2 * y - height) * SCALE * SCALE;
    lemma_trunc_div_bounds(ny, den);
}

/// The centre of the grid shows the point `(x_offset, y_offset)`.
pub proof fn lemma_centre_maps_to_offset(width: int, height: int, p: FractalParameters)
    requires
        width > 0,
        height > 0,
        width % 2 == 0,
        height % 2 == 0,
        p.wf(),
    ensures
        map_point(width / 2, height / 2, width, height, p) == (Complex {
            re: p.x_offset,
            im: p.y_offset,
        }),
{
    assert(3 * (2 * (width / 2) - width) * SCALE * SCALE == 0) by (nonlinear_arith)
        requires width % 2 == 0;
    assert(3 * (2 * (height / 2) - height) * SCALE * SCALE == 0) by (nonlinear_arith)
        requires height % 2 == 0;
    assert(0int / (2 * width * p.zoom) == 0) by (nonlinear_arith)
        requires width > 0, p.zoom > 0;
}

} // verus!
