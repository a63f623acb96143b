//! One frame of the animation, cell by cell.

use vstd::prelude::*;
use crate::colors::{cell_style_spec, get_color, is_rendering, ColorScheme};
use crate::julia::{calculate_iterations, escape_time, map_point, map_point_to_complex};
use crate::parameters::FractalParameters;

verus! {

/// The escape time shown in cell `k` of a frame, cells counted row by row
/// from the top left.
pub open spec fn cell_iterations(p: FractalParameters, width: int, height: int, k: int) -> int {
    escape_time(map_point(k % width, k / width, width, height, p), p.c) as int
}

/// Computes one frame: the escape time of every cell of the grid, row by
/// row from the top left.
pub fn frame_iterations(params: &FractalParameters, width: u16, height: u16) -> (counts: Vec<u32>)
    requires
        width > 0,
        height > 0,
        params.wf(),
    ensures
        counts.len() == width * height,
        forall|k: int|
            0 <= k < counts.len() ==> #[trigger] counts[k] == cell_iterations(
                *params,
                width as int,
                height as int,
                k,
            ),
{
    proof {
        assert(width * height <= 65_535 * 65_535) by (nonlinear_arith)
            requires 0 <= width <= 65_535, 0 <= height <= 65_535;
    }
    let total: u32 = (width as u32) * (height as u32);
    let mut counts: Vec<u32> = Vec::new();
    let mut k: u32 = 0;
    while k < total
        invariant
            width > 0,
            height > 0,
            params.wf(),
            total == width * height,
            k <= total,
            counts.len() == k,
            forall|j: int|
                0 <= j < k ==> #[trigger] counts[j] == cell_iterations(
                    *params,
                    width as int,
                    height as int,
                    j,
                ),
        decreases total - k,
    {
        let x: u32 = k % (width as u32);
        let y: u32 = k / (width as u32);
        proof {
            assert(k / (width as u32) < height) by (nonlinear_arith)
                requires 0 <= k < width * height, width > 0;
        }
        let z = map_point_to_complex(x as u16, y as u16, width, height, params);
        counts.push(calculate_iterations(z, params.c));
        k += 1;
    }
    counts
}

/// Renders one frame: for every cell of the grid, row by row from the top
/// left, the text that draws it in the given palette.
pub fn render_fractal(
    params: &FractalParameters,
    color_scheme: ColorScheme,
    width: u16,
    height: u16,
) -> (cells: Vec<String>)
    requires
        width > 0,
        height > 0,
        params.wf(),
    ensures
        cells.len() == width * height,
        forall|k: int|
            0 <= k < cells.len() ==> is_rendering(
                cell_style_spec(
                    cell_iterations(*params, width as int, height as int, k),
                    color_scheme,
                ),
                #[trigger] cells[k]@,
            ),
{
    let counts = frame_iterations(params, width, height);
    let mut cells: Vec<String> = Vec::new();
    let mut k: usize = 0;
    while k < counts.len()
        invariant
            k <= counts.len(),
            cells.len() == k,
            counts.len() == width * height,
            forall|j: int|
                0 <= j < counts.len() ==> #[trigger] counts[j] == cell_iterations(
                    *params,
                    width as int,
                    height as int,
                    j,
                ),
            forall|j: int|
                0 <= j < k ==> is_rendering(
                    cell_style_spec(
                        cell_iterations(*params, width as int, height as int, j),
                        color_scheme,
                    ),
                    #[trigger] cells[j]@,
                ),
        decreases counts.len() - k,
    {
        cells.push(get_color(counts[k], color_scheme));
        k += 1;
    }
    cells
}

} // verus!
