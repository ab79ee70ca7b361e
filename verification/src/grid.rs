//! Row-major grids: the cell at column `x` of row `y` has index `y * width + x`.

use vstd::arithmetic::div_mod::lemma_fundamental_div_mod;
use vstd::arithmetic::div_mod::lemma_fundamental_div_mod_converse;
use vstd::prelude::*;

verus! {

/// A cell of a grid, with the size of the grid it lies in.
#[derive(Clone, Copy, Debug)]
pub struct Site {
    pub x: usize,
    pub y: usize,
    pub width: usize,
    pub height: usize,
}

/// The index of the cell at column `x` of row `y`.
pub open spec fn index_of(x: int, y: int, width: int) -> int {
    y * width + x
}

/// The cell with the given index in a grid of the given size.
pub open spec fn site_at(index: int, width: usize, height: usize) -> Site {
    Site { x: (index % (width as int)) as usize, y: (index / (width as int)) as usize, width, height }
}

/// A cell inside the grid has an index below the number of cells.
pub proof fn lemma_index_in_range(x: int, y: int, width: int, height: int)
    requires
        0 <= x < width,
        0 <= y < height,
    ensures
        0 <= index_of(x, y, width) < width * height,
{
    assert(y * width + width <= height * width) by (nonlinear_arith)
        requires
            0 <= y < height,
            0 < width,
    ;
    assert(0 <= y * width) by (nonlinear_arith)
        requires
            0 <= y,
            0 < width,
    ;
    assert(height * width == width * height) by (nonlinear_arith);
}

/// The index of a cell gives its column and its row back.
pub proof fn lemma_index_to_site(x: int, y: int, width: int)
    requires
        0 <= x < width,
        0 <= y,
    ensures
        index_of(x, y, width) % width == x,
        index_of(x, y, width) / width == y,
{
    lemma_fundamental_div_mod_converse(index_of(x, y, width), width, y, x);
}

/// An index below the number of cells names a cell inside the grid, and that cell has this
/// index.
pub proof fn lemma_site_in_grid(index: int, width: int, height: int)
    requires
        0 <= index < width * height,
        0 <= width,
        0 <= height,
    ensures
        0 <= index % width < width,
        0 <= index / width < height,
        index_of(index % width, index / width, width) == index,
{
    assert(width > 0) by (nonlinear_arith)
        requires
            0 <= index < width * height,
            0 <= width,
    ;
    lemma_fundamental_div_mod(index, width);
    let q = index / width;
    let r = index % width;
    assert(width * q == q * width) by (nonlinear_arith);
    assert(q < height) by (nonlinear_arith)
        requires
            q * width + r < width * height,
            0 <= r,
            0 < width,
    ;
    assert(0 <= q) by (nonlinear_arith)
        requires
            0 <= q * width + r,
            r < width,
            0 < width,
    ;
}

/// The index of the cell at column `x` of row `y`, for a cell inside the grid.
pub fn cell_index(x: usize, y: usize, width: usize, height: usize) -> (index: usize)
    requires
        x < width,
        y < height,
        width * height <= usize::MAX,
    ensures
        index == index_of(x as int, y as int, width as int),
        index < width * height,
{
    proof {
        lemma_index_in_range(x as int, y as int, width as int, height as int);
    }
    y * width + x
}

} // verus!
