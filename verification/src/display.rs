//! Display geometry: how the pixels of the screen map onto the cells of the
//! grid.

use vstd::prelude::*;

verus! {

/// Width of the display in pixels.
pub const DISPLAY_WIDTH: usize = 1440;

/// Height of the display in pixels.
pub const DISPLAY_HEIGHT: usize = 900;

/// Side of the square that shows one cell, in pixels.
pub const PIXEL_SIZE: usize = 10;

/// Frames shown per second.
pub const TARGET_FPS: u32 = 60;

/// Columns of the grid that fills the display.
pub const GRID_WIDTH: usize = DISPLAY_WIDTH / PIXEL_SIZE;

/// Rows of the grid that fills the display.
pub const GRID_HEIGHT: usize = DISPLAY_HEIGHT / PIXEL_SIZE;

/// The row or column of the cell that shows the pixel at the given offset.
pub open spec fn cell_index(offset: int) -> int {
    offset / (PIXEL_SIZE as int)
}

/// The row or column of the cell that shows the pixel at the given offset.
pub fn cell_of_pixel(offset: usize) -> (index: usize)
    ensures
        index == cell_index(offset as int),
        index * PIXEL_SIZE <= offset < (index + 1) * PIXEL_SIZE,
{
    offset / PIXEL_SIZE
}

/// The offset of the first pixel of the cell in the given row or column, if
/// a `usize` can name it.
pub fn pixel_of_cell(index: usize) -> (offset: Option<usize>)
    ensures
        match offset {
            Some(first) => first == index * PIXEL_SIZE,
            None => index * PIXEL_SIZE > usize::MAX,
        },
{
    index.checked_mul(PIXEL_SIZE)
}

/// Every pixel of a cell's square belongs to that cell.
pub proof fn lemma_pixels_of_cell(index: nat, inset: nat)
    requires
        inset < PIXEL_SIZE,
    ensures
        cell_index(index * PIXEL_SIZE + inset) == index,
{
}

} // verus!
