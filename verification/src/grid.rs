//! The cell grid: how a rectangle of character cells lies in a linear region
//! of bytes.
//!
//! A cell takes two adjacent bytes, the glyph at the even offset and the
//! attribute at the odd one. Cells are numbered row by row, left to right.
//! No function here rejects an index: each states the range it accepts, and
//! its callers are proved to stay inside it.

use vstd::prelude::*;

verus! {

/// Cells in a row.
pub const WIDTH: usize = 80;

/// Rows on the screen.
pub const HEIGHT: usize = 25;

/// Cells on the screen.
pub const CELLS: usize = WIDTH * HEIGHT;

/// Bytes that one cell takes.
pub const CELL_BYTES: usize = 2;

/// Bytes in the whole region.
pub const REGION_BYTES: usize = CELL_BYTES * CELLS;

/// The glyph of an empty cell: the space character.
pub const BLANK_GLYPH: u8 = 0x20;

/// The attribute that printed text gets: white on black.
pub const DEFAULT_ATTRIBUTE: u8 = 0x0f;

/// One character position: what is shown, and in which colours.
#[derive(Clone, Copy, PartialEq, Eq, Structural, Debug)]
pub struct Cell {
    /// The character code.
    pub glyph: u8,
    /// Foreground colour in the low four bits, background in the high four.
    pub attribute: u8,
}

/// The empty cell that scrolling leaves behind.
pub open spec fn blank() -> Cell {
    Cell { glyph: BLANK_GLYPH, attribute: DEFAULT_ATTRIBUTE }
}

/// The cell that the bytes of `region` hold at position `index`.
pub open spec fn cell_at(region: Seq<u8>, index: int) -> Cell {
    Cell { glyph: region[2 * index], attribute: region[2 * index + 1] }
}

/// The grid that a region of bytes holds, cell by cell.
pub open spec fn cells_of(region: Seq<u8>) -> Seq<Cell> {
    Seq::new(CELLS as nat, |index: int| cell_at(region, index))
}

/// The row of `cells` with number `row`, as a sequence of `WIDTH` cells.
pub open spec fn row_of(cells: Seq<Cell>, row: int) -> Seq<Cell> {
    cells.subrange(row * WIDTH, row * WIDTH + WIDTH)
}

/// The number of the cell in row `row` and column `column`.
pub fn cell_index(row: usize, column: usize) -> (index: usize)
    requires
        row < HEIGHT,
        column < WIDTH,
    ensures
        index == row * WIDTH + column,
        index < CELLS,
{
    row * WIDTH + column
}

/// The offset in the region of the glyph byte of cell `index`.
pub fn glyph_offset(index: usize) -> (offset: usize)
    requires
        index < CELLS,
    ensures
        offset == 2 * index,
        offset < REGION_BYTES,
    no_unwind
{
    index * CELL_BYTES
}

/// The offset in the region of the attribute byte of cell `index`.
pub fn attribute_offset(index: usize) -> (offset: usize)
    requires
        index < CELLS,
    ensures
        offset == 2 * index + 1,
        offset < REGION_BYTES,
    no_unwind
{
    index * CELL_BYTES + 1
}

/// Reads the cell with number `index`.
pub fn read_cell(region: &[u8; REGION_BYTES], index: usize) -> (cell: Cell)
    requires
        index < CELLS,
    ensures
        cell == cells_of(region@)[index as int],
{
    Cell { glyph: region[glyph_offset(index)], attribute: region[attribute_offset(index)] }
}

/// Writes `cell` at number `index`; every other cell keeps its content.
pub fn write_cell(region: &mut [u8; REGION_BYTES], index: usize, cell: Cell)
    requires
        index < CELLS,
    ensures
        cells_of(final(region)@) == cells_of(old(region)@).update(index as int, cell),
    no_unwind
{
    region[glyph_offset(index)] = cell.glyph;
    region[attribute_offset(index)] = cell.attribute;
}

} // verus!
