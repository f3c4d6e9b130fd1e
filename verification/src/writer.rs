//! The console: a cursor over a borrowed framebuffer region.
//!
//! A [`Writer`] is the only owner of the cursor and, while it lives, the only
//! way to the region. Every operation says what it makes of the [`Screen`]
//! that the writer stands for.

use crate::grid::{
    blank, cells_of, read_cell, row_of, write_cell, Cell, BLANK_GLYPH, CELLS, DEFAULT_ATTRIBUTE,
    HEIGHT, REGION_BYTES, WIDTH,
};
use crate::screen::Screen;
use vstd::prelude::*;
use vstd::string::StringSliceAdditionalSpecFns;

verus! {

/// A text console on a framebuffer region.
///
/// Its view is the [`Screen`] it shows. The cursor never leaves the grid by
/// more than the one position behind the last cell, so every operation can be
/// called on every writer.
pub struct Writer<'a> {
    region: &'a mut [u8; REGION_BYTES],
    cursor: usize,
}

impl<'a> View for Writer<'a> {
    type V = Screen;

    closed spec fn view(&self) -> Screen {
        Screen { cells: cells_of(self.region@), cursor: self.cursor as nat }
    }
}

impl<'a> Writer<'a> {
    #[verifier::type_invariant]
    spec fn cursor_in_reach(&self) -> bool {
        self.cursor <= CELLS
    }

    /// A console over `region`, showing what the region holds, with the
    /// cursor at the top left.
    pub fn new(region: &'a mut [u8; REGION_BYTES]) -> (writer: Writer<'a>)
        ensures
            writer@ == (Screen { cells: cells_of(old(region)@), cursor: 0 }),
            writer@.wf(),
    {
        Writer { region, cursor: 0 }
    }

    /// The number of the next cell to be written: at most `CELLS`, which it
    /// is when the grid is full.
    pub fn cursor(&self) -> (cursor: usize)
        ensures
            cursor == self@.cursor,
            self@.wf(),
    {
        proof {
            use_type_invariant(self);
        }
        self.cursor
    }

    /// The cell with number `index`, as the screen shows it.
    pub fn cell(&self, index: usize) -> (cell: Cell)
        requires
            index < CELLS,
        ensures
            cell == self@.cells[index as int],
    {
        read_cell(self.region, index)
    }

    /// Blanks the screen: every cell becomes a space with attribute `color`,
    /// and the cursor goes to the top left.
    pub fn clear_screen(&mut self, color: u8)
        ensures
            final(self)@ == Screen::cleared(color),
            final(self)@.wf(),
            final(self)@.cursor == 0,
            forall|index: int|
                0 <= index < CELLS ==> #[trigger] final(self)@.cells[index] == (Cell {
                    glyph: BLANK_GLYPH,
                    attribute: color,
                }),
    {
        proof {
            use_type_invariant(&*self);
        }
        let mut index: usize = 0;
        while index < CELLS
            invariant
                index <= CELLS,
                self.cursor <= CELLS,
                forall|done: int|
                    0 <= done < index ==> #[trigger] self@.cells[done] == (Cell {
                        glyph: BLANK_GLYPH,
                        attribute: color,
                    }),
            decreases CELLS - index,
        {
            let ghost cells = self@.cells;
            write_cell(self.region, index, Cell { glyph: BLANK_GLYPH, attribute: color });
            assert(self@.cells == cells.update(
                index as int,
                Cell { glyph: BLANK_GLYPH, attribute: color },
            ));
            index = index + 1;
        }
        assert(self@.cells =~= Screen::cleared(color).cells);
        self.cursor = 0;
    }

    /// Scrolls by one row: each row takes the content of the row below it and
    /// the bottom row becomes blank. The cursor is left alone; a caller that
    /// scrolls to make room moves it up by one row itself.
    pub fn scroll_screen(&mut self)
        ensures
            final(self)@ == old(self)@.scrolled(),
            final(self)@.cells.len() == CELLS,
            forall|row: int|
                0 <= row < HEIGHT - 1 ==> #[trigger] row_of(final(self)@.cells, row) == row_of(
                    old(self)@.cells,
                    row + 1,
                ),
            row_of(final(self)@.cells, HEIGHT - 1) == Seq::new(
                WIDTH as nat,
                |column: int| blank(),
            ),
    {
        proof {
            use_type_invariant(&*self);
        }
        let ghost before = self@;
        let mut index: usize = 0;
        while index < CELLS - WIDTH
            invariant
                index <= CELLS - WIDTH,
                self.cursor == before.cursor,
                self.cursor <= CELLS,
                before.cells.len() == CELLS,
                forall|moved: int|
                    0 <= moved < index ==> #[trigger] self@.cells[moved] == before.cells[moved
                        + WIDTH],
                forall|kept: int|
                    index <= kept < CELLS ==> #[trigger] self@.cells[kept] == before.cells[kept],
            decreases CELLS - WIDTH - index,
        {
            let ghost cells = self@.cells;
            let below = read_cell(self.region, index + WIDTH);
            write_cell(self.region, index, below);
            assert(self@.cells == cells.update(index as int, before.cells[index + WIDTH]));
            index = index + 1;
        }
        while index < CELLS
            invariant
                CELLS - WIDTH <= index <= CELLS,
                self.cursor == before.cursor,
                self.cursor <= CELLS,
                before.cells.len() == CELLS,
                forall|moved: int|
                    0 <= moved < CELLS - WIDTH ==> #[trigger] self@.cells[moved]
                        == before.cells[moved + WIDTH],
                forall|blanked: int|
                    CELLS - WIDTH <= blanked < index ==> #[trigger] self@.cells[blanked]
                        == blank(),
            decreases CELLS - index,
        {
            let ghost cells = self@.cells;
            write_cell(self.region, index, Cell { glyph: BLANK_GLYPH, attribute: DEFAULT_ATTRIBUTE });
            assert(self@.cells == cells.update(index as int, blank()));
            index = index + 1;
        }
        proof {
            assert(self@.cells =~= before.scrolled().cells);
            before.lemma_scrolled_rows();
        }
    }

    /// Writes one glyph at the cursor, scrolling first if the grid is full.
    fn put(&mut self, glyph: u8)
        ensures
            final(self)@ == old(self)@.put(glyph),
            final(self)@.wf(),
    {
        proof {
            use_type_invariant(&*self);
        }
        if self.cursor >= CELLS {
            self.scroll_screen();
            self.cursor = self.cursor - WIDTH;
        }
        write_cell(self.region, self.cursor, Cell { glyph, attribute: DEFAULT_ATTRIBUTE });
        self.cursor = self.cursor + 1;
    }

    /// Writes the bytes of `text` from the cursor on, one glyph each, in the
    /// default attribute. Whenever the grid is full the screen scrolls by one
    /// row before the next glyph is written.
    pub fn print_bytes(&mut self, text: &[u8])
        ensures
            final(self)@ == old(self)@.printed(text@),
            final(self)@ == old(self)@.page_shown(text@),
            final(self)@.wf(),
            old(self)@.cursor + text@.len() <= CELLS ==> final(self)@ == old(
                self,
            )@.written_in_place(text@),
    {
        proof {
            use_type_invariant(&*self);
        }
        let ghost before = self@;
        let mut done: usize = 0;
        while done < text.len()
            invariant
                done <= text@.len(),
                self@ == before.printed(text@.take(done as int)),
                self@.wf(),
            decreases text@.len() - done,
        {
            proof {
                assert(text@.take(done + 1).drop_last() == text@.take(done as int));
            }
            self.put(text[done]);
            done = done + 1;
        }
        proof {
            assert(text@.take(done as int) == text@);
            before.lemma_printed_shows_page(text@);
            if before.cursor + text@.len() <= CELLS {
                before.lemma_printed_within_grid(text@);
            }
        }
    }

    /// Writes `text` from the cursor on, one glyph for each byte of its
    /// encoding. Text outside ASCII is not rejected: each of its bytes is
    /// shown as whatever the hardware font has for it.
    pub fn print(&mut self, text: &str)
        ensures
            final(self)@ == old(self)@.printed(text.spec_bytes()),
            final(self)@ == old(self)@.page_shown(text.spec_bytes()),
            final(self)@.wf(),
            old(self)@.cursor + text.spec_bytes().len() <= CELLS ==> final(self)@ == old(
                self,
            )@.written_in_place(text.spec_bytes()),
    {
        self.print_bytes(text.as_bytes());
    }

    /// Writes `text` and ends the line: the cursor goes to the first column
    /// of the next row, and if that row is below the grid the screen scrolls
    /// and the cursor moves up with it.
    pub fn print_ln(&mut self, text: &str)
        ensures
            final(self)@ == old(self)@.line_printed(text.spec_bytes()),
            final(self)@ == old(self)@.page_shown(text.spec_bytes()).line_ended(),
            final(self)@.wf(),
            final(self)@.column() == 0,
    {
        self.print(text);
        proof {
            use_type_invariant(&*self);
        }
        let next: usize = (self.cursor / WIDTH + 1) * WIDTH;
        if next >= CELLS {
            self.scroll_screen();
            self.cursor = next - WIDTH;
        } else {
            self.cursor = next;
        }
    }
}

} // verus!
