//! The model of a console: a grid of cells and a cursor, and what each
//! operation of the console makes of them.
//!
//! The cursor is the number of the next cell to be written. It may stand one
//! past the last cell: the grid is then full, and the next glyph scrolls the
//! screen before it is written. Scrolling is never done ahead of need.

use crate::grid::{blank, row_of, Cell, BLANK_GLYPH, CELLS, DEFAULT_ATTRIBUTE, HEIGHT, WIDTH};
use vstd::prelude::*;

verus! {

/// What a console shows and where it will write next.
pub struct Screen {
    /// The cells, row by row.
    pub cells: Seq<Cell>,
    /// The number of the next cell to be written.
    pub cursor: nat,
}

/// How many times printing `len` glyphs from cursor `cursor` runs off the end
/// of the grid: once when the text passes the last cell, and once more for
/// every full row written after that.
pub open spec fn rows_overflowed(cursor: nat, len: nat) -> nat {
    if cursor + len <= CELLS {
        0
    } else {
        ((cursor + len - CELLS + WIDTH - 1) / (WIDTH as int)) as nat
    }
}

impl Screen {
    /// The grid is complete and the cursor is on it, or one past its end.
    pub open spec fn wf(self) -> bool {
        &&& self.cells.len() == CELLS
        &&& self.cursor <= CELLS
    }

    /// The column that the cursor stands in.
    pub open spec fn column(self) -> nat {
        self.cursor % (WIDTH as nat)
    }

    /// The empty screen: every cell a space with the given attribute, the
    /// cursor at the top left.
    pub open spec fn cleared(attribute: u8) -> Screen {
        Screen {
            cells: Seq::new(CELLS as nat, |index: int| Cell { glyph: BLANK_GLYPH, attribute }),
            cursor: 0,
        }
    }

    /// Every row moved up by one, the top row gone, the bottom row blank.
    /// The cursor stays where it is.
    pub open spec fn scrolled(self) -> Screen {
        Screen {
            cells: self.cells.skip(WIDTH as int) + Seq::new(WIDTH as nat, |column: int| blank()),
            cursor: self.cursor,
        }
    }

    /// Room for one more glyph: a cursor past the last cell scrolls the screen
    /// and moves up by one row with it.
    pub open spec fn made_room(self) -> Screen {
        if self.cursor >= CELLS {
            Screen { cells: self.scrolled().cells, cursor: (self.cursor - WIDTH) as nat }
        } else {
            self
        }
    }

    /// One glyph written at the cursor, in the default attribute, after
    /// making room for it; the cursor moves one cell on.
    pub open spec fn put(self, glyph: u8) -> Screen {
        let at = self.made_room();
        Screen {
            cells: at.cells.update(at.cursor as int, Cell { glyph, attribute: DEFAULT_ATTRIBUTE }),
            cursor: at.cursor + 1,
        }
    }

    /// The glyphs of `text` written one after the other.
    pub open spec fn printed(self, text: Seq<u8>) -> Screen
        decreases text.len(),
    {
        if text.len() == 0 {
            self
        } else {
            self.printed(text.drop_last()).put(text.last())
        }
    }

    /// `text` laid over the cells from the cursor on, each glyph in the
    /// default attribute, and the cursor moved past it. This is what printing
    /// comes to while the text fits in the grid.
    pub open spec fn written_in_place(self, text: Seq<u8>) -> Screen {
        Screen {
            cells: Seq::new(
                self.cells.len(),
                |index: int|
                    if self.cursor <= index < self.cursor + text.len() {
                        Cell { glyph: text[index - self.cursor], attribute: DEFAULT_ATTRIBUTE }
                    } else {
                        self.cells[index]
                    },
            ),
            cursor: self.cursor + text.len(),
        }
    }

    /// What stands at `position` of an endless page once `text` has been
    /// written on it from the cursor on. The page starts out as the screen,
    /// with nothing but blank rows below it.
    pub open spec fn page_cell(self, text: Seq<u8>, position: int) -> Cell {
        if self.cursor <= position < self.cursor + text.len() {
            Cell { glyph: text[position - self.cursor], attribute: DEFAULT_ATTRIBUTE }
        } else if position < CELLS {
            self.cells[position]
        } else {
            blank()
        }
    }

    /// The part of that page which the screen shows after `text`: its window
    /// has moved down by one row for each time the text ran off the end of the
    /// grid, and the cursor stands behind the last glyph.
    pub open spec fn page_shown(self, text: Seq<u8>) -> Screen {
        let gone: int = rows_overflowed(self.cursor, text.len()) * WIDTH;
        Screen {
            cells: Seq::new(CELLS as nat, |index: int| self.page_cell(text, index + gone)),
            cursor: (self.cursor + text.len() - gone) as nat,
        }
    }

    /// How many glyphs of `text` scroll the screen before they are written.
    pub open spec fn scrolls(self, text: Seq<u8>) -> nat
        decreases text.len(),
    {
        if text.len() == 0 {
            0
        } else if self.printed(text.drop_last()).cursor >= CELLS {
            self.scrolls(text.drop_last()) + 1
        } else {
            self.scrolls(text.drop_last())
        }
    }

    /// The cursor moved to the start of the next row, with room made for the
    /// glyph that will be written there.
    pub open spec fn line_ended(self) -> Screen {
        Screen {
            cells: self.cells,
            cursor: (self.cursor / (WIDTH as nat) + 1) * (WIDTH as nat),
        }.made_room()
    }

    /// `text` written, and the line ended after it.
    pub open spec fn line_printed(self, text: Seq<u8>) -> Screen {
        self.printed(text).line_ended()
    }

    /// Scrolling moves the content of each row into the row above it and
    /// leaves the bottom row blank; what the top row held is gone.
    pub proof fn lemma_scrolled_rows(self)
        requires
            self.cells.len() == CELLS,
        ensures
            self.scrolled().cells.len() == CELLS,
            self.scrolled().cursor == self.cursor,
            forall|row: int|
                0 <= row < HEIGHT - 1 ==> #[trigger] row_of(self.scrolled().cells, row) == row_of(
                    self.cells,
                    row + 1,
                ),
            row_of(self.scrolled().cells, HEIGHT - 1) == Seq::new(
                WIDTH as nat,
                |column: int| blank(),
            ),
    {
        let after = self.scrolled().cells;
        assert forall|row: int| 0 <= row < HEIGHT - 1 implies #[trigger] row_of(after, row)
            == row_of(self.cells, row + 1) by {
            assert(row_of(after, row) =~= row_of(self.cells, row + 1));
        }
        assert(row_of(after, HEIGHT - 1) =~= Seq::new(WIDTH as nat, |column: int| blank()));
    }

    /// Printing keeps a console well formed, whatever the text: the grid stays
    /// complete, and the cursor stays on it or one past its end.
    pub proof fn lemma_printed_wf(self, text: Seq<u8>)
        requires
            self.wf(),
        ensures
            self.printed(text).wf(),
        decreases text.len(),
    {
        if text.len() > 0 {
            self.lemma_printed_wf(text.drop_last());
        }
    }

    /// Text that fits in the cells from the cursor to the end of the grid is
    /// written there in order, glyph by glyph, without scrolling: the cursor
    /// moves on by the length of the text, and no other cell changes.
    pub proof fn lemma_printed_within_grid(self, text: Seq<u8>)
        requires
            self.wf(),
            self.cursor + text.len() <= CELLS,
        ensures
            self.printed(text) == self.written_in_place(text),
            self.scrolls(text) == 0,
        decreases text.len(),
    {
        if text.len() > 0 {
            let front = text.drop_last();
            self.lemma_printed_within_grid(front);
            assert(self.printed(front).made_room() == self.printed(front));
        }
        assert(self.printed(text).cells =~= self.written_in_place(text).cells);
    }

    /// Printing scrolls once each time the text runs off the end of the grid,
    /// and each scroll takes the cursor up by one row.
    pub proof fn lemma_printed_scrolls(self, text: Seq<u8>)
        requires
            self.wf(),
        ensures
            self.scrolls(text) == rows_overflowed(self.cursor, text.len()),
            self.printed(text).cursor == self.cursor + text.len() - WIDTH * self.scrolls(text),
        decreases text.len(),
    {
        if text.len() > 0 {
            let front = text.drop_last();
            self.lemma_printed_scrolls(front);
            self.lemma_printed_wf(front);
        }
    }

    /// Printing is writing on an endless page of which the screen shows the
    /// lowest rows that the text has reached: rows that the text pushed out at
    /// the top are gone, rows that came in at the bottom are blank but for
    /// the text on them.
    pub proof fn lemma_printed_shows_page(self, text: Seq<u8>)
        requires
            self.wf(),
        ensures
            self.printed(text) == self.page_shown(text),
        decreases text.len(),
    {
        if text.len() > 0 {
            let front = text.drop_last();
            self.lemma_printed_shows_page(front);
            self.lemma_printed_scrolls(front);
            self.lemma_printed_scrolls(text);
            let before = self.printed(front);
            let gone: int = rows_overflowed(self.cursor, text.len()) * WIDTH;
            let gone_before: int = rows_overflowed(self.cursor, front.len()) * WIDTH;
            assert forall|index: int| 0 <= index < CELLS implies self.printed(text).cells[index]
                == self.page_cell(text, index + gone) by {
                if before.cursor >= CELLS {
                    assert(gone == gone_before + WIDTH);
                    if index < CELLS - WIDTH {
                        assert(before.cells[index + WIDTH] == self.page_cell(
                            front,
                            index + WIDTH + gone_before,
                        ));
                    }
                } else {
                    assert(gone == gone_before);
                    assert(before.cells[index] == self.page_cell(front, index + gone_before));
                }
            }
        }
        assert(self.printed(text).cells =~= self.page_shown(text).cells);
    }

    /// Ending a line leaves the cursor in the first column, on a well-formed
    /// console; so does printing a line, whatever the text.
    pub proof fn lemma_line_ended(self, text: Seq<u8>)
        requires
            self.wf(),
        ensures
            self.line_ended().wf(),
            self.line_ended().column() == 0,
            self.line_printed(text).wf(),
            self.line_printed(text).column() == 0,
    {
        self.lemma_printed_wf(text);
    }
}

} // verus!
