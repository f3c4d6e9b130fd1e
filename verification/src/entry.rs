//! The two sequences that a kernel runs on its console: the greeting at
//! start-up, and the report of a fatal error.
//!
//! Both only write. Neither allocates, neither can fail, and the report makes
//! no demand on where the cursor was left by whatever ran before it. What
//! comes after either of them, parking the processor, is the caller's part.

use crate::format::{digits_low_first, u32_to_str, MAX_DIGITS};
use crate::grid::{blank, Cell, CELLS, DEFAULT_ATTRIBUTE, WIDTH};
use crate::screen::Screen;
use crate::writer::Writer;
use vstd::prelude::*;
use vstd::string::StringSliceAdditionalSpecFns;

verus! {

/// Where in the source a fatal error was raised.
#[derive(Clone, Copy, Debug)]
pub struct Location<'a> {
    /// The name of the source file.
    pub file: &'a str,
    /// The line in that file.
    pub line: u32,
}

/// The screen after start-up: blank in the default attribute, then the
/// greeting on a line of its own.
pub open spec fn started(greeting: Seq<u8>) -> Screen {
    Screen::cleared(DEFAULT_ATTRIBUTE).line_printed(greeting)
}

/// The screen with a greeting shorter than a row on its first row and nothing
/// else on it, the cursor at the start of the second row.
pub open spec fn greeted(greeting: Seq<u8>) -> Screen {
    Screen {
        cells: Seq::new(
            CELLS as nat,
            |index: int|
                if index < greeting.len() {
                    Cell { glyph: greeting[index], attribute: DEFAULT_ATTRIBUTE }
                } else {
                    blank()
                },
        ),
        cursor: WIDTH as nat,
    }
}

/// Start-up with a greeting shorter than a row leaves the greeting on the
/// first row, every other cell blank, and the cursor at the start of the
/// second row.
pub proof fn lemma_started_short(greeting: Seq<u8>)
    requires
        greeting.len() < WIDTH,
    ensures
        started(greeting) == greeted(greeting),
{
    let blank_screen = Screen::cleared(DEFAULT_ATTRIBUTE);
    blank_screen.lemma_printed_within_grid(greeting);
    assert(started(greeting).cells =~= greeted(greeting).cells);
}

/// The screen after the report of a fatal error. The banner is written from
/// the cursor on and its line ended. Where the location is known there follow
/// `At:`, the file name, and `Line: ` with the digits of the line number as
/// the formatter gives them, least significant first, each on its own line.
pub open spec fn reported(screen: Screen, location: Option<Location>) -> Screen {
    let banner = screen.line_printed("KERNEL PANIC!".spec_bytes());
    match location {
        None => banner,
        Some(at) => banner.line_printed("At:".spec_bytes()).line_printed(
            at.file.spec_bytes(),
        ).printed("Line: ".spec_bytes()).printed(digits_low_first(at.line as nat)).line_printed(
            Seq::empty(),
        ),
    }
}

/// Brings the console up: clears the screen to white on black and prints
/// `greeting` on the first line.
pub fn start(console: &mut Writer<'_>, greeting: &str)
    ensures
        final(console)@ == started(greeting.spec_bytes()),
        final(console)@.wf(),
        final(console)@.column() == 0,
        greeting.spec_bytes().len() < WIDTH ==> final(console)@ == greeted(greeting.spec_bytes()),
{
    console.clear_screen(DEFAULT_ATTRIBUTE);
    console.print_ln(greeting);
    proof {
        if greeting.spec_bytes().len() < WIDTH {
            lemma_started_short(greeting.spec_bytes());
        }
    }
}

/// Reports a fatal error on the console, from wherever the cursor stands.
pub fn panic(console: &mut Writer<'_>, location: Option<Location<'_>>)
    ensures
        final(console)@ == reported(old(console)@, location),
        final(console)@.wf(),
        final(console)@.column() == 0,
{
    console.print_ln("KERNEL PANIC!");
    match location {
        None => {},
        Some(at) => {
            console.print_ln("At:");
            console.print_ln(at.file);
            let mut buffer = [0u8; MAX_DIGITS];
            let digits = u32_to_str(at.line, &mut buffer);
            console.print("Line: ");
            console.print_bytes(digits);
            proof {
                reveal_strlit("");
                vstd::string::is_ascii_spec_bytes("");
                assert("".spec_bytes() =~= Seq::<u8>::empty());
            }
            console.print_ln("");
        },
    }
}

} // verus!
