//! A text console over a VGA text-mode framebuffer, for code that runs on bare
//! metal without a heap.
//!
//! The framebuffer is a fixed region of bytes that the hardware shows as a grid
//! of character cells. The hardware keeps no cursor and does no wrapping or
//! scrolling: all of that is bookkeeping done here, and all of it is verified.
//!
//! * [`grid`] lays the cells out over the bytes of the region.
//! * [`screen`] is the mathematical model of a console: what clearing,
//!   scrolling and printing do to the cells and to the cursor.
//! * [`writer`] is the console itself, borrowed over the region.
//! * [`format`] renders an integer into a caller's buffer.
//! * [`entry`] holds the two sequences that a kernel runs on the console: the
//!   one at start-up and the one that reports a fatal error.

pub mod grid;
pub mod screen;
pub mod writer;
pub mod format;
pub mod entry;
