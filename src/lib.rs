//! A small modal text editor engine: a line buffer with a clamped cursor and
//! a keystroke interpreter for its Normal, Normal-prefix, Insert and Command
//! modes. Terminal and file I/O are left to the caller.

use vstd::prelude::*;

pub mod buffer;
pub mod dispatch;
pub mod screen;
pub mod text;

verus! {

} // verus!
