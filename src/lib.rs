//! The exact parts of a CPU ray tracer: the pixel canvas and its export as
//! a plain-text pixmap, the index structure of square transform matrices,
//! the cell parity that alternating patterns are chosen by, the depth
//! budget that ends recursive reflection, and the layout of a clock face.
//! The floating-point geometry and shading are built on top of these.
use vstd::prelude::*;

pub mod canvas;
pub mod clock;
pub mod matrix;
pub mod pattern;
pub mod reflection;
pub mod report;
pub mod text;

verus! {

/// Does nothing: a fixed symbol for programs that link the library.
pub fn lib_entry() {
}

} // verus!
