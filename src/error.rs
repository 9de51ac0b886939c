//! Errors raised by the display core.
use vstd::prelude::*;

verus! {

/// The one error of the display core: a pixel buffer shorter than its image.
#[derive(Clone, Copy, Debug, PartialEq, Eq, Structural)]
pub enum ViewError {
    /// The buffer holds `actual` bytes where `expected` (`width * height * 4`) are needed.
    ImageDataMismatch { expected: usize, actual: usize },
}

} // verus!
