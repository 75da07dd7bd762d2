//! Analysis windows.

use vstd::prelude::*;

verus! {

/// Analysis window applied to a frame before the FFT.
#[derive(Clone, Copy, Debug, PartialEq, Eq)]
pub enum WindowType {
    /// No window: every sample is kept as is (all-ones weights).
    Rectangular,
    Hanning,
    Hamming,
}

} // verus!
