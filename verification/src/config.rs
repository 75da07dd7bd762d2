//! Tuner configuration types.

use vstd::prelude::*;

verus! {

/// Analysis window applied before the FFT.
#[derive(Clone, Copy, Debug, PartialEq, Eq)]
pub enum WindowType {
    /// No window: every sample is kept as is (all-ones weights).
    Rectangular,
    Hanning,
    Hamming,
}

} // verus!
