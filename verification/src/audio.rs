//! Audio input selection.

use vstd::prelude::*;

verus! {

/// Which device to open and at what sample rate.
#[derive(Clone, Debug)]
pub struct AudioInputConfig {
    /// Device name, or `None` for the system default.
    pub device: Option<String>,
    /// Desired sample rate (Hz). The opened stream may use a different rate if
    /// the device does not support this one.
    pub sample_rate: u32,
}

} // verus!
