//! How the limits and features of the graphics device are chosen.

use vstd::prelude::*;

verus! {

/// Configures the priority used when automatically configuring the features
/// and limits of the graphics device.
#[derive(Clone, Copy, Debug, PartialEq, Eq)]
pub enum WgpuSettingsPriority {
    /// WebGPU default features and limits.
    Compatibility,
    /// The maximum supported features and limits of the adapter and backend.
    Functionality,
    /// WebGPU default limits plus additional constraints in order to be
    /// compatible with WebGL2.
    WebGL2,
}

} // verus!
