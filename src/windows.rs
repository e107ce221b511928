//! Windows: no source of processor information is read on this platform.
use vstd::prelude::*;
use crate::record::{CpuInfo, ExtractionError};

verus! {

/// Windows CPU information.
pub struct WindowsCpuInfo {
    pub info: CpuInfo,
}

impl WindowsCpuInfo {
    /// No Windows source is queried, so no processor is ever named: the
    /// result is always `InsufficientData`.
    pub fn new() -> (r: Result<WindowsCpuInfo, ExtractionError>)
        ensures
            r matches Err(ExtractionError::InsufficientData),
    {
        Err(ExtractionError::InsufficientData)
    }
}

} // verus!
