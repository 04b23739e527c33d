use vstd::prelude::*;

verus! {

/// Failures of the code buffers.
#[derive(Debug, Clone, Copy, PartialEq, Eq, Structural)]
pub enum BufferError {
    /// The requested region cannot be provided.
    AllocationError,
    /// An emission would go past the end of the region.
    BufferOverflow,
}

/// Failures of the instruction cache.
#[derive(Debug, Clone, Copy, PartialEq, Eq, Structural)]
pub enum CacheError {
    /// No template is stored under the name.
    NotFound,
    /// The template does not hold its marker bytes.
    MarkerNotFound,
    /// The template was stored without a marker.
    InvalidOperationForEntry,
}

} // verus!
