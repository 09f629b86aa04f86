//! The kinds of failure a backend can meet.

use vstd::prelude::*;

verus! {

/// Why an operation on a backend did not succeed.
#[derive(Debug, Clone, Copy, PartialEq, Eq, Structural)]
pub enum DiscoveryError {
    /// The backend could not be constructed. Fatal for that backend only.
    InitializationError,
    /// A start, stop or broadcast call failed. The caller may try again.
    OperationError,
    /// The operation needs a capability that the backend does not declare.
    /// A programming error: reported at once and never retried.
    CapabilityUnsupported,
    /// A lifecycle operation took longer than its bound. The backend is
    /// disabled.
    Timeout,
    /// The backend's event sequence ended while it was active. Treated as
    /// an implicit stop.
    StreamClosed,
}

impl DiscoveryError {
    /// Whether the failed operation may be attempted again.
    pub open spec fn retryable(self) -> bool {
        self is OperationError
    }

    /// Whether the failure takes the backend out of service for good.
    pub open spec fn disabling(self) -> bool {
        self is Timeout || self is StreamClosed
    }

    /// Executable form of [`DiscoveryError::retryable`].
    pub fn is_retryable(&self) -> (r: bool)
        ensures
            r == self.retryable(),
    {
        match self {
            DiscoveryError::OperationError => true,
            _ => false,
        }
    }

    /// Executable form of [`DiscoveryError::disabling`].
    pub fn disables_backend(&self) -> (r: bool)
        ensures
            r == self.disabling(),
    {
        match self {
            DiscoveryError::Timeout => true,
            DiscoveryError::StreamClosed => true,
            _ => false,
        }
    }
}

} // verus!
