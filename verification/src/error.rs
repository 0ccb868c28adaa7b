use vstd::prelude::*;

verus! {

/// Failure taxonomy of the fusion core.
///
/// `ConfigError` is fatal at startup (bad calibration, unrecognized
/// handshake token). `IpcError` marks a framing violation or a broken
/// stream. `CommError` signals that the paired worker loop has exited.
/// `GeometryError` is recoverable per subject (ill-conditioned
/// triangulation). `ModelUninit` is returned for a registry lookup of a
/// role that has not registered yet.
#[derive(Debug, Clone, Copy, PartialEq, Eq, Structural)]
pub enum GError {
    ConfigError,
    IpcError,
    CommError,
    GeometryError,
    ModelUninit,
}

impl GError {
    /// A short human-readable label for the error.
    pub fn describe(&self) -> (r: &'static str)
        ensures
            *self == GError::ConfigError ==> r@ == "invalid config"@,
            *self == GError::IpcError ==> r@ == "ipc failure"@,
            *self == GError::CommError ==> r@ == "internal queue closed"@,
            *self == GError::GeometryError ==> r@ == "ill-conditioned geometry"@,
            *self == GError::ModelUninit ==> r@ == "model not initialized"@,
    {
        match self {
            GError::ConfigError => "invalid config",
            GError::IpcError => "ipc failure",
            GError::CommError => "internal queue closed",
            GError::GeometryError => "ill-conditioned geometry",
            GError::ModelUninit => "model not initialized",
        }
    }
}

} // verus!
