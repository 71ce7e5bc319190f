//! The error taxonomy of the crate. Static and policy errors are produced
//! before any subprocess plan is handed out; subprocess failures carry both a
//! classification and the raw diagnostic output, so the operator keeps the
//! ground truth.

use vstd::prelude::*;

verus! {

/// The classification of a failed rebuild, decided by ordered substring
/// heuristics over the tool's diagnostic output.
#[derive(Clone, Copy, Debug, PartialEq, Eq, Structural)]
pub enum FailureClass {
    PermissionDenied,
    BuildFailure,
    OutOfMemory,
    Generic,
}

/// Every failure the crate reports.
#[derive(Debug)]
pub enum CoreError {
    /// No configuration file was located.
    NotFound,
    /// The filesystem or a tool reported insufficient rights.
    PermissionDenied,
    /// Validation failed; carries the error list.
    InvalidConfiguration(Vec<Vec<u8>>),
    /// A caller-supplied operation name is not in the fixed set; carries the
    /// rejected name.
    InvalidOperation(Vec<u8>),
    /// A caller-supplied identifier failed static validation.
    InvalidIdentifier,
    /// Policy refusal: the unit is critical to system stability.
    CriticalServiceProtected,
    /// The unit manager reports that the unit does not exist.
    ServiceNotFound,
    /// A removal was requested for a package that is not installed; carries
    /// the package name.
    PackageNotInstalled(Vec<u8>),
    /// The executable could not be launched.
    SpawnFailed,
    /// A tool exited nonzero; carries the classification and raw diagnostics.
    SubprocessFailed { class: FailureClass, stderr: Vec<u8> },
    /// Creating the configuration backup failed.
    BackupFailed,
    /// Tool output was not in the expected shape.
    ParseFailed,
}

impl CoreError {
    /// A short fixed description of the failure kind.
    pub fn describe(&self) -> (r: &'static str)
        ensures
            r@ == match self {
                CoreError::NotFound => "no configuration file found"@,
                CoreError::PermissionDenied => "permission denied"@,
                CoreError::InvalidConfiguration(_) => "configuration is invalid"@,
                CoreError::InvalidOperation(_) => "invalid operation"@,
                CoreError::InvalidIdentifier => "invalid identifier"@,
                CoreError::CriticalServiceProtected => (
                "service is critical to system operation"@
                ),
                CoreError::ServiceNotFound => "service not found"@,
                CoreError::PackageNotInstalled(_) => "package is not installed"@,
                CoreError::SpawnFailed => "failed to launch tool"@,
                CoreError::SubprocessFailed { .. } => "tool reported failure"@,
                CoreError::BackupFailed => "backup failed"@,
                CoreError::ParseFailed => "unexpected tool output"@,
            },
    {
        match self {
            CoreError::NotFound => "no configuration file found",
            CoreError::PermissionDenied => "permission denied",
            CoreError::InvalidConfiguration(_) => "configuration is invalid",
            CoreError::InvalidOperation(_) => "invalid operation",
            CoreError::InvalidIdentifier => "invalid identifier",
            CoreError::CriticalServiceProtected => "service is critical to system operation",
            CoreError::ServiceNotFound => "service not found",
            CoreError::PackageNotInstalled(_) => "package is not installed",
            CoreError::SpawnFailed => "failed to launch tool",
            CoreError::SubprocessFailed { .. } => "tool reported failure",
            CoreError::BackupFailed => "backup failed",
            CoreError::ParseFailed => "unexpected tool output",
        }
    }
}

} // verus!
