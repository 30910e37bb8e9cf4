//! Errors of a validation run.
use vstd::prelude::*;

use crate::hob::ResourceDescriptorSerDe;

verus! {

/// What can keep a validation run from producing a clean result.
#[derive(Clone, Debug, PartialEq, Eq)]
pub enum ValidationAppError {
    /// A command-line argument is missing or wrong; holds its name.
    InvalidCommandLine(String),
    /// The snapshot file was not found; holds the file name.
    JSONFileNotFound(String),
    /// The snapshot file could not be read as text; holds the file name and
    /// the reason.
    JSONFileContentError(String, String),
    /// The snapshot file could not be decoded; holds the file name and the
    /// reason.
    JSONSerializationFailed(String, String),
    /// The snapshot holds no hand-off blocks.
    EmptyHobList,
    /// The snapshot holds no firmware volumes.
    EmptyFvList,
    /// Rules were violated; holds the number of violations.
    ValidationErrors(u32),
}

/// Conflicts between descriptors, as whole findings of the memory rules.
#[derive(Clone, Debug, PartialEq, Eq)]
pub enum PlatformError {
    MemoryRangeOverlap { overlaps: Vec<(ResourceDescriptorSerDe, ResourceDescriptorSerDe)> },
    InconsistentMemoryAttributes {
        conflicting_intervals: Vec<(ResourceDescriptorSerDe, ResourceDescriptorSerDe)>,
    },
    InconsistentRanges { unmatched_v1: Vec<ResourceDescriptorSerDe> },
    MissingMemoryProtections,
}

/// The process exit code for an error: the number of violations, or -1.
pub open spec fn spec_exit_code(err: ValidationAppError) -> i32 {
    match err {
        ValidationAppError::ValidationErrors(count) => count as i32,
        _ => -1i32,
    }
}

/// Maps an error to the process exit code: the number of violations for
/// `ValidationErrors`, -1 for every other error.
pub fn map_error(err: &ValidationAppError) -> (r: i32)
    ensures
        r == spec_exit_code(*err),
{
    match err {
        ValidationAppError::ValidationErrors(count) => *count as i32,
        _ => -1,
    }
}

} // verus!
