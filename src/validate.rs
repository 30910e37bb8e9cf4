//! A validation run over a whole snapshot.
use vstd::prelude::*;

use crate::errors::ValidationAppError;
use crate::fv::FirmwareVolumeSerDe;
use crate::fv_validator::{fv_violations, FvValidator};
use crate::hob::HobSerDe;
use crate::hob_validator::{hob_violations, reports, HobValidator, ValidationResult};
use crate::validation_report::ValidationReport;
use crate::validator::Validator;

verus! {

/// A decoded snapshot: the hand-off blocks and the firmware volumes.
#[derive(Clone, Debug, PartialEq, Eq)]
pub struct DxeReadinessCaptureSerDe {
    pub hob_list: Vec<HobSerDe>,
    pub fv_list: Vec<FirmwareVolumeSerDe>,
}

/// The command line of the validator: the path of the snapshot file.
#[derive(Clone, Debug, Default, PartialEq, Eq)]
pub struct CommandLine {
    pub filename: Option<String>,
}

/// Runs the hand-off block rules, then the firmware-volume rules, on a
/// snapshot. An empty block list or an empty volume list is refused, the
/// block list first.
pub fn validate_capture(data: &DxeReadinessCaptureSerDe) -> (r: ValidationResult)
    ensures
        data.hob_list@.len() == 0 ==> r == Err::<ValidationReport, _>(
            ValidationAppError::EmptyHobList,
        ),
        data.hob_list@.len() > 0 && data.fv_list@.len() == 0 ==> r == Err::<ValidationReport, _>(
            ValidationAppError::EmptyFvList,
        ),
        data.hob_list@.len() > 0 && data.fv_list@.len() > 0 ==> reports(
            r,
            hob_violations(data.hob_list@) + fv_violations(data.fv_list@),
        ),
{
    let mut validation_report = ValidationReport::new();
    let hob_validator = HobValidator::new(&data.hob_list);
    validation_report.append_report(hob_validator.validate()?);
    let fv_validator = FvValidator::new(&data.fv_list);
    validation_report.append_report(fv_validator.validate()?);
    Ok(validation_report)
}

/// The number of violations as a 32-bit count, saturating.
pub open spec fn spec_count(n: nat) -> u32 {
    if n <= u32::MAX {
        n as u32
    } else {
        u32::MAX
    }
}

/// The verdict on a report: success when it holds no violation, else the
/// number of violations.
pub fn verdict(validation_report: &ValidationReport) -> (r: Result<(), ValidationAppError>)
    ensures
        validation_report@.len() == 0 ==> r is Ok,
        validation_report@.len() > 0 ==> r == Err::<(), _>(
            ValidationAppError::ValidationErrors(spec_count(validation_report@.len())),
        ),
{
    let n = validation_report.violation_count();
    if n == 0 {
        Ok(())
    } else if n <= u32::MAX as usize {
        Err(ValidationAppError::ValidationErrors(n as u32))
    } else {
        Err(ValidationAppError::ValidationErrors(u32::MAX))
    }
}

} // verus!
