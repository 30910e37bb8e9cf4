//! The common shape of a rule set.
use vstd::prelude::*;

use crate::errors::ValidationAppError;
use crate::hob_validator::{reports, ValidationResult};
use crate::validation_kind::ValidationKind;

verus! {

/// A set of rules run over some records.
pub trait Validator {
    /// The violations the rules find, or why they could not run.
    spec fn spec_outcome(&self) -> Result<Seq<ValidationKind>, ValidationAppError>;

    /// Runs the rules.
    fn validate(&self) -> (r: ValidationResult)
        ensures
            match self.spec_outcome() {
                Ok(v) => reports(r, v),
                Err(e) => r == Err::<crate::validation_report::ValidationReport, _>(e),
            },
    ;
}

} // verus!
