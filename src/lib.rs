//! Readiness checks for firmware hand-off data.
//!
//! The library takes a decoded snapshot of boot memory descriptors and
//! firmware-volume contents, runs a fixed battery of rules over it and
//! collects the violations in a report grouped by kind.
pub mod bump_allocator;
pub mod errors;
pub mod findings;
pub mod fv;
pub mod fv_validator;
pub mod hob;
pub mod hob_validator;
pub mod interval;
pub mod validate;
pub mod validation_kind;
pub mod validation_report;
pub mod validator;

pub use hob::{
    is_io, HobListSerDe, HobSerDe, MemAllocDescriptorSerDe, ResourceDescriptorSerDe,
    EFI_RESOURCE_IO, EFI_RESOURCE_IO_RESERVED, MEMORY_UC, MEMORY_UCE, MEMORY_WB, MEMORY_WC,
    MEMORY_WP, MEMORY_WT, PAGE_ZERO_END, UEFI_PAGE_SIZE,
};
pub use interval::{merge_intervals, Interval, Span};
pub use fv::{
    FirmwareFileSerDe, FirmwareSectionSerDe, FirmwareVolumeSerDe, PeHeaderInfo,
    COFF_MACHINE_ARM64, FV_ARM64_RUNTIME_DRIVER_ALIGNMENT, IMAGE_SUBSYSTEM_EFI_RUNTIME_DRIVER,
};
pub use validation_kind::{
    first_mismatch, FvValidationKind, HobValidationKind, Mismatch, PrettyPrintTable, ValidationKind,
    KIND_COUNT,
};
pub use validation_report::{group_of, groups_below, ValidationReport};
pub use errors::{map_error, spec_exit_code, PlatformError, ValidationAppError};
pub use hob_validator::{HobValidator, ValidationResult};
pub use fv_validator::{FvValidator, APRIORI_FILE_NAME, PEI_APRIORI_FILE_NAME};
pub use validator::Validator;
pub use validate::{validate_capture, verdict, CommandLine, DxeReadinessCaptureSerDe};
pub use bump_allocator::{align_up, BumpAllocator};
