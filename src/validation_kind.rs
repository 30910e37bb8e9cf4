//! The kinds of violation that the rules report, with the evidence each
//! carries and the fixed texts that go with each kind.
use vstd::prelude::*;
use vstd::string::StringExecFns;

use crate::fv::FirmwareSectionSerDe;
use crate::hob::{MemAllocDescriptorSerDe, ResourceDescriptorSerDe};

verus! {

/// Number of kinds of violation.
pub const KIND_COUNT: usize = 12;

/// A violation of a hand-off block rule, with copies of the offending records.
#[derive(Clone, Debug, PartialEq, Eq)]
pub enum HobValidationKind {
    /// Overlapping descriptors of the two generations disagree on type, attribute or owner.
    InconsistentMemoryAttributes { hob1: ResourceDescriptorSerDe, hob2: ResourceDescriptorSerDe },
    /// Two descriptors of one generation and one bucket overlap.
    OverlappingMemoryRanges { hob1: ResourceDescriptorSerDe, hob2: ResourceDescriptorSerDe },
    /// A memory allocation starts inside page zero.
    PageZeroMemoryDescribed { alloc_desc: MemAllocDescriptorSerDe },
    /// A first-generation range is not covered by second-generation ranges.
    V1MemoryRangeNotContainedInV2 { hob1: ResourceDescriptorSerDe },
    /// A second-generation descriptor sets the deprecated UCE attribute.
    V2ContainsUceAttribute { hob1: ResourceDescriptorSerDe, attributes: u64 },
    /// A second-generation memory descriptor does not set exactly one cacheability attribute.
    V2MissingValidCacheabilityAttribute { hob1: ResourceDescriptorSerDe, attributes: u64 },
    /// A second-generation I/O descriptor sets attributes.
    V2InvalidIoCacheabilityAttributes { hob1: ResourceDescriptorSerDe, attributes: u64 },
}

/// A violation of a firmware-volume rule, with copies of what identifies the
/// offending file or section.
#[derive(Clone, Debug, PartialEq, Eq)]
pub enum FvValidationKind {
    /// A file is a combined driver.
    CombinedDriversPresent { fv_name: String, file_name: String, file_type: String },
    /// A section of an eligible file is LZMA compressed.
    LzmaCompressedSections { fv_name: String, file_name: String, section: FirmwareSectionSerDe },
    /// A file is an a priori dispatch list.
    ProhibitedAprioriFile { fv_name: String, file_name: String },
    /// A file is a traditional management-mode module.
    UsesTraditionalSmm { fv_name: String, file_name: String, file_type: String },
    /// An image section of an eligible file has a bad section alignment.
    InvalidSectionAlignment { fv_name: String, file_name: String, section: FirmwareSectionSerDe, required_alignment: usize },
}

/// The field that a pair of descriptors is reported to differ on: the owner
/// first, then the attribute, then the type.
#[derive(Clone, Copy, Debug, PartialEq, Eq, Structural)]
pub enum Mismatch {
    Owner,
    Attribute,
    Type,
    NoMismatch,
}

pub open spec fn spec_first_mismatch(a: ResourceDescriptorSerDe, b: ResourceDescriptorSerDe) -> Mismatch {
    if a.owner@ != b.owner@ {
        Mismatch::Owner
    } else if a.resource_attribute != b.resource_attribute {
        Mismatch::Attribute
    } else if a.resource_type != b.resource_type {
        Mismatch::Type
    } else {
        Mismatch::NoMismatch
    }
}

/// The field that a pair of descriptors is reported to differ on.
pub fn first_mismatch(a: &ResourceDescriptorSerDe, b: &ResourceDescriptorSerDe) -> (r: Mismatch)
    ensures
        r == spec_first_mismatch(*a, *b),
{
    if a.owner != b.owner {
        Mismatch::Owner
    } else if a.resource_attribute != b.resource_attribute {
        Mismatch::Attribute
    } else if a.resource_type != b.resource_type {
        Mismatch::Type
    } else {
        Mismatch::NoMismatch
    }
}

/// A violation of any rule.
#[derive(Clone, Debug, PartialEq, Eq)]
pub enum ValidationKind {
    Hob(HobValidationKind),
    Fv(FvValidationKind),
}

impl ValidationKind {
    /// Position of the kind's name in the alphabetical order of all names:
    /// the report lists its groups in this order.
    pub open spec fn spec_rank(&self) -> nat {
        match self {
            ValidationKind::Hob(hob) => match hob {
                HobValidationKind::InconsistentMemoryAttributes { .. } => 1,
                HobValidationKind::OverlappingMemoryRanges { .. } => 4,
                HobValidationKind::PageZeroMemoryDescribed { .. } => 5,
                HobValidationKind::V1MemoryRangeNotContainedInV2 { .. } => 8,
                HobValidationKind::V2ContainsUceAttribute { .. } => 9,
                HobValidationKind::V2MissingValidCacheabilityAttribute { .. } => 11,
                HobValidationKind::V2InvalidIoCacheabilityAttributes { .. } => 10,
            },
            ValidationKind::Fv(fv) => match fv {
                FvValidationKind::CombinedDriversPresent { .. } => 0,
                FvValidationKind::LzmaCompressedSections { .. } => 3,
                FvValidationKind::ProhibitedAprioriFile { .. } => 6,
                FvValidationKind::UsesTraditionalSmm { .. } => 7,
                FvValidationKind::InvalidSectionAlignment { .. } => 2,
            },
        }
    }

    /// The kind's name, the key that groups violations in a report.
    pub open spec fn spec_name(&self) -> Seq<char> {
        match self {
            ValidationKind::Hob(hob) => match hob {
                HobValidationKind::InconsistentMemoryAttributes { .. } => "InconsistentMemoryAttributes"@,
                HobValidationKind::OverlappingMemoryRanges { .. } => "OverlappingMemoryRanges"@,
                HobValidationKind::PageZeroMemoryDescribed { .. } => "PageZeroMemoryDescribed"@,
                HobValidationKind::V1MemoryRangeNotContainedInV2 { .. } => "V1MemoryRangeNotContainedInV2"@,
                HobValidationKind::V2ContainsUceAttribute { .. } => "V2ContainsUceAttribute"@,
                HobValidationKind::V2MissingValidCacheabilityAttribute { .. } => "V2MissingValidCacheabilityAttribute"@,
                HobValidationKind::V2InvalidIoCacheabilityAttributes { .. } => "V2InvalidIoCacheabilityAttributes"@,
            },
            ValidationKind::Fv(fv) => match fv {
                FvValidationKind::CombinedDriversPresent { .. } => "CombinedDriversPresent"@,
                FvValidationKind::LzmaCompressedSections { .. } => "LzmaCompressedSections"@,
                FvValidationKind::ProhibitedAprioriFile { .. } => "ProhibitedAprioriFile"@,
                FvValidationKind::UsesTraditionalSmm { .. } => "UsesTraditionalSmm"@,
                FvValidationKind::InvalidSectionAlignment { .. } => "InvalidSectionAlignment"@,
            },
        }
    }

    /// One-line summary of the requirement the kind breaks.
    pub open spec fn spec_header(&self) -> Seq<char> {
        match self {
            ValidationKind::Hob(hob) => match hob {
                HobValidationKind::InconsistentMemoryAttributes { .. } => "HOB: Inconsistent Memory Attributes"@,
                HobValidationKind::OverlappingMemoryRanges { .. } => "HOB: Overlapping Memory Ranges"@,
                HobValidationKind::PageZeroMemoryDescribed { .. } => "HOB: Page Zero Memory Described"@,
                HobValidationKind::V1MemoryRangeNotContainedInV2 { .. } => "HOB: V1 Memory Range Not Contained in V2"@,
                HobValidationKind::V2ContainsUceAttribute { .. } => "HOB: V2 Range Contains UCE Attribute"@,
                HobValidationKind::V2MissingValidCacheabilityAttribute { .. } => "HOB: V2 Missing Valid Cacheability Attribute"@,
                HobValidationKind::V2InvalidIoCacheabilityAttributes { .. } => "HOB: V2 Invalid IO Cacheability Attributes"@,
            },
            ValidationKind::Fv(fv) => match fv {
                FvValidationKind::CombinedDriversPresent { .. } => "FV: Combined Drivers Present"@,
                FvValidationKind::LzmaCompressedSections { .. } => "FV: LZMA Compressed Sections Present"@,
                FvValidationKind::ProhibitedAprioriFile { .. } => "FV: Prohibited Apriori File Present"@,
                FvValidationKind::UsesTraditionalSmm { .. } => "FV: Uses Traditional SMM Driver"@,
                FvValidationKind::InvalidSectionAlignment { .. } => "FV: PE Image Invalid Section Alignment"@,
            },
        }
    }

    /// Remediation guidance for the kind.
    pub open spec fn spec_guidance(&self) -> Seq<char> {
        match self {
            ValidationKind::Hob(hob) => match hob {
                HobValidationKind::InconsistentMemoryAttributes { .. } => "   Platforms must producing V1 and V2 HOBs for describing the same range(s) should have consistent memory attributes.\n   \
                                                                              Ref: https://github.com/OpenDevicePartnership/patina/blob/main/docs/src/integrate/patina_requirements.md"@,
                HobValidationKind::OverlappingMemoryRanges { .. } => "   Platforms must produce non-overlapping HOBs by splitting up overlapping HOBs\n   \
                                                                         into multiple HOBs and eliminating duplicates.\n   \
                                                                         Ref: https://github.com/OpenDevicePartnership/patina/blob/main/docs/src/integrate/patina_requirements.md"@,
                HobValidationKind::PageZeroMemoryDescribed { .. } => "   Platforms must not allocate page 0.\n   \
                                                                         Ref: https://github.com/OpenDevicePartnership/patina/blob/main/docs/src/integrate/patina_requirements.md"@,
                HobValidationKind::V1MemoryRangeNotContainedInV2 { .. } => "   All V1 HOB ranges should be described/covered by corresponding V2 HOBs."@,
                HobValidationKind::V2ContainsUceAttribute { .. } => "   V2 HOB contains prohibited EFI_MEMORY_UCE attribute."@,
                HobValidationKind::V2MissingValidCacheabilityAttribute { .. } => "   Platforms must produce Resource Descriptor HOB v2s with a single valid\n   \
                                                                                     cacheability attribute set. These can be the existing Resource Descriptor HOB\n   \
                                                                                     fields with the cacheability attribute set as the only additional field in the\n   \
                                                                                     v2 HOB.\n   \
                                                                                     Ref: https://github.com/OpenDevicePartnership/patina/blob/main/docs/src/integrate/patina_requirements.md"@,
                HobValidationKind::V2InvalidIoCacheabilityAttributes { .. } => "   Platforms must produce Resource Descriptor HOB v2s with no cacheability or memory protection\n   \
                                                                                   attributes set for IO resource types."@,
            },
            ValidationKind::Fv(fv) => match fv {
                FvValidationKind::CombinedDriversPresent { .. } => "   Firmware volume contains prohibited combined drivers. \nBelow file types are prohibited\n- COMBINED_MM_DXE(0x0C)\n- COMBINED_PEIM_DRIVER(0x08).\n   \
                                                                       Ref: https://github.com/OpenDevicePartnership/patina/blob/main/docs/src/integrate/patina_requirements.md"@,
                FvValidationKind::LzmaCompressedSections { .. } => "   Temporarily, LZMA compressed sections that will be decompressed in DXE should use Brotli or TianoCompress.\n   \
                                                                       Tracking: https://github.com/OpenDevicePartnership/patina/issues/517\n   \
                                                                       Ref: https://github.com/OpenDevicePartnership/patina/blob/main/docs/src/integrate/patina_requirements.md"@,
                FvValidationKind::ProhibitedAprioriFile { .. } => "   A Priori sections must be removed and proper driver dispatch must be ensured\n   \
                                                                      using depex statements. Drivers may produce empty protocols solely to ensure\n   \
                                                                      that other drivers can use that protocol as a depex statement, if required.\n   \
                                                                      Platforms may also list drivers in FFSes in the order they should be dispatched,\n   \
                                                                      though it is recommended to rely on depex statements.\n   \
                                                                      Ref: https://github.com/OpenDevicePartnership/patina/blob/main/docs/src/integrate/patina_requirements.md\n   \
                                                                      Ref: https://github.com/OpenDevicePartnership/patina-qemu/pull/40"@,
                FvValidationKind::UsesTraditionalSmm { .. } => "   Platforms must transition to Standalone MM (or not use MM at all, as applicable)\n   \
                                                                   using the provided guidance. All combined modules must be dropped in favor of\n   \
                                                                   single phase modules.\n   \
                                                                   Ref: https://github.com/OpenDevicePartnership/patina/blob/main/docs/src/integrate/patina_requirements.md"@,
                FvValidationKind::InvalidSectionAlignment { .. } => "   All PE images must have section alignment that is a multiple of page size. \n   \
                                                                        This is not a PI spec requirement, but is a Patina requirement.\n    \
                                                                        Platforms should drop unaligned images or re-build images to ensure section alignment is page-aligned.    \n
                                                                        Ref: https://github.com/OpenDevicePartnership/patina/blob/main/docs/src/integrate/patina_requirements.md"@,
            },
        }
    }

    /// Column titles of the kind's table.
    pub open spec fn spec_table_header(&self) -> Seq<Seq<char>> {
        match self {
            ValidationKind::Hob(hob) => match hob {
                HobValidationKind::InconsistentMemoryAttributes { .. } => seq!["#"@, "V1 Hob"@, "V2 Hob"@, "Violation/Resolution"@],
                HobValidationKind::OverlappingMemoryRanges { .. } => seq!["#"@, "Hob 1"@, "Hob 2"@, "Violation/Resolution"@],
                HobValidationKind::PageZeroMemoryDescribed { .. } => seq!["#"@, "Memory Allocation Descriptor"@, "Violation/Resolution"@],
                HobValidationKind::V1MemoryRangeNotContainedInV2 { .. } => seq!["#"@, "V1 Hob"@, "Violation/Resolution"@],
                HobValidationKind::V2ContainsUceAttribute { .. } => seq!["#"@, "V2 Hob"@, "Violation/Resolution"@],
                HobValidationKind::V2MissingValidCacheabilityAttribute { .. } => seq!["#"@, "V2 Hob"@, "Violation/Resolution"@],
                HobValidationKind::V2InvalidIoCacheabilityAttributes { .. } => seq!["#"@, "V2 Hob"@, "Violation/Resolution"@],
            },
            ValidationKind::Fv(fv) => match fv {
                FvValidationKind::CombinedDriversPresent { .. } => seq!["#"@, "File"@, "Violation/Resolution"@],
                FvValidationKind::LzmaCompressedSections { .. } => seq!["#"@, "LZMA Section"@, "Violation/Resolution"@],
                FvValidationKind::ProhibitedAprioriFile { .. } => seq!["#"@, "A Priori File"@, "Violation/Resolution"@],
                FvValidationKind::UsesTraditionalSmm { .. } => seq!["#"@, "Traditional SMM Driver"@, "Violation/Resolution"@],
                FvValidationKind::InvalidSectionAlignment { .. } => seq!["#"@, "PE Image Section Alignment"@, "Violation/Resolution"@],
            },
        }
    }

    /// Position of the kind's name in the alphabetical order of all names.
    pub fn rank(&self) -> (r: usize)
        ensures
            r == self.spec_rank(),
            r < KIND_COUNT,
    {
        match self {
            ValidationKind::Hob(hob) => match hob {
                HobValidationKind::InconsistentMemoryAttributes { .. } => 1,
                HobValidationKind::OverlappingMemoryRanges { .. } => 4,
                HobValidationKind::PageZeroMemoryDescribed { .. } => 5,
                HobValidationKind::V1MemoryRangeNotContainedInV2 { .. } => 8,
                HobValidationKind::V2ContainsUceAttribute { .. } => 9,
                HobValidationKind::V2MissingValidCacheabilityAttribute { .. } => 11,
                HobValidationKind::V2InvalidIoCacheabilityAttributes { .. } => 10,
            },
            ValidationKind::Fv(fv) => match fv {
                FvValidationKind::CombinedDriversPresent { .. } => 0,
                FvValidationKind::LzmaCompressedSections { .. } => 3,
                FvValidationKind::ProhibitedAprioriFile { .. } => 6,
                FvValidationKind::UsesTraditionalSmm { .. } => 7,
                FvValidationKind::InvalidSectionAlignment { .. } => 2,
            },
        }
    }

    /// The kind's name, the key that groups violations in a report.
    pub fn name(&self) -> (r: String)
        ensures
            r@ == self.spec_name(),
    {
        let s: &str = match self {
            ValidationKind::Hob(hob) => match hob {
                HobValidationKind::InconsistentMemoryAttributes { .. } => "InconsistentMemoryAttributes",
                HobValidationKind::OverlappingMemoryRanges { .. } => "OverlappingMemoryRanges",
                HobValidationKind::PageZeroMemoryDescribed { .. } => "PageZeroMemoryDescribed",
                HobValidationKind::V1MemoryRangeNotContainedInV2 { .. } => "V1MemoryRangeNotContainedInV2",
                HobValidationKind::V2ContainsUceAttribute { .. } => "V2ContainsUceAttribute",
                HobValidationKind::V2MissingValidCacheabilityAttribute { .. } => "V2MissingValidCacheabilityAttribute",
                HobValidationKind::V2InvalidIoCacheabilityAttributes { .. } => "V2InvalidIoCacheabilityAttributes",
            },
            ValidationKind::Fv(fv) => match fv {
                FvValidationKind::CombinedDriversPresent { .. } => "CombinedDriversPresent",
                FvValidationKind::LzmaCompressedSections { .. } => "LzmaCompressedSections",
                FvValidationKind::ProhibitedAprioriFile { .. } => "ProhibitedAprioriFile",
                FvValidationKind::UsesTraditionalSmm { .. } => "UsesTraditionalSmm",
                FvValidationKind::InvalidSectionAlignment { .. } => "InvalidSectionAlignment",
            },
        };
        String::from_str(s)
    }

    /// One-line summary of the requirement the kind breaks.
    pub fn header(&self) -> (r: &'static str)
        ensures
            r@ == self.spec_header(),
    {
        match self {
            ValidationKind::Hob(hob) => match hob {
                HobValidationKind::InconsistentMemoryAttributes { .. } => "HOB: Inconsistent Memory Attributes",
                HobValidationKind::OverlappingMemoryRanges { .. } => "HOB: Overlapping Memory Ranges",
                HobValidationKind::PageZeroMemoryDescribed { .. } => "HOB: Page Zero Memory Described",
                HobValidationKind::V1MemoryRangeNotContainedInV2 { .. } => "HOB: V1 Memory Range Not Contained in V2",
                HobValidationKind::V2ContainsUceAttribute { .. } => "HOB: V2 Range Contains UCE Attribute",
                HobValidationKind::V2MissingValidCacheabilityAttribute { .. } => "HOB: V2 Missing Valid Cacheability Attribute",
                HobValidationKind::V2InvalidIoCacheabilityAttributes { .. } => "HOB: V2 Invalid IO Cacheability Attributes",
            },
            ValidationKind::Fv(fv) => match fv {
                FvValidationKind::CombinedDriversPresent { .. } => "FV: Combined Drivers Present",
                FvValidationKind::LzmaCompressedSections { .. } => "FV: LZMA Compressed Sections Present",
                FvValidationKind::ProhibitedAprioriFile { .. } => "FV: Prohibited Apriori File Present",
                FvValidationKind::UsesTraditionalSmm { .. } => "FV: Uses Traditional SMM Driver",
                FvValidationKind::InvalidSectionAlignment { .. } => "FV: PE Image Invalid Section Alignment",
            },
        }
    }

    /// Remediation guidance for the kind.
    pub fn guidance(&self) -> (r: &'static str)
        ensures
            r@ == self.spec_guidance(),
    {
        match self {
            ValidationKind::Hob(hob) => match hob {
                HobValidationKind::InconsistentMemoryAttributes { .. } => "   Platforms must producing V1 and V2 HOBs for describing the same range(s) should have consistent memory attributes.\n   \
                                                                              Ref: https://github.com/OpenDevicePartnership/patina/blob/main/docs/src/integrate/patina_requirements.md",
                HobValidationKind::OverlappingMemoryRanges { .. } => "   Platforms must produce non-overlapping HOBs by splitting up overlapping HOBs\n   \
                                                                         into multiple HOBs and eliminating duplicates.\n   \
                                                                         Ref: https://github.com/OpenDevicePartnership/patina/blob/main/docs/src/integrate/patina_requirements.md",
                HobValidationKind::PageZeroMemoryDescribed { .. } => "   Platforms must not allocate page 0.\n   \
                                                                         Ref: https://github.com/OpenDevicePartnership/patina/blob/main/docs/src/integrate/patina_requirements.md",
                HobValidationKind::V1MemoryRangeNotContainedInV2 { .. } => "   All V1 HOB ranges should be described/covered by corresponding V2 HOBs.",
                HobValidationKind::V2ContainsUceAttribute { .. } => "   V2 HOB contains prohibited EFI_MEMORY_UCE attribute.",
                HobValidationKind::V2MissingValidCacheabilityAttribute { .. } => "   Platforms must produce Resource Descriptor HOB v2s with a single valid\n   \
                                                                                     cacheability attribute set. These can be the existing Resource Descriptor HOB\n   \
                                                                                     fields with the cacheability attribute set as the only additional field in the\n   \
                                                                                     v2 HOB.\n   \
                                                                                     Ref: https://github.com/OpenDevicePartnership/patina/blob/main/docs/src/integrate/patina_requirements.md",
                HobValidationKind::V2InvalidIoCacheabilityAttributes { .. } => "   Platforms must produce Resource Descriptor HOB v2s with no cacheability or memory protection\n   \
                                                                                   attributes set for IO resource types.",
            },
            ValidationKind::Fv(fv) => match fv {
                FvValidationKind::CombinedDriversPresent { .. } => "   Firmware volume contains prohibited combined drivers. \nBelow file types are prohibited\n- COMBINED_MM_DXE(0x0C)\n- COMBINED_PEIM_DRIVER(0x08).\n   \
                                                                       Ref: https://github.com/OpenDevicePartnership/patina/blob/main/docs/src/integrate/patina_requirements.md",
                FvValidationKind::LzmaCompressedSections { .. } => "   Temporarily, LZMA compressed sections that will be decompressed in DXE should use Brotli or TianoCompress.\n   \
                                                                       Tracking: https://github.com/OpenDevicePartnership/patina/issues/517\n   \
                                                                       Ref: https://github.com/OpenDevicePartnership/patina/blob/main/docs/src/integrate/patina_requirements.md",
                FvValidationKind::ProhibitedAprioriFile { .. } => "   A Priori sections must be removed and proper driver dispatch must be ensured\n   \
                                                                      using depex statements. Drivers may produce empty protocols solely to ensure\n   \
                                                                      that other drivers can use that protocol as a depex statement, if required.\n   \
                                                                      Platforms may also list drivers in FFSes in the order they should be dispatched,\n   \
                                                                      though it is recommended to rely on depex statements.\n   \
                                                                      Ref: https://github.com/OpenDevicePartnership/patina/blob/main/docs/src/integrate/patina_requirements.md\n   \
                                                                      Ref: https://github.com/OpenDevicePartnership/patina-qemu/pull/40",
                FvValidationKind::UsesTraditionalSmm { .. } => "   Platforms must transition to Standalone MM (or not use MM at all, as applicable)\n   \
                                                                   using the provided guidance. All combined modules must be dropped in favor of\n   \
                                                                   single phase modules.\n   \
                                                                   Ref: https://github.com/OpenDevicePartnership/patina/blob/main/docs/src/integrate/patina_requirements.md",
                FvValidationKind::InvalidSectionAlignment { .. } => "   All PE images must have section alignment that is a multiple of page size. \n   \
                                                                        This is not a PI spec requirement, but is a Patina requirement.\n    \
                                                                        Platforms should drop unaligned images or re-build images to ensure section alignment is page-aligned.    \n
                                                                        Ref: https://github.com/OpenDevicePartnership/patina/blob/main/docs/src/integrate/patina_requirements.md",
            },
        }
    }
}

/// Table layout of a violation kind.
pub trait PrettyPrintTable {
    spec fn spec_columns(&self) -> Seq<Seq<char>>;

    /// Column titles of the table.
    fn table_header(&self) -> (r: Vec<&'static str>)
        ensures
            r@.len() == self.spec_columns().len(),
            forall|i: int| 0 <= i < r@.len() ==> (#[trigger] r@[i])@ == self.spec_columns()[i],
    ;
}

impl PrettyPrintTable for ValidationKind {
    open spec fn spec_columns(&self) -> Seq<Seq<char>> {
        self.spec_table_header()
    }

    fn table_header(&self) -> (r: Vec<&'static str>) {
        match self {
            ValidationKind::Hob(hob) => match hob {
                HobValidationKind::InconsistentMemoryAttributes { .. } => vec!["#", "V1 Hob", "V2 Hob", "Violation/Resolution"],
                HobValidationKind::OverlappingMemoryRanges { .. } => vec!["#", "Hob 1", "Hob 2", "Violation/Resolution"],
                HobValidationKind::PageZeroMemoryDescribed { .. } => vec!["#", "Memory Allocation Descriptor", "Violation/Resolution"],
                HobValidationKind::V1MemoryRangeNotContainedInV2 { .. } => vec!["#", "V1 Hob", "Violation/Resolution"],
                HobValidationKind::V2ContainsUceAttribute { .. } => vec!["#", "V2 Hob", "Violation/Resolution"],
                HobValidationKind::V2MissingValidCacheabilityAttribute { .. } => vec!["#", "V2 Hob", "Violation/Resolution"],
                HobValidationKind::V2InvalidIoCacheabilityAttributes { .. } => vec!["#", "V2 Hob", "Violation/Resolution"],
            },
            ValidationKind::Fv(fv) => match fv {
                FvValidationKind::CombinedDriversPresent { .. } => vec!["#", "File", "Violation/Resolution"],
                FvValidationKind::LzmaCompressedSections { .. } => vec!["#", "LZMA Section", "Violation/Resolution"],
                FvValidationKind::ProhibitedAprioriFile { .. } => vec!["#", "A Priori File", "Violation/Resolution"],
                FvValidationKind::UsesTraditionalSmm { .. } => vec!["#", "Traditional SMM Driver", "Violation/Resolution"],
                FvValidationKind::InvalidSectionAlignment { .. } => vec!["#", "PE Image Section Alignment", "Violation/Resolution"],
            },
        }
    }
}

/// `a` comes before `b` in the dictionary order of characters.
pub open spec fn name_precedes(a: Seq<char>, b: Seq<char>) -> bool
    decreases a.len(),
{
    if b.len() == 0 {
        false
    } else if a.len() == 0 {
        true
    } else if a[0] != b[0] {
        (a[0] as u32) < (b[0] as u32)
    } else {
        name_precedes(a.drop_first(), b.drop_first())
    }
}

/// The name of the kind of rank `r`.
pub open spec fn name_of_rank(r: nat) -> Seq<char> {
    if r == 0 {
        "CombinedDriversPresent"@
    } else if r == 1 {
        "InconsistentMemoryAttributes"@
    } else if r == 2 {
        "InvalidSectionAlignment"@
    } else if r == 3 {
        "LzmaCompressedSections"@
    } else if r == 4 {
        "OverlappingMemoryRanges"@
    } else if r == 5 {
        "PageZeroMemoryDescribed"@
    } else if r == 6 {
        "ProhibitedAprioriFile"@
    } else if r == 7 {
        "UsesTraditionalSmm"@
    } else if r == 8 {
        "V1MemoryRangeNotContainedInV2"@
    } else if r == 9 {
        "V2ContainsUceAttribute"@
    } else if r == 10 {
        "V2InvalidIoCacheabilityAttributes"@
    } else if r == 11 {
        "V2MissingValidCacheabilityAttribute"@
    } else {
        Seq::empty()
    }
}

/// Two names that agree before position `k` and differ at it, the first
/// with the smaller character there, are in dictionary order.
proof fn lemma_precedes_at(a: Seq<char>, b: Seq<char>, k: int)
    requires
        0 <= k < a.len(),
        k < b.len(),
        a.subrange(0, k) == b.subrange(0, k),
        (a[k] as u32) < (b[k] as u32),
    ensures
        name_precedes(a, b),
    decreases k,
{
    if k > 0 {
        assert(a[0] == a.subrange(0, k)[0]);
        assert(b[0] == b.subrange(0, k)[0]);
        assert(a.drop_first().subrange(0, k - 1) =~= a.subrange(0, k).drop_first());
        assert(b.drop_first().subrange(0, k - 1) =~= b.subrange(0, k).drop_first());
        lemma_precedes_at(a.drop_first(), b.drop_first(), k - 1);
    }
}

proof fn lemma_precedes_transitive(a: Seq<char>, b: Seq<char>, c: Seq<char>)
    requires
        name_precedes(a, b),
        name_precedes(b, c),
    ensures
        name_precedes(a, c),
    decreases a.len(),
{
    if a.len() > 0 && b.len() > 0 && c.len() > 0 && a[0] == b[0] && b[0] == c[0] {
        lemma_precedes_transitive(a.drop_first(), b.drop_first(), c.drop_first());
    }
}

proof fn lemma_consecutive_ranks(r: nat)
    requires
        r + 1 < KIND_COUNT,
    ensures
        name_precedes(name_of_rank(r), name_of_rank(r + 1)),
{
    if r >= KIND_COUNT {
    } else if r == 0 {
        reveal_strlit("CombinedDriversPresent");
        reveal_strlit("InconsistentMemoryAttributes");
        assert(name_of_rank(0).subrange(0, 0) =~= name_of_rank(1).subrange(0, 0));
        lemma_precedes_at(name_of_rank(0), name_of_rank(1), 0);
    } else if r == 1 {
        reveal_strlit("InconsistentMemoryAttributes");
        reveal_strlit("InvalidSectionAlignment");
        assert(name_of_rank(1).subrange(0, 2) =~= name_of_rank(2).subrange(0, 2));
        lemma_precedes_at(name_of_rank(1), name_of_rank(2), 2);
    } else if r == 2 {
        reveal_strlit("InvalidSectionAlignment");
        reveal_strlit("LzmaCompressedSections");
        assert(name_of_rank(2).subrange(0, 0) =~= name_of_rank(3).subrange(0, 0));
        lemma_precedes_at(name_of_rank(2), name_of_rank(3), 0);
    } else if r == 3 {
        reveal_strlit("LzmaCompressedSections");
        reveal_strlit("OverlappingMemoryRanges");
        assert(name_of_rank(3).subrange(0, 0) =~= name_of_rank(4).subrange(0, 0));
        lemma_precedes_at(name_of_rank(3), name_of_rank(4), 0);
    } else if r == 4 {
        reveal_strlit("OverlappingMemoryRanges");
        reveal_strlit("PageZeroMemoryDescribed");
        assert(name_of_rank(4).subrange(0, 0) =~= name_of_rank(5).subrange(0, 0));
        lemma_precedes_at(name_of_rank(4), name_of_rank(5), 0);
    } else if r == 5 {
        reveal_strlit("PageZeroMemoryDescribed");
        reveal_strlit("ProhibitedAprioriFile");
        assert(name_of_rank(5).subrange(0, 1) =~= name_of_rank(6).subrange(0, 1));
        lemma_precedes_at(name_of_rank(5), name_of_rank(6), 1);
    } else if r == 6 {
        reveal_strlit("ProhibitedAprioriFile");
        reveal_strlit("UsesTraditionalSmm");
        assert(name_of_rank(6).subrange(0, 0) =~= name_of_rank(7).subrange(0, 0));
        lemma_precedes_at(name_of_rank(6), name_of_rank(7), 0);
    } else if r == 7 {
        reveal_strlit("UsesTraditionalSmm");
        reveal_strlit("V1MemoryRangeNotContainedInV2");
        assert(name_of_rank(7).subrange(0, 0) =~= name_of_rank(8).subrange(0, 0));
        lemma_precedes_at(name_of_rank(7), name_of_rank(8), 0);
    } else if r == 8 {
        reveal_strlit("V1MemoryRangeNotContainedInV2");
        reveal_strlit("V2ContainsUceAttribute");
        assert(name_of_rank(8).subrange(0, 1) =~= name_of_rank(9).subrange(0, 1));
        lemma_precedes_at(name_of_rank(8), name_of_rank(9), 1);
    } else if r == 9 {
        reveal_strlit("V2ContainsUceAttribute");
        reveal_strlit("V2InvalidIoCacheabilityAttributes");
        assert(name_of_rank(9).subrange(0, 2) =~= name_of_rank(10).subrange(0, 2));
        lemma_precedes_at(name_of_rank(9), name_of_rank(10), 2);
    } else if r == 10 {
        reveal_strlit("V2InvalidIoCacheabilityAttributes");
        reveal_strlit("V2MissingValidCacheabilityAttribute");
        assert(name_of_rank(10).subrange(0, 2) =~= name_of_rank(11).subrange(0, 2));
        lemma_precedes_at(name_of_rank(10), name_of_rank(11), 2);
    }
}

proof fn lemma_ranks_in_order(i: nat, j: nat)
    requires
        i < j < KIND_COUNT,
    ensures
        name_precedes(name_of_rank(i), name_of_rank(j)),
    decreases j - i,
{
    lemma_consecutive_ranks(i);
    if i + 1 < j {
        lemma_ranks_in_order(i + 1, j);
        lemma_precedes_transitive(name_of_rank(i), name_of_rank(i + 1), name_of_rank(j));
    }
}

/// The ranks that order a report's groups follow the names: a kind of lower
/// rank has a name earlier in dictionary order.
pub proof fn lemma_rank_follows_name(a: ValidationKind, b: ValidationKind)
    requires
        a.spec_rank() < b.spec_rank(),
    ensures
        name_precedes(a.spec_name(), b.spec_name()),
{
    assert(a.spec_name() == name_of_rank(a.spec_rank()));
    assert(b.spec_name() == name_of_rank(b.spec_rank()));
    lemma_ranks_in_order(a.spec_rank(), b.spec_rank());
}

} // verus!
