//! The rules on firmware volumes.
use vstd::prelude::*;
use vstd::string::{StrSliceExecFns, StringExecFns};

use crate::errors::ValidationAppError;
use crate::findings::{collect, lemma_collect_step, lemma_take_all};
use crate::fv::{
    FirmwareFileSerDe, FirmwareSectionSerDe, FirmwareVolumeSerDe, COFF_MACHINE_ARM64,
    FV_ARM64_RUNTIME_DRIVER_ALIGNMENT, IMAGE_SUBSYSTEM_EFI_RUNTIME_DRIVER,
};
use crate::hob::UEFI_PAGE_SIZE;
use crate::hob_validator::{reports, ValidationResult};
use crate::validation_kind::{FvValidationKind, ValidationKind};
use crate::validation_report::ValidationReport;
use crate::validator::Validator;

verus! {

/// Name of the file that lists the pre-memory modules in dispatch order.
pub const PEI_APRIORI_FILE_NAME: &'static str = "1b45cc0a-156a-428a-af62-49864da0e6e6";

/// Name of the file that lists the driver modules in dispatch order.
pub const APRIORI_FILE_NAME: &'static str = "fc510ee7-ffdc-11d4-bd41-0080c73c8881";

/// `s` holds exactly the text `lit`.
pub fn text_is(s: &String, lit: &str) -> (r: bool)
    ensures
        r == (s@ == lit@),
{
    *s == String::from_str(lit)
}

/// `s` begins with "LZMA".
pub open spec fn spec_is_lzma(s: Seq<char>) -> bool {
    s.len() >= 4 && s.subrange(0, 4) == seq!['L', 'Z', 'M', 'A']
}

/// `s` begins with "LZMA".
pub fn is_lzma(s: &String) -> (r: bool)
    ensures
        r == spec_is_lzma(s@),
{
    let t = s.as_str();
    if t.unicode_len() < 4 {
        return false;
    }
    let r = t.get_char(0) == 'L' && t.get_char(1) == 'Z' && t.get_char(2) == 'M' && t.get_char(3)
        == 'A';
    proof {
        if r {
            assert(s@.subrange(0, 4) =~= seq!['L', 'Z', 'M', 'A']);
        } else {
            if s@.subrange(0, 4) == seq!['L', 'Z', 'M', 'A'] {
                assert(s@[0] == s@.subrange(0, 4)[0]);
                assert(s@[1] == s@.subrange(0, 4)[1]);
                assert(s@[2] == s@.subrange(0, 4)[2]);
                assert(s@[3] == s@.subrange(0, 4)[3]);
            }
        }
    }
    r
}

/// The module kinds of traditional management mode.
pub open spec fn spec_is_traditional_smm(t: Seq<char>) -> bool {
    t == "CombinedPeimDriver"@ || t == "Mm"@ || t == "CombinedMmDxe"@ || t == "MmCore"@
}

/// The combined module kinds.
pub open spec fn spec_is_combined(t: Seq<char>) -> bool {
    t == "CombinedPeimDriver"@ || t == "CombinedMmDxe"@
}

/// The module kinds whose sections are checked.
pub open spec fn spec_is_eligible(t: Seq<char>) -> bool {
    t == "Driver"@ || t == "Application"@ || t == "DxeCore"@
}

/// The traditional management-mode rule on one file.
pub open spec fn smm_finding(fv: FirmwareVolumeSerDe, file: FirmwareFileSerDe) -> Seq<ValidationKind> {
    if spec_is_traditional_smm(file.file_type@) {
        seq![
            ValidationKind::Fv(
                FvValidationKind::UsesTraditionalSmm {
                    fv_name: fv.fv_name,
                    file_name: file.name,
                    file_type: file.file_type,
                },
            ),
        ]
    } else {
        seq![]
    }
}

/// The combined-driver rule on one file.
pub open spec fn combined_finding(fv: FirmwareVolumeSerDe, file: FirmwareFileSerDe) -> Seq<ValidationKind> {
    if spec_is_combined(file.file_type@) {
        seq![
            ValidationKind::Fv(
                FvValidationKind::CombinedDriversPresent {
                    fv_name: fv.fv_name,
                    file_name: file.name,
                    file_type: file.file_type,
                },
            ),
        ]
    } else {
        seq![]
    }
}

/// The file is one of the two a priori dispatch lists.
pub open spec fn spec_is_apriori(name: Seq<char>) -> bool {
    name == PEI_APRIORI_FILE_NAME@ || name == APRIORI_FILE_NAME@
}

/// The a priori file rule on one file.
pub open spec fn apriori_finding(fv: FirmwareVolumeSerDe, file: FirmwareFileSerDe) -> Seq<ValidationKind> {
    if spec_is_apriori(file.name@) {
        seq![
            ValidationKind::Fv(
                FvValidationKind::ProhibitedAprioriFile { fv_name: fv.fv_name, file_name: file.name },
            ),
        ]
    } else {
        seq![]
    }
}

/// The alignment an image section needs, when it does not have it: a 64-bit
/// ARM runtime driver needs a positive multiple of 64 KiB, any other image a
/// positive multiple of the page size.
pub open spec fn alignment_fault(section: FirmwareSectionSerDe) -> Option<usize> {
    if section.section_type@ == "Pe32"@ && section.pe_info is Some {
        let p = section.pe_info->Some_0;
        let required = if p.machine == COFF_MACHINE_ARM64 && p.subsystem
            == IMAGE_SUBSYSTEM_EFI_RUNTIME_DRIVER {
            FV_ARM64_RUNTIME_DRIVER_ALIGNMENT
        } else {
            UEFI_PAGE_SIZE
        };
        if p.section_alignment == 0 || (p.section_alignment as int) % (required as int) != 0 {
            Some(required)
        } else {
            None
        }
    } else {
        None
    }
}

/// The section rules on one section of an eligible file.
pub open spec fn section_finding(
    fv: FirmwareVolumeSerDe,
    file: FirmwareFileSerDe,
    section: FirmwareSectionSerDe,
) -> Seq<ValidationKind> {
    (if spec_is_lzma(section.compression_type@) {
        seq![
            ValidationKind::Fv(
                FvValidationKind::LzmaCompressedSections {
                    fv_name: fv.fv_name,
                    file_name: file.name,
                    section,
                },
            ),
        ]
    } else {
        seq![]
    }) + match alignment_fault(section) {
        Some(required_alignment) => seq![
            ValidationKind::Fv(
                FvValidationKind::InvalidSectionAlignment {
                    fv_name: fv.fv_name,
                    file_name: file.name,
                    section,
                    required_alignment,
                },
            ),
        ],
        None => seq![],
    }
}

/// The section rules on one file: its sections are checked only when its
/// kind is eligible.
pub open spec fn file_sections_finding(fv: FirmwareVolumeSerDe, file: FirmwareFileSerDe) -> Seq<
    ValidationKind,
> {
    if spec_is_eligible(file.file_type@) {
        collect(file.sections@, |s: FirmwareSectionSerDe| section_finding(fv, file, s))
    } else {
        seq![]
    }
}

/// The traditional management-mode rule over the files of one volume.
pub open spec fn smm_in_volume(fv: FirmwareVolumeSerDe) -> Seq<ValidationKind> {
    collect(fv.files@, |file: FirmwareFileSerDe| smm_finding(fv, file))
}

/// The traditional management-mode rule over all volumes, in order.
pub open spec fn smm_violations(fvs: Seq<FirmwareVolumeSerDe>) -> Seq<ValidationKind> {
    collect(fvs, |fv: FirmwareVolumeSerDe| smm_in_volume(fv))
}

/// The combined-driver rule over the files of one volume.
pub open spec fn combined_in_volume(fv: FirmwareVolumeSerDe) -> Seq<ValidationKind> {
    collect(fv.files@, |file: FirmwareFileSerDe| combined_finding(fv, file))
}

/// The combined-driver rule over all volumes, in order.
pub open spec fn combined_violations(fvs: Seq<FirmwareVolumeSerDe>) -> Seq<ValidationKind> {
    collect(fvs, |fv: FirmwareVolumeSerDe| combined_in_volume(fv))
}

/// The a priori file rule over the files of one volume.
pub open spec fn apriori_in_volume(fv: FirmwareVolumeSerDe) -> Seq<ValidationKind> {
    collect(fv.files@, |file: FirmwareFileSerDe| apriori_finding(fv, file))
}

/// The a priori file rule over all volumes, in order.
pub open spec fn apriori_violations(fvs: Seq<FirmwareVolumeSerDe>) -> Seq<ValidationKind> {
    collect(fvs, |fv: FirmwareVolumeSerDe| apriori_in_volume(fv))
}

/// The section rules over the files of one volume.
pub open spec fn file_sections_in_volume(fv: FirmwareVolumeSerDe) -> Seq<ValidationKind> {
    collect(fv.files@, |file: FirmwareFileSerDe| file_sections_finding(fv, file))
}

/// The section rules over all volumes, in order.
pub open spec fn section_violations(fvs: Seq<FirmwareVolumeSerDe>) -> Seq<ValidationKind> {
    collect(fvs, |fv: FirmwareVolumeSerDe| file_sections_in_volume(fv))
}

/// All firmware-volume rules, in their fixed order.
pub open spec fn fv_violations(fvs: Seq<FirmwareVolumeSerDe>) -> Seq<ValidationKind> {
    smm_violations(fvs) + combined_violations(fvs) + section_violations(fvs) + apriori_violations(
        fvs,
    )
}

/// Runs the firmware-volume rules on a list of volumes.
pub struct FvValidator<'a> {
    fv_list: &'a Vec<FirmwareVolumeSerDe>,
}

impl<'a> FvValidator<'a> {
    /// The volumes the validator checks.
    pub closed spec fn fvs(&self) -> Seq<FirmwareVolumeSerDe> {
        self.fv_list@
    }

    /// A validator over `fv_list`.
    pub fn new(fv_list: &'a Vec<FirmwareVolumeSerDe>) -> (r: Self)
        ensures
            r.fvs() == fv_list@,
    {
        FvValidator { fv_list }
    }

    /// The traditional management-mode rule: no file may be of one of the
    /// four traditional management-mode kinds.
    pub fn validate_fv_for_traditional_smm(&self) -> (r: ValidationResult)
        ensures
            reports(r, smm_violations(self.fvs())),
    {
        let ghost fvs = self.fv_list@;
        let mut validation_report = ValidationReport::new();
        let mut i: usize = 0;
        while i < self.fv_list.len()
            invariant
                fvs == self.fv_list@,
                i <= fvs.len(),
                validation_report@ == collect(
                    fvs.take(i as int),
                    |fv: FirmwareVolumeSerDe| smm_in_volume(fv),
                ),
            decreases fvs.len() - i,
        {
            proof {
                lemma_collect_step(fvs, |fv: FirmwareVolumeSerDe| smm_in_volume(fv), i as int);
            }
            let fv = &self.fv_list[i];
            let ghost before = validation_report@;
            let mut j: usize = 0;
            while j < fv.files.len()
                invariant
                    *fv == fvs[i as int],
                    j <= fv.files@.len(),
                    validation_report@ == before + collect(
                        fv.files@.take(j as int),
                        |file: FirmwareFileSerDe| smm_finding(*fv, file),
                    ),
                decreases fv.files@.len() - j,
            {
                proof {
                    lemma_collect_step(
                        fv.files@,
                        |file: FirmwareFileSerDe| smm_finding(*fv, file),
                        j as int,
                    );
                }
                let file = &fv.files[j];
                if text_is(&file.file_type, "CombinedPeimDriver") || text_is(&file.file_type, "Mm")
                    || text_is(&file.file_type, "CombinedMmDxe") || text_is(&file.file_type, "MmCore") {
                    validation_report.add_violation(
                        ValidationKind::Fv(
                            FvValidationKind::UsesTraditionalSmm {
                                fv_name: fv.fv_name.clone(),
                                file_name: file.name.clone(),
                                file_type: file.file_type.clone(),
                            },
                        ),
                    );
                }
                proof {
                    assert(validation_report@ =~= before + collect(
                        fv.files@.take(j + 1),
                        |file: FirmwareFileSerDe| smm_finding(*fv, file),
                    ));
                }
                j = j + 1;
            }
            proof {
                lemma_take_all(fv.files@);
            }
            i = i + 1;
        }
        proof {
            lemma_take_all(fvs);
        }
        Ok(validation_report)
    }

    /// The combined-driver rule: no file may be of one of the two combined
    /// kinds.
    pub fn validate_fv_for_combined_drivers(&self) -> (r: ValidationResult)
        ensures
            reports(r, combined_violations(self.fvs())),
    {
        let ghost fvs = self.fv_list@;
        let mut validation_report = ValidationReport::new();
        let mut i: usize = 0;
        while i < self.fv_list.len()
            invariant
                fvs == self.fv_list@,
                i <= fvs.len(),
                validation_report@ == collect(
                    fvs.take(i as int),
                    |fv: FirmwareVolumeSerDe| combined_in_volume(fv),
                ),
            decreases fvs.len() - i,
        {
            proof {
                lemma_collect_step(fvs, |fv: FirmwareVolumeSerDe| combined_in_volume(fv), i as int);
            }
            let fv = &self.fv_list[i];
            let ghost before = validation_report@;
            let mut j: usize = 0;
            while j < fv.files.len()
                invariant
                    *fv == fvs[i as int],
                    j <= fv.files@.len(),
                    validation_report@ == before + collect(
                        fv.files@.take(j as int),
                        |file: FirmwareFileSerDe| combined_finding(*fv, file),
                    ),
                decreases fv.files@.len() - j,
            {
                proof {
                    lemma_collect_step(
                        fv.files@,
                        |file: FirmwareFileSerDe| combined_finding(*fv, file),
                        j as int,
                    );
                }
                let file = &fv.files[j];
                if text_is(&file.file_type, "CombinedPeimDriver") || text_is(&file.file_type, "CombinedMmDxe") {
                    validation_report.add_violation(
                        ValidationKind::Fv(
                            FvValidationKind::CombinedDriversPresent {
                                fv_name: fv.fv_name.clone(),
                                file_name: file.name.clone(),
                                file_type: file.file_type.clone(),
                            },
                        ),
                    );
                }
                proof {
                    assert(validation_report@ =~= before + collect(
                        fv.files@.take(j + 1),
                        |file: FirmwareFileSerDe| combined_finding(*fv, file),
                    ));
                }
                j = j + 1;
            }
            proof {
                lemma_take_all(fv.files@);
            }
            i = i + 1;
        }
        proof {
            lemma_take_all(fvs);
        }
        Ok(validation_report)
    }

    /// The a priori file rule: no file may be one of the two a priori
    /// dispatch lists.
    pub fn validate_fv_for_apriori_file(&self) -> (r: ValidationResult)
        ensures
            reports(r, apriori_violations(self.fvs())),
    {
        let ghost fvs = self.fv_list@;
        let mut validation_report = ValidationReport::new();
        let mut i: usize = 0;
        while i < self.fv_list.len()
            invariant
                fvs == self.fv_list@,
                i <= fvs.len(),
                validation_report@ == collect(
                    fvs.take(i as int),
                    |fv: FirmwareVolumeSerDe| apriori_in_volume(fv),
                ),
            decreases fvs.len() - i,
        {
            proof {
                lemma_collect_step(fvs, |fv: FirmwareVolumeSerDe| apriori_in_volume(fv), i as int);
            }
            let fv = &self.fv_list[i];
            let ghost before = validation_report@;
            let mut j: usize = 0;
            while j < fv.files.len()
                invariant
                    *fv == fvs[i as int],
                    j <= fv.files@.len(),
                    validation_report@ == before + collect(
                        fv.files@.take(j as int),
                        |file: FirmwareFileSerDe| apriori_finding(*fv, file),
                    ),
                decreases fv.files@.len() - j,
            {
                proof {
                    lemma_collect_step(
                        fv.files@,
                        |file: FirmwareFileSerDe| apriori_finding(*fv, file),
                        j as int,
                    );
                }
                let file = &fv.files[j];
                if text_is(&file.name, PEI_APRIORI_FILE_NAME) || text_is(&file.name, APRIORI_FILE_NAME) {
                    validation_report.add_violation(
                        ValidationKind::Fv(
                            FvValidationKind::ProhibitedAprioriFile {
                                fv_name: fv.fv_name.clone(),
                                file_name: file.name.clone(),
                            },
                        ),
                    );
                }
                proof {
                    assert(validation_report@ =~= before + collect(
                        fv.files@.take(j + 1),
                        |file: FirmwareFileSerDe| apriori_finding(*fv, file),
                    ));
                }
                j = j + 1;
            }
            proof {
                lemma_take_all(fv.files@);
            }
            i = i + 1;
        }
        proof {
            lemma_take_all(fvs);
        }
        Ok(validation_report)
    }

    /// The section rules, on the files of the kinds Driver, Application and
    /// DxeCore: no LZMA-compressed section, and image sections aligned.
    pub fn validate_fv_file_sections(&self) -> (r: ValidationResult)
        ensures
            reports(r, section_violations(self.fvs())),
    {
        let ghost fvs = self.fv_list@;
        let mut validation_report = ValidationReport::new();
        let mut i: usize = 0;
        while i < self.fv_list.len()
            invariant
                fvs == self.fv_list@,
                i <= fvs.len(),
                validation_report@ == collect(
                    fvs.take(i as int),
                    |fv: FirmwareVolumeSerDe| file_sections_in_volume(fv),
                ),
            decreases fvs.len() - i,
        {
            proof {
                lemma_collect_step(fvs, |fv: FirmwareVolumeSerDe| file_sections_in_volume(fv), i as int);
            }
            let fv = &self.fv_list[i];
            let ghost before = validation_report@;
            let mut j: usize = 0;
            while j < fv.files.len()
                invariant
                    *fv == fvs[i as int],
                    j <= fv.files@.len(),
                    validation_report@ == before + collect(
                        fv.files@.take(j as int),
                        |file: FirmwareFileSerDe| file_sections_finding(*fv, file),
                    ),
                decreases fv.files@.len() - j,
            {
                proof {
                    lemma_collect_step(
                        fv.files@,
                        |file: FirmwareFileSerDe| file_sections_finding(*fv, file),
                        j as int,
                    );
                }
                let file = &fv.files[j];
                if text_is(&file.file_type, "Driver") || text_is(&file.file_type, "Application")
                    || text_is(&file.file_type, "DxeCore") {
                    Self::check_file_sections(fv, file, &mut validation_report);
                }
                proof {
                    assert(validation_report@ =~= before + collect(
                        fv.files@.take(j + 1),
                        |file: FirmwareFileSerDe| file_sections_finding(*fv, file),
                    ));
                }
                j = j + 1;
            }
            proof {
                lemma_take_all(fv.files@);
            }
            i = i + 1;
        }
        proof {
            lemma_take_all(fvs);
        }
        Ok(validation_report)
    }

    /// Reports the section findings of one eligible file.
    fn check_file_sections(
        fv: &FirmwareVolumeSerDe,
        file: &FirmwareFileSerDe,
        validation_report: &mut ValidationReport,
    )
        ensures
            final(validation_report)@ == old(validation_report)@ + collect(
                file.sections@,
                |s: FirmwareSectionSerDe| section_finding(*fv, *file, s),
            ),
    {
        let ghost before = validation_report@;
        let mut k: usize = 0;
        while k < file.sections.len()
            invariant
                k <= file.sections@.len(),
                validation_report@ == before + collect(
                    file.sections@.take(k as int),
                    |s: FirmwareSectionSerDe| section_finding(*fv, *file, s),
                ),
            decreases file.sections@.len() - k,
        {
            proof {
                lemma_collect_step(
                    file.sections@,
                    |s: FirmwareSectionSerDe| section_finding(*fv, *file, s),
                    k as int,
                );
            }
            let section = &file.sections[k];
            if is_lzma(&section.compression_type) {
                validation_report.add_violation(
                    ValidationKind::Fv(
                        FvValidationKind::LzmaCompressedSections {
                            fv_name: fv.fv_name.clone(),
                            file_name: file.name.clone(),
                            section: section.copied(),
                        },
                    ),
                );
            }
            if text_is(&section.section_type, "Pe32") {
                if let Some(pe_header_info) = &section.pe_info {
                    let alignment = pe_header_info.section_alignment as usize;
                    let stride: usize = if pe_header_info.machine == COFF_MACHINE_ARM64
                        && pe_header_info.subsystem == IMAGE_SUBSYSTEM_EFI_RUNTIME_DRIVER {
                        FV_ARM64_RUNTIME_DRIVER_ALIGNMENT
                    } else {
                        UEFI_PAGE_SIZE
                    };
                    let required: Option<usize> = if alignment == 0 || alignment % stride != 0 {
                        Some(stride)
                    } else {
                        None
                    };
                    if let Some(required_alignment) = required {
                        validation_report.add_violation(
                            ValidationKind::Fv(
                                FvValidationKind::InvalidSectionAlignment {
                                    fv_name: fv.fv_name.clone(),
                                    file_name: file.name.clone(),
                                    section: section.copied(),
                                    required_alignment,
                                },
                            ),
                        );
                    }
                }
            }
            proof {
                assert(validation_report@ =~= before + collect(
                    file.sections@.take(k + 1),
                    |s: FirmwareSectionSerDe| section_finding(*fv, *file, s),
                ));
            }
            k = k + 1;
        }
        proof {
            lemma_take_all(file.sections@);
        }
    }
}

impl<'a> Validator for FvValidator<'a> {
    open spec fn spec_outcome(&self) -> Result<Seq<ValidationKind>, ValidationAppError> {
        if self.fvs().len() == 0 {
            Err(ValidationAppError::EmptyFvList)
        } else {
            Ok(fv_violations(self.fvs()))
        }
    }

    /// Runs all firmware-volume rules in their fixed order. An empty list is
    /// refused.
    fn validate(&self) -> (r: ValidationResult)
    {
        if self.fv_list.len() == 0 {
            return Err(ValidationAppError::EmptyFvList);
        }
        let mut validation_report = ValidationReport::new();
        validation_report.append_report(self.validate_fv_for_traditional_smm()?);
        validation_report.append_report(self.validate_fv_for_combined_drivers()?);
        validation_report.append_report(self.validate_fv_file_sections()?);
        validation_report.append_report(self.validate_fv_for_apriori_file()?);
        Ok(validation_report)
    }
}

} // verus!
