use dxe_readiness::{
    FirmwareFileSerDe, FirmwareSectionSerDe, FirmwareVolumeSerDe, FvValidationKind, FvValidator, PeHeaderInfo,
    ValidationKind,
    ValidationAppError, Validator, APRIORI_FILE_NAME, PEI_APRIORI_FILE_NAME, UEFI_PAGE_SIZE,
};
use goblin::pe::{
    header::{COFF_MACHINE_ARM64, COFF_MACHINE_X86_64},
    subsystem::{IMAGE_SUBSYSTEM_EFI_BOOT_SERVICE_DRIVER, IMAGE_SUBSYSTEM_EFI_RUNTIME_DRIVER},
};
use r_efi::efi::Guid;

fn file(name: &str, file_type: &str, length: usize, sections: Vec<FirmwareSectionSerDe>) -> FirmwareFileSerDe {
    FirmwareFileSerDe { name: name.to_string(), file_type: file_type.to_string(), length, attributes: 0, sections }
}

fn volume(fv_name: &str, fv_length: usize, fv_base_address: u64, files: Vec<FirmwareFileSerDe>) -> FirmwareVolumeSerDe {
    FirmwareVolumeSerDe { fv_name: fv_name.to_string(), fv_length, fv_base_address, fv_attributes: 0, files }
}

fn section(section_type: &str, length: usize, compression_type: &str, pe_info: Option<PeHeaderInfo>) -> FirmwareSectionSerDe {
    FirmwareSectionSerDe {
        section_type: section_type.to_string(),
        length,
        compression_type: compression_type.to_string(),
        pe_info,
    }
}

fn format_guid(guid: Guid) -> String {
    let (time_low, time_mid, time_hi_and_version, clk_seq_hi_res, clk_seq_low, node) = guid.as_fields();
    format!(
        "{:08x}-{:04x}-{:04x}-{:02x}{:02x}-{:02x}{:02x}{:02x}{:02x}{:02x}{:02x}",
        time_low, time_mid, time_hi_and_version, clk_seq_hi_res, clk_seq_low, node[0], node[1], node[2], node[3],
        node[4], node[5]
    )
}

#[test]
fn test_validate_fv_for_traditional_smm() {
    let fv_list = vec![volume(
        "FV1",
        1024,
        0x1000,
        vec![
            file("File1", "CombinedPeimDriver", 512, vec![]),
            file("File2", "Mm", 256, vec![]),
            file("File3", "CombinedMmDxe", 256, vec![]),
            file("File4", "MmCore", 256, vec![]),
        ],
    )];

    let validator = FvValidator::new(&fv_list);
    let result = validator.validate();
    assert!(result.is_ok());
    let validation_report = result.unwrap();
    assert_ne!(validation_report.violation_count(), 0);
}

#[test]
fn test_validate_fv_combined_drivers() {
    let fv_list = vec![volume(
        "FV1",
        1024,
        0x1000,
        vec![file("File1", "CombinedPeimDriver", 512, vec![]), file("File2", "CombinedMmDxe", 256, vec![])],
    )];
    let validator = FvValidator::new(&fv_list);
    let result = validator.validate_fv_for_combined_drivers();
    assert!(result.is_ok());
    let validation_report = result.unwrap();
    assert_ne!(validation_report.violation_count(), 0);

    let fv_list = vec![volume(
        "FV2",
        2048,
        0x2000,
        vec![file("File3", "Dxe", 128, vec![]), file("File4", "MmCore", 64, vec![])],
    )];
    let validator = FvValidator::new(&fv_list);
    let result = validator.validate_fv_for_combined_drivers();
    assert!(result.is_ok());
    let validation_report = result.unwrap();
    assert_eq!(validation_report.violation_count(), 0);
}

#[test]
fn test_validate_fv_for_apriori_file() {
    let pei_apriori_file_name_guid =
        format_guid(Guid::from_fields(0x1B45CC0A, 0x156A, 0x428A, 0xAF, 0x62, &[0x49, 0x86, 0x4D, 0xA0, 0xE6, 0xE6]));
    let apriori_file_name_guid =
        format_guid(Guid::from_fields(0xFC510EE7, 0xFFDC, 0x11D4, 0xBD, 0x41, &[0x00, 0x80, 0xC7, 0x3C, 0x88, 0x81]));

    let fv_list = vec![volume("FV1", 1024, 0x1000, vec![file(&pei_apriori_file_name_guid, "Dxe", 512, vec![])])];
    let validator = FvValidator::new(&fv_list);
    let result = validator.validate_fv_for_apriori_file();
    assert!(result.is_ok());
    let validation_report = result.unwrap();
    assert_ne!(validation_report.violation_count(), 0);

    let fv_list = vec![volume("FV1", 1024, 0x1000, vec![file(&apriori_file_name_guid, "Dxe", 512, vec![])])];
    let validator = FvValidator::new(&fv_list);
    let result = validator.validate_fv_for_apriori_file();
    assert!(result.is_ok());
    let validation_report = result.unwrap();
    assert_ne!(validation_report.violation_count(), 0);
}

#[test]
fn test_validate_fv_for_lzma_sections() {
    let fv_list = vec![volume(
        "FV1",
        1024,
        0x1000,
        vec![file("File1", "Driver", 512, vec![section("LZMA", 256, "LZMA ", None)])],
    )];
    let validator = FvValidator::new(&fv_list);
    let result = validator.validate_fv_file_sections();
    assert!(result.is_ok());
    let validation_report = result.unwrap();
    assert_ne!(validation_report.violation_count(), 0);

    let fv_list = vec![volume(
        "FV2",
        2048,
        0x2000,
        vec![file("File3", "MmCoreStandalone", 128, vec![section("LZMA", 128, "uncompressed", None)])],
    )];
    let validator = FvValidator::new(&fv_list);
    let result = validator.validate_fv_file_sections();
    assert!(result.is_ok());
    let validation_report = result.unwrap();
    assert_eq!(validation_report.violation_count(), 0);
}

fn run_alignment_test(
    fv_name: &str,
    file_name: &str,
    file_type: &str,
    section_alignment: u32,
    machine: u16,
    subsystem: u16,
) -> usize {
    let fv_list = vec![volume(
        fv_name,
        1024,
        0x1000,
        vec![file(
            file_name,
            file_type,
            512,
            vec![section("Pe32", 256, "uncompressed ", Some(PeHeaderInfo { section_alignment, machine, subsystem }))],
        )],
    )];
    let validator = FvValidator::new(&fv_list);
    let result = validator.validate_fv_file_sections();
    assert!(result.is_ok());
    let validation_report = result.unwrap();
    validation_report.violation_count()
}

#[test]
fn test_invalid_alignment_not_multiple_of_page_size() {
    let violation_count =
        run_alignment_test("FV1", "File1", "Driver", 12345, COFF_MACHINE_X86_64, IMAGE_SUBSYSTEM_EFI_RUNTIME_DRIVER);
    assert_eq!(violation_count, 1);
}

#[test]
fn test_invalid_alignment_zero() {
    let violation_count =
        run_alignment_test("FV1", "File1", "Driver", 0, COFF_MACHINE_X86_64, IMAGE_SUBSYSTEM_EFI_BOOT_SERVICE_DRIVER);
    assert_eq!(violation_count, 1);
}

#[test]
fn test_valid_alignment_multiple_of_page_size() {
    let violation_count = run_alignment_test(
        "FV2",
        "File3",
        "MmCore",
        (UEFI_PAGE_SIZE * 2) as u32,
        COFF_MACHINE_X86_64,
        IMAGE_SUBSYSTEM_EFI_BOOT_SERVICE_DRIVER,
    );
    assert_eq!(violation_count, 0);
}

#[test]
fn test_invalid_alignment_arm64_runtime_driver() {
    let violation_count = run_alignment_test(
        "FV2",
        "File3",
        "Driver",
        (UEFI_PAGE_SIZE * 2) as u32,
        COFF_MACHINE_ARM64,
        IMAGE_SUBSYSTEM_EFI_RUNTIME_DRIVER,
    );
    assert_eq!(violation_count, 1);
}

#[test]
fn test_ineligible_modules_types_do_not_fail() {
    const ALL_MODULE_TYPES: &[&str] = &[
        "Raw",
        "FreeForm",
        "SecurityCore",
        "PeiCore",
        "DxeCore",
        "Peim",
        "Driver",
        "CombinedPeimDriver",
        "Application",
        "Mm",
        "FirmwareVolumeImage",
        "CombinedMmDxe",
        "MmCore",
        "MmStandalone",
        "MmCoreStandalone",
        "FfsPad",
        "FfsUnknown",
    ];
    const ELIGIBLE_MODULE_TYPES: &[&str] = &["Driver", "Application", "DxeCore"];

    for &module_type in ALL_MODULE_TYPES {
        let expected_violation = ELIGIBLE_MODULE_TYPES.contains(&module_type);
        let violation_count = run_alignment_test(
            "TestFv",
            "TestFile",
            module_type,
            UEFI_PAGE_SIZE as u32,
            COFF_MACHINE_X86_64,
            IMAGE_SUBSYSTEM_EFI_BOOT_SERVICE_DRIVER,
        );
        if expected_violation {
            assert_eq!(violation_count, 0, "Eligible type '{}' should not violate", module_type);
        } else {
            assert_eq!(violation_count, 0, "Ineligible type '{}' should not violate", module_type);
        }
    }
}

#[test]
fn test_validate_empty_list() {
    let fv_list = vec![];
    let validator = FvValidator::new(&fv_list);
    let result = validator.validate();
    assert!(result.is_err());
    assert_eq!(result.unwrap_err(), ValidationAppError::EmptyFvList);
}

// ---------------------------------------------------------------------------

#[test]
fn apriori_names_match_their_guids() {
    assert_eq!(
        PEI_APRIORI_FILE_NAME,
        format_guid(Guid::from_fields(0x1B45CC0A, 0x156A, 0x428A, 0xAF, 0x62, &[0x49, 0x86, 0x4D, 0xA0, 0xE6, 0xE6]))
    );
    assert_eq!(
        APRIORI_FILE_NAME,
        format_guid(Guid::from_fields(0xFC510EE7, 0xFFDC, 0x11D4, 0xBD, 0x41, &[0x00, 0x80, 0xC7, 0x3C, 0x88, 0x81]))
    );
}

#[test]
fn apriori_near_miss_is_not_flagged() {
    let near_miss = "1b45cc0a-156a-428a-af62-49864da0e6e7";
    let upper = "FC510EE7-FFDC-11D4-BD41-0080C73C8881";
    let fv_list = vec![volume("FV1", 1, 0, vec![file(near_miss, "Dxe", 1, vec![]), file(upper, "Dxe", 1, vec![])])];
    let report = FvValidator::new(&fv_list).validate_fv_for_apriori_file().unwrap();
    assert_eq!(report.violation_count(), 0);
    let fv_list = vec![volume("FV1", 1, 0, vec![file(PEI_APRIORI_FILE_NAME, "Dxe", 1, vec![]), file(APRIORI_FILE_NAME, "Dxe", 1, vec![])])];
    let report = FvValidator::new(&fv_list).validate_fv_for_apriori_file().unwrap();
    assert_eq!(report.violation_count(), 2);
    assert_eq!(report.violation(0).name(), "ProhibitedAprioriFile");
}

#[test]
fn lzma_section_scenario() {
    let fv_list = vec![volume("FV1", 1, 0, vec![file("F", "Driver", 1, vec![section("Raw", 1, "LZMA Compressed", None)])])];
    let report = FvValidator::new(&fv_list).validate_fv_file_sections().unwrap();
    assert_eq!(report.violation_count(), 1);
    assert_eq!(report.violation(0).name(), "LzmaCompressedSections");
    let fv_list = vec![volume("FV1", 1, 0, vec![file("F", "Driver", 1, vec![section("Raw", 1, "uncompressed", None)])])];
    let report = FvValidator::new(&fv_list).validate_fv_file_sections().unwrap();
    assert_eq!(report.violation_count(), 0);
}

#[test]
fn lzma_prefix_is_case_sensitive_and_short_labels_pass() {
    let fv_list = vec![volume(
        "FV1",
        1,
        0,
        vec![file(
            "F",
            "Application",
            1,
            vec![section("Raw", 1, "lzma compressed", None), section("Raw", 1, "LZM", None), section("Raw", 1, "LZMA", None)],
        )],
    )];
    let report = FvValidator::new(&fv_list).validate_fv_file_sections().unwrap();
    assert_eq!(report.violation_count(), 1);
}

#[test]
fn traditional_and_combined_rules_both_fire_on_combined_file() {
    let fv_list = vec![volume("FV1", 1, 0, vec![file("F", "CombinedMmDxe", 1, vec![]), file("G", "Driver", 1, vec![])])];
    let report = FvValidator::new(&fv_list).validate().unwrap();
    assert_eq!(report.violation_count(), 2);
    let groups = report.groups();
    assert_eq!(groups.len(), 2);
    assert_eq!(report.violation(groups[0][0]).name(), "CombinedDriversPresent");
    assert_eq!(report.violation(groups[1][0]).name(), "UsesTraditionalSmm");
}

#[test]
fn arm64_runtime_driver_with_64k_alignment_passes_and_zero_fails() {
    assert_eq!(
        run_alignment_test("FV", "F", "Driver", 0x10000, COFF_MACHINE_ARM64, IMAGE_SUBSYSTEM_EFI_RUNTIME_DRIVER),
        0
    );
    assert_eq!(run_alignment_test("FV", "F", "Driver", 0, COFF_MACHINE_ARM64, IMAGE_SUBSYSTEM_EFI_RUNTIME_DRIVER), 1);
    assert_eq!(
        run_alignment_test("FV", "F", "DxeCore", 0x2000, COFF_MACHINE_ARM64, IMAGE_SUBSYSTEM_EFI_BOOT_SERVICE_DRIVER),
        0
    );
}

#[test]
fn zero_aligned_arm64_runtime_driver_needs_64k() {
    let fv_list = vec![volume(
        "FV",
        1,
        0,
        vec![file(
            "F",
            "Driver",
            1,
            vec![section(
                "Pe32",
                1,
                "uncompressed",
                Some(PeHeaderInfo {
                    section_alignment: 0,
                    machine: COFF_MACHINE_ARM64,
                    subsystem: IMAGE_SUBSYSTEM_EFI_RUNTIME_DRIVER,
                }),
            )],
        )],
    )];
    let report = FvValidator::new(&fv_list).validate_fv_file_sections().unwrap();
    assert_eq!(report.violation_count(), 1);
    match report.violation(0) {
        ValidationKind::Fv(FvValidationKind::InvalidSectionAlignment { required_alignment, .. }) => {
            assert_eq!(*required_alignment, 0x10000)
        }
        other => panic!("unexpected violation {:?}", other),
    }
    let fv_list = vec![volume(
        "FV",
        1,
        0,
        vec![file(
            "F",
            "Driver",
            1,
            vec![section(
                "Pe32",
                1,
                "uncompressed",
                Some(PeHeaderInfo { section_alignment: 0, machine: COFF_MACHINE_X86_64, subsystem: IMAGE_SUBSYSTEM_EFI_RUNTIME_DRIVER }),
            )],
        )],
    )];
    let report = FvValidator::new(&fv_list).validate_fv_file_sections().unwrap();
    match report.violation(0) {
        ValidationKind::Fv(FvValidationKind::InvalidSectionAlignment { required_alignment, .. }) => {
            assert_eq!(*required_alignment, UEFI_PAGE_SIZE)
        }
        other => panic!("unexpected violation {:?}", other),
    }
}

#[test]
fn library_image_constants_match_pe_definitions() {
    assert_eq!(dxe_readiness::COFF_MACHINE_ARM64, COFF_MACHINE_ARM64);
    assert_eq!(dxe_readiness::IMAGE_SUBSYSTEM_EFI_RUNTIME_DRIVER, IMAGE_SUBSYSTEM_EFI_RUNTIME_DRIVER);
}
