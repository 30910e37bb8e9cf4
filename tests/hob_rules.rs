use dxe_readiness::{
    HobSerDe, HobValidator, MemAllocDescriptorSerDe, ResourceDescriptorSerDe, ValidationAppError,
    Validator, UEFI_PAGE_SIZE,
};
use mu_pi::hob::{EFI_RESOURCE_IO, EFI_RESOURCE_IO_RESERVED};
use r_efi::efi;

fn create_v1_hob(start: u64, length: u64, resource_type: u32, resource_attribute: u32, owner: &str) -> HobSerDe {
    HobSerDe::ResourceDescriptor(ResourceDescriptorSerDe {
        physical_start: start,
        resource_length: length,
        resource_type,
        resource_attribute,
        owner: owner.to_string(),
    })
}

fn create_v2_hob(
    start: u64,
    length: u64,
    resource_type: u32,
    resource_attribute: u32,
    owner: &str,
    attributes: u64,
) -> HobSerDe {
    HobSerDe::ResourceDescriptorV2 {
        v1: ResourceDescriptorSerDe {
            physical_start: start,
            resource_length: length,
            resource_type,
            resource_attribute,
            owner: owner.to_string(),
        },
        attributes,
    }
}

fn create_memory_hob(name: String, memory_base_address: u64, memory_length: u64, memory_type: u32) -> HobSerDe {
    HobSerDe::MemoryAllocation {
        alloc_descriptor: MemAllocDescriptorSerDe { name, memory_base_address, memory_length, memory_type },
    }
}

#[test]
fn test_validate_memory_overlap() {
    // it is OKAY if v1 v2 hobs overlap -- it should not be flagged
    let hob1 = create_v1_hob(100, 50, 3, 0, "owner1");
    let hob2 = create_v2_hob(100, 50, 3, 0, "owner1", 123);
    let hob_list = vec![hob1, hob2];

    let validator = HobValidator::new(&hob_list);
    let result = validator.validate_memory_overlap();
    assert!(result.is_ok());
    let validation_report = result.unwrap();
    assert_eq!(validation_report.violation_count(), 0);
}

#[test]
fn test_validate_v1v2_superset_ok() {
    // V1 hob fully covered by single V2
    let v1_hob = create_v1_hob(200, 30, 3, 0, "owner1");
    let v2_hob = create_v2_hob(100, 200, 3, 0, "owner1", 123);
    let hob_list = vec![v1_hob, v2_hob];

    let validator = HobValidator::new(&hob_list);
    let result = validator.validate_v1v2_superset();
    assert!(result.is_ok());
    let validation_report = result.unwrap();
    assert_eq!(validation_report.violation_count(), 0);
}

#[test]
fn test_check_v1v2_multiple_superset_ok() {
    // [200, 250] is covered by [100, 220] and [220, 300]
    let v1_hob = create_v1_hob(200, 50, 3, 0, "owner1");
    let v2_hob1 = create_v2_hob(100, 120, 3, 0, "owner1", 123);
    let v2_hob2 = create_v2_hob(220, 80, 3, 0, "owner1", 123);
    let hob_list = vec![v1_hob, v2_hob1, v2_hob2];

    let validator = HobValidator::new(&hob_list);
    let result = validator.validate_v1v2_superset();
    assert!(result.is_ok());
    let validation_report = result.unwrap();
    assert_eq!(validation_report.violation_count(), 0);
}

#[test]
fn test_validate_v1v2_superset_fail() {
    // V1 not fully covered (gap)
    let v1_hob = create_v1_hob(200, 100, 3, 0, "owner1");
    let v2_hob1 = create_v2_hob(100, 50, 3, 0, "owner1", 123);
    let v2_hob2 = create_v2_hob(180, 10, 3, 0, "owner1", 123);
    let hob_list = vec![v1_hob, v2_hob1, v2_hob2];

    let validator = HobValidator::new(&hob_list);
    let result = validator.validate_v1v2_superset();
    assert!(result.is_ok());
    let validation_report = result.unwrap();
    assert_ne!(validation_report.violation_count(), 0);
}

#[test]
fn test_check_overlapping_v1v2_consistency_ok() {
    let v1_hob = create_v1_hob(100, 100, 3, 0, "owner1");
    let v2_hob = create_v2_hob(150, 100, 3, 0, "owner1", 123);
    let hob_list = vec![v1_hob, v2_hob];

    let validator = HobValidator::new(&hob_list);
    let result = validator.validate_overlapping_v1v2_attributes();
    assert!(result.is_ok());
    let validation_report = result.unwrap();
    assert_eq!(validation_report.violation_count(), 0);
}

#[test]
fn test_check_overlapping_v1v2_consistency_fail() {
    // Overlapping and inconsistent v1/v2 (diff resource type)
    let v1_hob = create_v1_hob(100, 100, 3, 0, "owner1");
    let v2_hob = create_v2_hob(150, 100, 4, 0, "owner1", 123);
    let hob_list = vec![v1_hob, v2_hob];

    let validator = HobValidator::new(&hob_list);
    let result = validator.validate_overlapping_v1v2_attributes();
    assert!(result.is_ok());
    let validation_report = result.unwrap();
    assert_ne!(validation_report.violation_count(), 0);
}

#[test]
fn test_page0_memory_allocation() {
    let page_zero_mem_hob = create_memory_hob("test".to_string(), 0, 0x10, 1);
    let mem_hob = create_memory_hob("test2".to_string(), UEFI_PAGE_SIZE as u64 + 1, 0x100, 1);
    let hob_list = vec![mem_hob.clone()];
    let validator = HobValidator::new(&hob_list);
    let result = validator.validate_page0_memory_allocation();
    assert!(result.is_ok());
    let validation_report = result.unwrap();
    assert_eq!(validation_report.violation_count(), 0);

    let hob_list = vec![mem_hob.clone(), page_zero_mem_hob];
    let validator = HobValidator::new(&hob_list);
    let result = validator.validate_page0_memory_allocation();
    assert!(result.is_ok());
    let validation_report = result.unwrap();
    assert_ne!(validation_report.violation_count(), 0);
}

#[test]
fn test_memory_uce_attribute() {
    let v2_hob = create_v2_hob(100, 100, 3, 0, "owner1", efi::MEMORY_UCE);
    let hob_list = vec![v2_hob];

    let validator = HobValidator::new(&hob_list);
    let result = validator.validate_memory_uce_attribute();
    assert!(result.is_ok());
    let validation_report = result.unwrap();
    assert_ne!(validation_report.violation_count(), 0);
}

fn cacheability_count(attributes: u64) -> usize {
    let v2_hob = create_v2_hob(100, 100, 3, 0, "owner1", attributes);
    let hob_list = vec![v2_hob];
    let validator = HobValidator::new(&hob_list);
    let result = validator.validate_memory_cacheability_attribute();
    assert!(result.is_ok());
    result.unwrap().violation_count()
}

#[test]
fn test_memory_v2_cacheability_attributes() {
    // valid cacheability attribute specified
    assert_eq!(cacheability_count(efi::MEMORY_UC), 0);
    // unsupported cacheability attribute specified
    assert_ne!(cacheability_count(efi::MEMORY_UCE), 0);
    // invalid cacheability attribute specified
    assert_ne!(cacheability_count(efi::MEMORY_RO), 0);
    // multiple cacheability attributes specified
    assert_ne!(cacheability_count(efi::MEMORY_WT | efi::MEMORY_WC), 0);
    // valid cacheability attributes specified
    assert_eq!(cacheability_count(efi::MEMORY_WC), 0);
    // invalid cacheability attributes value(0) specified
    assert_ne!(cacheability_count(0), 0);
}

#[test]
fn test_memory_v2_access_protection_attributes() {
    // valid cacheability attribute with a single access protection attribute
    assert_eq!(cacheability_count(efi::MEMORY_UC | efi::MEMORY_RO), 0);
    // valid cacheability attribute with multiple access protection attributes
    assert_eq!(cacheability_count(efi::MEMORY_UC | efi::MEMORY_RO | efi::MEMORY_XP), 0);
}

#[test]
fn test_memory_v2_io_cacheability_attributes() {
    // an io resource descriptor should not have any cacheability attributes
    let v2_hob = create_v2_hob(100, 100, EFI_RESOURCE_IO, 0, "owner1", efi::MEMORY_UC);
    let hob_list = vec![v2_hob];
    let validator = HobValidator::new(&hob_list);
    let result = validator.validate_memory_cacheability_attribute_io_resource_hob();
    assert!(result.is_ok());
    let validation_report = result.unwrap();
    assert_ne!(validation_report.violation_count(), 0);

    // an io reserved resource descriptor should not have any cacheability attributes
    let v2_hob = create_v2_hob(100, 100, EFI_RESOURCE_IO_RESERVED, 0, "owner1", efi::MEMORY_UC);
    let hob_list = vec![v2_hob];
    let validator = HobValidator::new(&hob_list);
    let result = validator.validate_memory_cacheability_attribute_io_resource_hob();
    assert!(result.is_ok());
    let validation_report = result.unwrap();
    assert_ne!(validation_report.violation_count(), 0);
}

// ---------------------------------------------------------------------------

#[test]
fn overlap_within_one_bucket_is_reported_once_per_pair() {
    let hob_list = vec![
        create_v1_hob(0, 100, 3, 0, "owner1"),
        create_v1_hob(50, 100, 3, 0, "owner1"),
        create_v1_hob(120, 10, 3, 0, "owner1"),
        create_v1_hob(60, 10, EFI_RESOURCE_IO, 0, "owner1"),
    ];
    let validator = HobValidator::new(&hob_list);
    let report = validator.validate_memory_overlap().unwrap();
    // [0,100)-[50,150) and [50,150)-[120,130); the I/O range is in another bucket.
    assert_eq!(report.violation_count(), 2);
    assert_eq!(report.violation(0).name(), "OverlappingMemoryRanges");
}

#[test]
fn touching_ranges_do_not_overlap() {
    let hob_list = vec![create_v2_hob(0, 100, 3, 0, "o", 8), create_v2_hob(100, 100, 3, 0, "o", 8)];
    let validator = HobValidator::new(&hob_list);
    assert_eq!(validator.validate_memory_overlap().unwrap().violation_count(), 0);
}

#[test]
fn cross_generation_identical_descriptors_are_exempt() {
    let hob_list = vec![create_v1_hob(0x1000, 0x2000, 0, 7, "owner"), create_v2_hob(0x1000, 0x2000, 0, 7, "owner", 8)];
    let validator = HobValidator::new(&hob_list);
    assert_eq!(validator.validate_memory_overlap().unwrap().violation_count(), 0);
    assert_eq!(validator.validate_overlapping_v1v2_attributes().unwrap().violation_count(), 0);
}

#[test]
fn consistency_reports_owner_and_attribute_mismatch_only_on_overlap() {
    let hob_list = vec![
        create_v1_hob(0, 100, 0, 1, "owner-a"),
        create_v2_hob(50, 100, 0, 1, "owner-b", 8),
        create_v2_hob(500, 100, 0, 2, "owner-a", 8),
    ];
    let validator = HobValidator::new(&hob_list);
    let report = validator.validate_overlapping_v1v2_attributes().unwrap();
    assert_eq!(report.violation_count(), 1);
    assert_eq!(report.violation(0).name(), "InconsistentMemoryAttributes");
}

#[test]
fn superset_gap_scenario() {
    // [200,300) against [100,150) and [180,190): not migrated.
    let hob_list = vec![
        create_v1_hob(200, 100, 3, 0, "o"),
        create_v2_hob(100, 50, 3, 0, "o", 8),
        create_v2_hob(180, 10, 3, 0, "o", 8),
    ];
    let report = HobValidator::new(&hob_list).validate_v1v2_superset().unwrap();
    assert_eq!(report.violation_count(), 1);
    assert_eq!(report.violation(0).name(), "V1MemoryRangeNotContainedInV2");
}

#[test]
fn superset_without_v2_reports_every_v1() {
    let hob_list = vec![create_v1_hob(0, 10, 3, 0, "o"), create_v1_hob(20, 10, 3, 0, "o")];
    let report = HobValidator::new(&hob_list).validate_v1v2_superset().unwrap();
    assert_eq!(report.violation_count(), 2);
}

#[test]
fn page_zero_boundaries() {
    let last_in_page = create_memory_hob("a".to_string(), 0xfff, 1, 1);
    let first_after = create_memory_hob("b".to_string(), 0x1000, 1, 1);
    let hob_list = vec![last_in_page, first_after];
    let report = HobValidator::new(&hob_list).validate_page0_memory_allocation().unwrap();
    assert_eq!(report.violation_count(), 1);
    assert_eq!(report.violation(0).name(), "PageZeroMemoryDescribed");
}

#[test]
fn cacheability_write_protect_alone_is_valid_and_uce_with_uc_is_valid() {
    assert_eq!(cacheability_count(efi::MEMORY_WP), 0);
    assert_eq!(cacheability_count(efi::MEMORY_WB), 0);
    assert_eq!(cacheability_count(efi::MEMORY_UC | efi::MEMORY_UCE), 0);
    assert_ne!(cacheability_count(efi::MEMORY_WB | efi::MEMORY_WP), 0);
}

#[test]
fn io_descriptor_is_exempt_from_cacheability() {
    let hob_list = vec![create_v2_hob(0, 10, EFI_RESOURCE_IO, 0, "o", efi::MEMORY_UC | efi::MEMORY_WC)];
    let validator = HobValidator::new(&hob_list);
    assert_eq!(validator.validate_memory_cacheability_attribute().unwrap().violation_count(), 0);
    assert_eq!(validator.validate_memory_cacheability_attribute_io_resource_hob().unwrap().violation_count(), 1);
    let hob_list = vec![create_v2_hob(0, 10, EFI_RESOURCE_IO, 0, "o", 0)];
    let validator = HobValidator::new(&hob_list);
    assert_eq!(validator.validate_memory_cacheability_attribute_io_resource_hob().unwrap().violation_count(), 0);
}

#[test]
fn empty_hob_list_is_refused() {
    let hob_list: Vec<HobSerDe> = vec![];
    let result = HobValidator::new(&hob_list).validate();
    assert_eq!(result.unwrap_err(), ValidationAppError::EmptyHobList);
}

#[test]
fn full_hob_run_collects_every_rule() {
    let hob_list = vec![
        create_memory_hob("m".to_string(), 0, 0x1000, 4),
        create_v2_hob(0x1000, 0x1000, 0, 0, "o", efi::MEMORY_UCE),
        create_v2_hob(0x10000, 0x100, EFI_RESOURCE_IO, 0, "o", efi::MEMORY_UC),
        HobSerDe::UnknownHob,
    ];
    let report = HobValidator::new(&hob_list).validate().unwrap();
    // page zero, UCE, missing cacheability (UCE alone), I/O attributes
    assert_eq!(report.violation_count(), 4);
}

#[test]
fn library_constants_match_uefi_definitions() {
    assert_eq!(dxe_readiness::MEMORY_UC, efi::MEMORY_UC);
    assert_eq!(dxe_readiness::MEMORY_WC, efi::MEMORY_WC);
    assert_eq!(dxe_readiness::MEMORY_WT, efi::MEMORY_WT);
    assert_eq!(dxe_readiness::MEMORY_WB, efi::MEMORY_WB);
    assert_eq!(dxe_readiness::MEMORY_UCE, efi::MEMORY_UCE);
    assert_eq!(dxe_readiness::MEMORY_WP, efi::MEMORY_WP);
    assert_eq!(dxe_readiness::EFI_RESOURCE_IO, EFI_RESOURCE_IO);
    assert_eq!(dxe_readiness::EFI_RESOURCE_IO_RESERVED, EFI_RESOURCE_IO_RESERVED);
    assert_eq!(
        dxe_readiness::MEMORY_UC | dxe_readiness::MEMORY_WC | dxe_readiness::MEMORY_WT | dxe_readiness::MEMORY_WB
            | dxe_readiness::MEMORY_UCE | dxe_readiness::MEMORY_WP,
        efi::CACHE_ATTRIBUTE_MASK
    );
}
