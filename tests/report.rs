use dxe_readiness::{
    first_mismatch, Mismatch,
    map_error, validate_capture, verdict, DxeReadinessCaptureSerDe, FirmwareFileSerDe, FirmwareVolumeSerDe,
    FvValidationKind, HobSerDe, HobValidationKind, MemAllocDescriptorSerDe, PrettyPrintTable, ValidationAppError,
    ValidationKind, ValidationReport,
};

fn page_zero(name: &str) -> ValidationKind {
    ValidationKind::Hob(HobValidationKind::PageZeroMemoryDescribed {
        alloc_desc: MemAllocDescriptorSerDe {
            name: name.to_string(),
            memory_base_address: 0,
            memory_length: 1,
            memory_type: 0,
        },
    })
}

fn apriori(file: &str) -> ValidationKind {
    ValidationKind::Fv(FvValidationKind::ProhibitedAprioriFile { fv_name: "FV".to_string(), file_name: file.to_string() })
}

#[test]
fn report_counts_appends_and_groups_by_name() {
    let mut report = ValidationReport::new();
    assert_eq!(report.violation_count(), 0);
    assert!(report.groups().is_empty());
    report.add_violation(page_zero("a"));
    report.add_violation(apriori("f"));
    let mut other = ValidationReport::new();
    other.add_violation(page_zero("b"));
    report.append_report(other);
    assert_eq!(report.violation_count(), 3);
    // "PageZeroMemoryDescribed" sorts before "ProhibitedAprioriFile"
    assert_eq!(report.groups(), vec![vec![0, 2], vec![1]]);
    assert_eq!(report.violation(2), &page_zero("b"));
}

#[test]
fn kind_texts() {
    let v = page_zero("a");
    assert_eq!(v.name(), "PageZeroMemoryDescribed");
    assert_eq!(v.header(), "HOB: Page Zero Memory Described");
    assert!(v.guidance().contains("must not allocate page 0"));
    assert_eq!(v.table_header(), vec!["#", "Memory Allocation Descriptor", "Violation/Resolution"]);
    assert_eq!(apriori("f").table_header(), vec!["#", "A Priori File", "Violation/Resolution"]);
}

#[test]
fn verdict_and_exit_codes() {
    let mut report = ValidationReport::new();
    assert_eq!(verdict(&report), Ok(()));
    report.add_violation(apriori("f"));
    report.add_violation(apriori("g"));
    assert_eq!(verdict(&report), Err(ValidationAppError::ValidationErrors(2)));
    assert_eq!(map_error(&ValidationAppError::ValidationErrors(2)), 2);
    assert_eq!(map_error(&ValidationAppError::EmptyFvList), -1);
    assert_eq!(map_error(&ValidationAppError::JSONFileNotFound("x".to_string())), -1);
}

#[test]
fn empty_snapshot_lists_are_refused() {
    let volume = FirmwareVolumeSerDe {
        fv_name: "FV".to_string(),
        fv_length: 1,
        fv_base_address: 0,
        fv_attributes: 0,
        files: vec![FirmwareFileSerDe {
            name: "F".to_string(),
            file_type: "Driver".to_string(),
            length: 1,
            attributes: 0,
            sections: vec![],
        }],
    };
    let data = DxeReadinessCaptureSerDe { hob_list: vec![], fv_list: vec![volume.clone()] };
    assert_eq!(validate_capture(&data).unwrap_err(), ValidationAppError::EmptyHobList);
    let data = DxeReadinessCaptureSerDe { hob_list: vec![HobSerDe::UnknownHob], fv_list: vec![] };
    assert_eq!(validate_capture(&data).unwrap_err(), ValidationAppError::EmptyFvList);
    let data = DxeReadinessCaptureSerDe { hob_list: vec![HobSerDe::UnknownHob], fv_list: vec![volume] };
    assert_eq!(validate_capture(&data).unwrap().violation_count(), 0);
}

fn resource(owner: &str, resource_type: u32, resource_attribute: u32) -> dxe_readiness::ResourceDescriptorSerDe {
    dxe_readiness::ResourceDescriptorSerDe {
        owner: owner.to_string(),
        resource_type,
        resource_attribute,
        physical_start: 0,
        resource_length: 16,
    }
}

fn section() -> dxe_readiness::FirmwareSectionSerDe {
    dxe_readiness::FirmwareSectionSerDe {
        section_type: "Pe32".to_string(),
        length: 1,
        compression_type: "LZMA Compressed".to_string(),
        pe_info: None,
    }
}

#[test]
fn groups_follow_the_alphabetical_order_of_kind_names() {
    let r = resource("o", 0, 0);
    let s = "s".to_string();
    let all = vec![
        ValidationKind::Hob(HobValidationKind::V2MissingValidCacheabilityAttribute { hob1: r.clone(), attributes: 0 }),
        ValidationKind::Fv(FvValidationKind::UsesTraditionalSmm { fv_name: s.clone(), file_name: s.clone(), file_type: s.clone() }),
        ValidationKind::Hob(HobValidationKind::OverlappingMemoryRanges { hob1: r.clone(), hob2: r.clone() }),
        ValidationKind::Fv(FvValidationKind::InvalidSectionAlignment {
            fv_name: s.clone(),
            file_name: s.clone(),
            section: section(),
            required_alignment: 4096,
        }),
        ValidationKind::Hob(HobValidationKind::V2InvalidIoCacheabilityAttributes { hob1: r.clone(), attributes: 1 }),
        ValidationKind::Fv(FvValidationKind::ProhibitedAprioriFile { fv_name: s.clone(), file_name: s.clone() }),
        ValidationKind::Hob(HobValidationKind::V1MemoryRangeNotContainedInV2 { hob1: r.clone() }),
        ValidationKind::Fv(FvValidationKind::LzmaCompressedSections { fv_name: s.clone(), file_name: s.clone(), section: section() }),
        ValidationKind::Hob(HobValidationKind::V2ContainsUceAttribute { hob1: r.clone(), attributes: 0x10 }),
        ValidationKind::Fv(FvValidationKind::CombinedDriversPresent { fv_name: s.clone(), file_name: s.clone(), file_type: s.clone() }),
        ValidationKind::Hob(HobValidationKind::InconsistentMemoryAttributes { hob1: r.clone(), hob2: r.clone() }),
        page_zero("p"),
    ];
    let mut report = ValidationReport::new();
    for v in all {
        report.add_violation(v);
    }
    let groups = report.groups();
    assert_eq!(groups.len(), dxe_readiness::KIND_COUNT);
    let names: Vec<String> = groups.iter().map(|g| report.violation(g[0]).name()).collect();
    let mut sorted = names.clone();
    sorted.sort();
    assert_eq!(names, sorted);
    assert_eq!(names[0], "CombinedDriversPresent");
    assert_eq!(names[11], "V2MissingValidCacheabilityAttribute");
}

#[test]
fn mismatch_is_reported_on_owner_then_attribute_then_type() {
    assert_eq!(first_mismatch(&resource("a", 1, 1), &resource("b", 2, 2)), Mismatch::Owner);
    assert_eq!(first_mismatch(&resource("a", 1, 1), &resource("a", 2, 2)), Mismatch::Attribute);
    assert_eq!(first_mismatch(&resource("a", 1, 1), &resource("a", 2, 1)), Mismatch::Type);
    assert_eq!(first_mismatch(&resource("a", 1, 1), &resource("a", 1, 1)), Mismatch::NoMismatch);
}
