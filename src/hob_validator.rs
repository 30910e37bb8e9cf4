//! The rules on hand-off blocks.
use vstd::prelude::*;

use crate::errors::ValidationAppError;
use crate::findings::{
    collect, lemma_collect_contains, lemma_collect_member, lemma_collect_one, lemma_collect_step,
    lemma_collect_two, lemma_take_all,
};
use crate::hob::{
    is_io, spec_is_io, HobSerDe, MemAllocDescriptorSerDe, ResourceDescriptorSerDe, MEMORY_UC, MEMORY_UCE, MEMORY_WB,
    MEMORY_WC, MEMORY_WP, MEMORY_WT, PAGE_ZERO_END,
};
use crate::interval::{
    all_wf, any_contains, contained_in, covered_by, is_merge_of, lemma_inside_one_is_covered,
    lemma_merge_contains_iff_covered, lemma_separated_is_own_merge, merge_intervals, separated,
    Interval, Span,
};
use crate::validation_kind::{HobValidationKind, ValidationKind};
use crate::validation_report::ValidationReport;
use crate::validator::Validator;

verus! {

/// The outcome of a rule or of a set of rules.
pub type ValidationResult = Result<ValidationReport, ValidationAppError>;

/// The report of `r` holds exactly `v`.
pub open spec fn reports(r: ValidationResult, v: Seq<ValidationKind>) -> bool {
    r matches Ok(rep) && rep@ == v
}

// ---------------------------------------------------------------- buckets

/// The descriptor of `h`, if `h` is a resource descriptor of the generation
/// `v2` whose type is I/O exactly when `io` is.
pub open spec fn resource_in_bucket(h: HobSerDe, v2: bool, io: bool) -> Seq<ResourceDescriptorSerDe> {
    match h {
        HobSerDe::ResourceDescriptor(r) => {
            if !v2 && spec_is_io(r.resource_type) == io {
                seq![r]
            } else {
                seq![]
            }
        },
        HobSerDe::ResourceDescriptorV2 { v1, .. } => {
            if v2 && spec_is_io(v1.resource_type) == io {
                seq![v1]
            } else {
                seq![]
            }
        },
        _ => seq![],
    }
}

/// The descriptors of one bucket, in list order.
pub open spec fn bucket(hobs: Seq<HobSerDe>, v2: bool, io: bool) -> Seq<ResourceDescriptorSerDe> {
    collect(hobs, |h: HobSerDe| resource_in_bucket(h, v2, io))
}

/// The violation for the pair `(a, b)`, if they overlap.
pub open spec fn overlap_finding(a: ResourceDescriptorSerDe, b: ResourceDescriptorSerDe) -> Seq<
    ValidationKind,
> {
    if a.spec_span().spec_overlaps(b.spec_span()) {
        seq![ValidationKind::Hob(HobValidationKind::OverlappingMemoryRanges { hob1: a, hob2: b })]
    } else {
        seq![]
    }
}

/// Overlaps of `b[i]` with `b[j]` for `i < j < m`, by increasing `j`.
pub open spec fn overlap_row(b: Seq<ResourceDescriptorSerDe>, i: int, m: int) -> Seq<ValidationKind>
    decreases m - i,
{
    if m <= i + 1 {
        seq![]
    } else {
        overlap_row(b, i, m - 1) + overlap_finding(b[i], b[m - 1])
    }
}

/// Overlaps of `b[i]` with `b[j]` for `i < n` and `i < j`, by increasing `i`
/// then `j`.
pub open spec fn overlap_pairs(b: Seq<ResourceDescriptorSerDe>, n: int) -> Seq<ValidationKind>
    decreases n,
{
    if n <= 0 {
        seq![]
    } else {
        overlap_pairs(b, n - 1) + overlap_row(b, n - 1, b.len() as int)
    }
}

/// All overlapping pairs of `b`.
pub open spec fn all_overlaps(b: Seq<ResourceDescriptorSerDe>) -> Seq<ValidationKind> {
    overlap_pairs(b, b.len() as int)
}

/// The overlap rule: overlapping pairs within first-generation memory,
/// second-generation memory, first-generation I/O and second-generation I/O
/// descriptors, bucket by bucket.
pub open spec fn overlap_violations(hobs: Seq<HobSerDe>) -> Seq<ValidationKind> {
    all_overlaps(bucket(hobs, false, false)) + all_overlaps(bucket(hobs, true, false))
        + all_overlaps(bucket(hobs, false, true)) + all_overlaps(bucket(hobs, true, true))
}

// ---------------------------------------------------------- consistency

/// The violation for a first-generation `h1` and a second-generation `h2`
/// that overlap and differ in type, attribute or owner.
pub open spec fn consistency_finding(h1: HobSerDe, h2: HobSerDe) -> Seq<ValidationKind> {
    match h1 {
        HobSerDe::ResourceDescriptor(v1) => match h2 {
            HobSerDe::ResourceDescriptorV2 { v1: v2, .. } => {
                if v1.spec_span().spec_overlaps(v2.spec_span()) && (v1.resource_type
                    != v2.resource_type || v1.resource_attribute != v2.resource_attribute
                    || v1.owner@ != v2.owner@) {
                    seq![
                        ValidationKind::Hob(
                            HobValidationKind::InconsistentMemoryAttributes { hob1: v1, hob2: v2 },
                        ),
                    ]
                } else {
                    seq![]
                }
            },
            _ => seq![],
        },
        _ => seq![],
    }
}

/// Findings of `h1` against every block of `hobs`, in list order.
pub open spec fn consistency_row(h1: HobSerDe, hobs: Seq<HobSerDe>) -> Seq<ValidationKind> {
    collect(hobs, |h2: HobSerDe| consistency_finding(h1, h2))
}

/// The consistency rule over every ordered pair of blocks.
pub open spec fn consistency_violations(hobs: Seq<HobSerDe>) -> Seq<ValidationKind> {
    collect(hobs, |h1: HobSerDe| consistency_row(h1, hobs))
}

// ------------------------------------------------------------- superset

/// The range of `h`, if it is a second-generation descriptor.
pub open spec fn v2_span_of(h: HobSerDe) -> Seq<Span> {
    match h {
        HobSerDe::ResourceDescriptorV2 { v1, .. } => seq![v1.spec_span()],
        _ => seq![],
    }
}

/// Ranges of all second-generation descriptors, in list order.
pub open spec fn v2_spans(hobs: Seq<HobSerDe>) -> Seq<Span> {
    collect(hobs, |h: HobSerDe| v2_span_of(h))
}

/// The violation for `h`, if it is a first-generation descriptor whose range
/// the union of `spans` does not cover.
pub open spec fn superset_finding(h: HobSerDe, spans: Seq<Span>) -> Seq<ValidationKind> {
    match h {
        HobSerDe::ResourceDescriptor(v1) => {
            if !covered_by(v1.spec_span(), spans) {
                seq![ValidationKind::Hob(HobValidationKind::V1MemoryRangeNotContainedInV2 { hob1: v1 })]
            } else {
                seq![]
            }
        },
        _ => seq![],
    }
}

/// The superset rule: first-generation ranges not covered by the
/// second-generation ranges, in list order.
pub open spec fn superset_violations(hobs: Seq<HobSerDe>) -> Seq<ValidationKind> {
    collect(hobs, |h: HobSerDe| superset_finding(h, v2_spans(hobs)))
}

// ------------------------------------------------------ per-block rules

/// The page-zero rule on one block.
pub open spec fn page0_finding(h: HobSerDe) -> Seq<ValidationKind> {
    match h {
        HobSerDe::MemoryAllocation { alloc_descriptor } => {
            if alloc_descriptor.memory_base_address <= PAGE_ZERO_END {
                seq![
                    ValidationKind::Hob(
                        HobValidationKind::PageZeroMemoryDescribed { alloc_desc: alloc_descriptor },
                    ),
                ]
            } else {
                seq![]
            }
        },
        _ => seq![],
    }
}

/// The page-zero rule over all blocks, in order.
pub open spec fn page0_violations(hobs: Seq<HobSerDe>) -> Seq<ValidationKind> {
    collect(hobs, |h: HobSerDe| page0_finding(h))
}

/// The forbidden-attribute rule on one block.
pub open spec fn uce_finding(h: HobSerDe) -> Seq<ValidationKind> {
    match h {
        HobSerDe::ResourceDescriptorV2 { v1, attributes } => {
            if attributes & MEMORY_UCE != 0 {
                seq![ValidationKind::Hob(HobValidationKind::V2ContainsUceAttribute { hob1: v1, attributes })]
            } else {
                seq![]
            }
        },
        _ => seq![],
    }
}

/// The forbidden-attribute rule over all blocks, in order.
pub open spec fn uce_violations(hobs: Seq<HobSerDe>) -> Seq<ValidationKind> {
    collect(hobs, |h: HobSerDe| uce_finding(h))
}

/// How many of the cacheability attributes UC, WC, WT, WB and WP are set.
pub open spec fn cache_bit_count(a: u64) -> int {
    (if a & MEMORY_UC != 0 { 1int } else { 0int }) + (if a & MEMORY_WC != 0 { 1int } else { 0int })
        + (if a & MEMORY_WT != 0 { 1int } else { 0int }) + (if a & MEMORY_WB != 0 { 1int } else { 0int })
        + (if a & MEMORY_WP != 0 { 1int } else { 0int })
}

/// The cacheability rule on one block: a second-generation memory descriptor
/// must set exactly one cacheability attribute.
pub open spec fn cacheability_finding(h: HobSerDe) -> Seq<ValidationKind> {
    match h {
        HobSerDe::ResourceDescriptorV2 { v1, attributes } => {
            if !spec_is_io(v1.resource_type) && cache_bit_count(attributes) != 1 {
                seq![
                    ValidationKind::Hob(
                        HobValidationKind::V2MissingValidCacheabilityAttribute { hob1: v1, attributes },
                    ),
                ]
            } else {
                seq![]
            }
        },
        _ => seq![],
    }
}

/// The cacheability rule over all blocks, in order.
pub open spec fn cacheability_violations(hobs: Seq<HobSerDe>) -> Seq<ValidationKind> {
    collect(hobs, |h: HobSerDe| cacheability_finding(h))
}

/// The I/O attribute rule on one block: a second-generation I/O descriptor
/// must set no attribute.
pub open spec fn io_finding(h: HobSerDe) -> Seq<ValidationKind> {
    match h {
        HobSerDe::ResourceDescriptorV2 { v1, attributes } => {
            if spec_is_io(v1.resource_type) && attributes != 0 {
                seq![
                    ValidationKind::Hob(
                        HobValidationKind::V2InvalidIoCacheabilityAttributes { hob1: v1, attributes },
                    ),
                ]
            } else {
                seq![]
            }
        },
        _ => seq![],
    }
}

/// The I/O attribute rule over all blocks, in order.
pub open spec fn io_violations(hobs: Seq<HobSerDe>) -> Seq<ValidationKind> {
    collect(hobs, |h: HobSerDe| io_finding(h))
}

/// All hand-off block rules, in their fixed order.
pub open spec fn hob_violations(hobs: Seq<HobSerDe>) -> Seq<ValidationKind> {
    overlap_violations(hobs) + consistency_violations(hobs) + superset_violations(hobs)
        + page0_violations(hobs) + uce_violations(hobs) + cacheability_violations(hobs)
        + io_violations(hobs)
}

/// Runs the hand-off block rules on a list of blocks.
pub struct HobValidator<'a> {
    hob_list: &'a Vec<HobSerDe>,
}

impl<'a> HobValidator<'a> {
    /// The blocks the validator checks.
    pub closed spec fn hobs(&self) -> Seq<HobSerDe> {
        self.hob_list@
    }

    /// A validator over `hob_list`.
    pub fn new(hob_list: &'a Vec<HobSerDe>) -> (r: Self)
        ensures
            r.hobs() == hob_list@,
    {
        HobValidator { hob_list }
    }

    /// Reports every overlapping pair within one bucket of descriptors.
    pub fn check_hob_overlap(resource_list: &Vec<ResourceDescriptorSerDe>) -> (r: Vec<ValidationKind>)
        ensures
            r@ == all_overlaps(resource_list@),
    {
        let ghost b = resource_list@;
        let mut overlaps: Vec<ValidationKind> = Vec::new();
        let mut i: usize = 0;
        while i < resource_list.len()
            invariant
                b == resource_list@,
                i <= b.len(),
                overlaps@ == overlap_pairs(b, i as int),
            decreases b.len() - i,
        {
            let mut j: usize = i + 1;
            while j < resource_list.len()
                invariant
                    b == resource_list@,
                    i < b.len(),
                    i + 1 <= j <= b.len(),
                    overlaps@ == overlap_pairs(b, i as int) + overlap_row(b, i as int, j as int),
                decreases b.len() - j,
            {
                if resource_list[i].overlaps(&resource_list[j]) {
                    overlaps.push(
                        ValidationKind::Hob(
                            HobValidationKind::OverlappingMemoryRanges {
                                hob1: resource_list[i].copied(),
                                hob2: resource_list[j].copied(),
                            },
                        ),
                    );
                }
                proof {
                    assert(overlap_row(b, i as int, j + 1) == overlap_row(b, i as int, j as int)
                        + overlap_finding(b[i as int], b[j as int]));
                }
                j = j + 1;
            }
            proof {
                assert(overlap_pairs(b, i + 1) == overlap_pairs(b, i as int) + overlap_row(
                    b,
                    i as int,
                    b.len() as int,
                ));
            }
            i = i + 1;
        }
        overlaps
    }

    /// The overlap rule.
    pub fn validate_memory_overlap(&self) -> (r: ValidationResult)
        ensures
            reports(r, overlap_violations(self.hobs())),
    {
        let ghost hobs = self.hob_list@;
        let mut v1_memory_hobs: Vec<ResourceDescriptorSerDe> = Vec::new();
        let mut v2_memory_hobs: Vec<ResourceDescriptorSerDe> = Vec::new();
        let mut v1_io_hobs: Vec<ResourceDescriptorSerDe> = Vec::new();
        let mut v2_io_hobs: Vec<ResourceDescriptorSerDe> = Vec::new();
        let mut i: usize = 0;
        while i < self.hob_list.len()
            invariant
                hobs == self.hob_list@,
                i <= hobs.len(),
                v1_memory_hobs@ == bucket(hobs.take(i as int), false, false),
                v2_memory_hobs@ == bucket(hobs.take(i as int), true, false),
                v1_io_hobs@ == bucket(hobs.take(i as int), false, true),
                v2_io_hobs@ == bucket(hobs.take(i as int), true, true),
            decreases hobs.len() - i,
        {
            proof {
                lemma_collect_step(hobs, |h: HobSerDe| resource_in_bucket(h, false, false), i as int);
                lemma_collect_step(hobs, |h: HobSerDe| resource_in_bucket(h, true, false), i as int);
                lemma_collect_step(hobs, |h: HobSerDe| resource_in_bucket(h, false, true), i as int);
                lemma_collect_step(hobs, |h: HobSerDe| resource_in_bucket(h, true, true), i as int);
            }
            match &self.hob_list[i] {
                HobSerDe::ResourceDescriptor(resource) => {
                    if is_io(resource.resource_type) {
                        v1_io_hobs.push(resource.copied());
                    } else {
                        v1_memory_hobs.push(resource.copied());
                    }
                },
                HobSerDe::ResourceDescriptorV2 { v1: resource, .. } => {
                    if is_io(resource.resource_type) {
                        v2_io_hobs.push(resource.copied());
                    } else {
                        v2_memory_hobs.push(resource.copied());
                    }
                },
                _ => {},
            }
            i = i + 1;
        }
        proof {
            lemma_take_all(hobs);
        }
        let mut validation_report = ValidationReport::new();
        let mut overlaps = Self::check_hob_overlap(&v1_memory_hobs);
        let mut more = Self::check_hob_overlap(&v2_memory_hobs);
        overlaps.append(&mut more);
        let mut more = Self::check_hob_overlap(&v1_io_hobs);
        overlaps.append(&mut more);
        let mut more = Self::check_hob_overlap(&v2_io_hobs);
        overlaps.append(&mut more);
        validation_report.add_violations(overlaps);
        Ok(validation_report)
    }

    /// The page-zero rule: no memory allocation may start inside page zero.
    pub fn validate_page0_memory_allocation(&self) -> (r: ValidationResult)
        ensures
            reports(r, page0_violations(self.hobs())),
    {
        let ghost hobs = self.hob_list@;
        let mut validation_report = ValidationReport::new();
        let mut i: usize = 0;
        while i < self.hob_list.len()
            invariant
                hobs == self.hob_list@,
                i <= hobs.len(),
                validation_report@ == collect(hobs.take(i as int), |h: HobSerDe| page0_finding(h)),
            decreases hobs.len() - i,
        {
            proof {
                lemma_collect_step(hobs, |h: HobSerDe| page0_finding(h), i as int);
            }
            if let HobSerDe::MemoryAllocation { alloc_descriptor } = &self.hob_list[i] {
                if alloc_descriptor.memory_base_address <= PAGE_ZERO_END {
                    validation_report.add_violation(
                        ValidationKind::Hob(
                            HobValidationKind::PageZeroMemoryDescribed {
                                alloc_desc: alloc_descriptor.copied(),
                            },
                        ),
                    );
                }
            }
            i = i + 1;
        }
        proof {
            lemma_take_all(hobs);
        }
        Ok(validation_report)
    }

    /// The forbidden-attribute rule: no second-generation descriptor may set
    /// the deprecated UCE attribute.
    pub fn validate_memory_uce_attribute(&self) -> (r: ValidationResult)
        ensures
            reports(r, uce_violations(self.hobs())),
    {
        let ghost hobs = self.hob_list@;
        let mut validation_report = ValidationReport::new();
        let mut i: usize = 0;
        while i < self.hob_list.len()
            invariant
                hobs == self.hob_list@,
                i <= hobs.len(),
                validation_report@ == collect(hobs.take(i as int), |h: HobSerDe| uce_finding(h)),
            decreases hobs.len() - i,
        {
            proof {
                lemma_collect_step(hobs, |h: HobSerDe| uce_finding(h), i as int);
            }
            if let HobSerDe::ResourceDescriptorV2 { v1, attributes } = &self.hob_list[i] {
                if *attributes & MEMORY_UCE != 0 {
                    validation_report.add_violation(
                        ValidationKind::Hob(
                            HobValidationKind::V2ContainsUceAttribute {
                                hob1: v1.copied(),
                                attributes: *attributes,
                            },
                        ),
                    );
                }
            }
            i = i + 1;
        }
        proof {
            lemma_take_all(hobs);
        }
        Ok(validation_report)
    }

    /// The cacheability rule: a second-generation memory descriptor sets
    /// exactly one of the attributes UC, WC, WT, WB and WP.
    pub fn validate_memory_cacheability_attribute(&self) -> (r: ValidationResult)
        ensures
            reports(r, cacheability_violations(self.hobs())),
    {
        let ghost hobs = self.hob_list@;
        let mut validation_report = ValidationReport::new();
        let mut i: usize = 0;
        while i < self.hob_list.len()
            invariant
                hobs == self.hob_list@,
                i <= hobs.len(),
                validation_report@ == collect(hobs.take(i as int), |h: HobSerDe| cacheability_finding(h)),
            decreases hobs.len() - i,
        {
            proof {
                lemma_collect_step(hobs, |h: HobSerDe| cacheability_finding(h), i as int);
            }
            if let HobSerDe::ResourceDescriptorV2 { v1, attributes } = &self.hob_list[i] {
                if !is_io(v1.resource_type) && cache_bits_set(*attributes) != 1 {
                    validation_report.add_violation(
                        ValidationKind::Hob(
                            HobValidationKind::V2MissingValidCacheabilityAttribute {
                                hob1: v1.copied(),
                                attributes: *attributes,
                            },
                        ),
                    );
                }
            }
            i = i + 1;
        }
        proof {
            lemma_take_all(hobs);
        }
        Ok(validation_report)
    }

    /// The I/O attribute rule: a second-generation I/O descriptor sets no
    /// attribute.
    pub fn validate_memory_cacheability_attribute_io_resource_hob(&self) -> (r: ValidationResult)
        ensures
            reports(r, io_violations(self.hobs())),
    {
        let ghost hobs = self.hob_list@;
        let mut validation_report = ValidationReport::new();
        let mut i: usize = 0;
        while i < self.hob_list.len()
            invariant
                hobs == self.hob_list@,
                i <= hobs.len(),
                validation_report@ == collect(hobs.take(i as int), |h: HobSerDe| io_finding(h)),
            decreases hobs.len() - i,
        {
            proof {
                lemma_collect_step(hobs, |h: HobSerDe| io_finding(h), i as int);
            }
            if let HobSerDe::ResourceDescriptorV2 { v1, attributes } = &self.hob_list[i] {
                if is_io(v1.resource_type) && *attributes != 0 {
                    validation_report.add_violation(
                        ValidationKind::Hob(
                            HobValidationKind::V2InvalidIoCacheabilityAttributes {
                                hob1: v1.copied(),
                                attributes: *attributes,
                            },
                        ),
                    );
                }
            }
            i = i + 1;
        }
        proof {
            lemma_take_all(hobs);
        }
        Ok(validation_report)
    }

    /// The consistency rule: a first-generation and a second-generation
    /// descriptor that overlap must agree on type, attribute and owner.
    pub fn validate_overlapping_v1v2_attributes(&self) -> (r: ValidationResult)
        ensures
            reports(r, consistency_violations(self.hobs())),
    {
        let ghost hobs = self.hob_list@;
        let mut validation_report = ValidationReport::new();
        let mut i: usize = 0;
        while i < self.hob_list.len()
            invariant
                hobs == self.hob_list@,
                i <= hobs.len(),
                validation_report@ == collect(
                    hobs.take(i as int),
                    |h1: HobSerDe| consistency_row(h1, hobs),
                ),
            decreases hobs.len() - i,
        {
            proof {
                lemma_collect_step(hobs, |h1: HobSerDe| consistency_row(h1, hobs), i as int);
            }
            let ghost before = validation_report@;
            let hob1 = &self.hob_list[i];
            let mut j: usize = 0;
            while j < self.hob_list.len()
                invariant
                    hobs == self.hob_list@,
                    i < hobs.len(),
                    j <= hobs.len(),
                    *hob1 == hobs[i as int],
                    validation_report@ == before + collect(
                        hobs.take(j as int),
                        |h2: HobSerDe| consistency_finding(hobs[i as int], h2),
                    ),
                decreases hobs.len() - j,
            {
                proof {
                    lemma_collect_step(
                        hobs,
                        |h2: HobSerDe| consistency_finding(hobs[i as int], h2),
                        j as int,
                    );
                }
                let hob2 = &self.hob_list[j];
                if let HobSerDe::ResourceDescriptor(v1) = hob1 {
                    if let HobSerDe::ResourceDescriptorV2 { v1: v2, .. } = hob2 {
                        if v1.overlaps(v2) && (v1.resource_type != v2.resource_type
                            || v1.resource_attribute != v2.resource_attribute || v1.owner
                            != v2.owner) {
                            validation_report.add_violation(
                                ValidationKind::Hob(
                                    HobValidationKind::InconsistentMemoryAttributes {
                                        hob1: v1.copied(),
                                        hob2: v2.copied(),
                                    },
                                ),
                            );
                        }
                    }
                }
                proof {
                    assert(validation_report@ =~= before + collect(
                        hobs.take(j + 1),
                        |h2: HobSerDe| consistency_finding(hobs[i as int], h2),
                    ));
                }
                j = j + 1;
            }
            proof {
                lemma_take_all(hobs);
                assert(validation_report@ =~= collect(
                    hobs.take(i + 1),
                    |h1: HobSerDe| consistency_row(h1, hobs),
                ));
            }
            i = i + 1;
        }
        proof {
            lemma_take_all(hobs);
        }
        Ok(validation_report)
    }

    /// The superset rule: each first-generation range must be covered by
    /// the second-generation ranges, which are merged for the test.
    pub fn validate_v1v2_superset(&self) -> (r: ValidationResult)
        ensures
            reports(r, superset_violations(self.hobs())),
    {
        let ghost hobs = self.hob_list@;
        let mut v2_resources: Vec<Span> = Vec::new();
        let mut i: usize = 0;
        while i < self.hob_list.len()
            invariant
                hobs == self.hob_list@,
                i <= hobs.len(),
                v2_resources@ == collect(hobs.take(i as int), |h: HobSerDe| v2_span_of(h)),
                all_wf(v2_resources@),
            decreases hobs.len() - i,
        {
            proof {
                lemma_collect_step(hobs, |h: HobSerDe| v2_span_of(h), i as int);
            }
            if let HobSerDe::ResourceDescriptorV2 { v1: v2, .. } = &self.hob_list[i] {
                v2_resources.push(v2.span());
            }
            i = i + 1;
        }
        proof {
            lemma_take_all(hobs);
        }
        let merged_v2 = merge_intervals(&v2_resources);
        let mut validation_report = ValidationReport::new();
        let mut i: usize = 0;
        while i < self.hob_list.len()
            invariant
                hobs == self.hob_list@,
                i <= hobs.len(),
                v2_resources@ == v2_spans(hobs),
                all_wf(v2_resources@),
                is_merge_of(merged_v2@, v2_resources@),
                validation_report@ == collect(
                    hobs.take(i as int),
                    |h: HobSerDe| superset_finding(h, v2_spans(hobs)),
                ),
            decreases hobs.len() - i,
        {
            proof {
                lemma_collect_step(hobs, |h: HobSerDe| superset_finding(h, v2_spans(hobs)), i as int);
            }
            if let HobSerDe::ResourceDescriptor(v1) = &self.hob_list[i] {
                let span = v1.span();
                let is_v1_migrated = any_contains(&merged_v2, &span);
                proof {
                    lemma_merge_contains_iff_covered(merged_v2@, v2_resources@, span);
                }
                if !is_v1_migrated {
                    validation_report.add_violation(
                        ValidationKind::Hob(
                            HobValidationKind::V1MemoryRangeNotContainedInV2 { hob1: v1.copied() },
                        ),
                    );
                }
            }
            i = i + 1;
        }
        proof {
            lemma_take_all(hobs);
        }
        Ok(validation_report)
    }
}

/// How many of the cacheability attributes UC, WC, WT, WB and WP are set.
pub fn cache_bits_set(attributes: u64) -> (r: u8)
    ensures
        r == cache_bit_count(attributes),
{
    let mut n: u8 = 0;
    if attributes & MEMORY_UC != 0 {
        n = n + 1;
    }
    if attributes & MEMORY_WC != 0 {
        n = n + 1;
    }
    if attributes & MEMORY_WT != 0 {
        n = n + 1;
    }
    if attributes & MEMORY_WB != 0 {
        n = n + 1;
    }
    if attributes & MEMORY_WP != 0 {
        n = n + 1;
    }
    n
}

impl<'a> Validator for HobValidator<'a> {
    open spec fn spec_outcome(&self) -> Result<Seq<ValidationKind>, ValidationAppError> {
        if self.hobs().len() == 0 {
            Err(ValidationAppError::EmptyHobList)
        } else {
            Ok(hob_violations(self.hobs()))
        }
    }

    /// Runs all hand-off block rules in their fixed order. An empty list is
    /// refused.
    fn validate(&self) -> (r: ValidationResult)
    {
        if self.hob_list.len() == 0 {
            return Err(ValidationAppError::EmptyHobList);
        }
        let mut validation_report = ValidationReport::new();
        validation_report.append_report(self.validate_memory_overlap()?);
        validation_report.append_report(self.validate_overlapping_v1v2_attributes()?);
        validation_report.append_report(self.validate_v1v2_superset()?);
        validation_report.append_report(self.validate_page0_memory_allocation()?);
        validation_report.append_report(self.validate_memory_uce_attribute()?);
        validation_report.append_report(self.validate_memory_cacheability_attribute()?);
        validation_report.append_report(self.validate_memory_cacheability_attribute_io_resource_hob()?);
        Ok(validation_report)
    }
}

/// A bucket of at most one descriptor holds no overlapping pair.
proof fn lemma_no_pairs_in_single(b: Seq<ResourceDescriptorSerDe>)
    requires
        b.len() <= 1,
    ensures
        all_overlaps(b) == Seq::<ValidationKind>::empty(),
{
    if b.len() == 1 {
        assert(overlap_pairs(b, 0) == Seq::<ValidationKind>::empty());
        assert(overlap_row(b, 0, 1) == Seq::<ValidationKind>::empty());
        assert(overlap_pairs(b, 1) =~= Seq::<ValidationKind>::empty());
    }
}

/// Cross-generation exemption: a first-generation and a second-generation
/// descriptor over the same range, with the same owner, type and attribute,
/// give no overlap violation and no consistency violation.
pub proof fn lemma_cross_generation_exemption(
    a: ResourceDescriptorSerDe,
    b: ResourceDescriptorSerDe,
    attributes: u64,
)
    requires
        a.physical_start == b.physical_start,
        a.resource_length == b.resource_length,
        a.resource_type == b.resource_type,
        a.resource_attribute == b.resource_attribute,
        a.owner@ == b.owner@,
    ensures
        overlap_violations(
            seq![HobSerDe::ResourceDescriptor(a), HobSerDe::ResourceDescriptorV2 { v1: b, attributes }],
        ) == Seq::<ValidationKind>::empty(),
        consistency_violations(
            seq![HobSerDe::ResourceDescriptor(a), HobSerDe::ResourceDescriptorV2 { v1: b, attributes }],
        ) == Seq::<ValidationKind>::empty(),
{
    let h1 = HobSerDe::ResourceDescriptor(a);
    let h2 = HobSerDe::ResourceDescriptorV2 { v1: b, attributes };
    let hobs = seq![h1, h2];
    lemma_collect_two(h1, h2, |h: HobSerDe| resource_in_bucket(h, false, false));
    lemma_collect_two(h1, h2, |h: HobSerDe| resource_in_bucket(h, true, false));
    lemma_collect_two(h1, h2, |h: HobSerDe| resource_in_bucket(h, false, true));
    lemma_collect_two(h1, h2, |h: HobSerDe| resource_in_bucket(h, true, true));
    lemma_no_pairs_in_single(bucket(hobs, false, false));
    lemma_no_pairs_in_single(bucket(hobs, true, false));
    lemma_no_pairs_in_single(bucket(hobs, false, true));
    lemma_no_pairs_in_single(bucket(hobs, true, true));
    assert(overlap_violations(hobs) =~= Seq::<ValidationKind>::empty());
    lemma_collect_two(h1, h2, |x: HobSerDe| consistency_finding(h1, x));
    lemma_collect_two(h1, h2, |x: HobSerDe| consistency_finding(h2, x));
    lemma_collect_two(h1, h2, |x: HobSerDe| consistency_row(x, hobs));
    assert(consistency_violations(hobs) =~= Seq::<ValidationKind>::empty());
}

/// Page zero: a memory allocation based at address 0 is a page-zero
/// violation, whatever its length; one based above the last address of page
/// zero never is.
pub proof fn lemma_page_zero(d: MemAllocDescriptorSerDe)
    ensures
        d.memory_base_address == 0 ==> page0_violations(
            seq![HobSerDe::MemoryAllocation { alloc_descriptor: d }],
        ) == seq![ValidationKind::Hob(HobValidationKind::PageZeroMemoryDescribed { alloc_desc: d })],
        d.memory_base_address > PAGE_ZERO_END ==> page0_violations(
            seq![HobSerDe::MemoryAllocation { alloc_descriptor: d }],
        ) == Seq::<ValidationKind>::empty(),
{
    lemma_collect_one(
        HobSerDe::MemoryAllocation { alloc_descriptor: d },
        |h: HobSerDe| page0_finding(h),
    );
}

/// One of the attributes UC, WC, WT, WB and WP.
pub open spec fn is_cache_bit(x: u64) -> bool {
    x == MEMORY_UC || x == MEMORY_WC || x == MEMORY_WT || x == MEMORY_WB || x == MEMORY_WP
}

/// Cacheability, exactly one: a second-generation memory descriptor with no
/// attribute is a violation; one with exactly one cacheability attribute is
/// not; one with two cacheability attributes set is.
pub proof fn lemma_cacheability_exactly_one(v1: ResourceDescriptorSerDe, attributes: u64)
    requires
        !spec_is_io(v1.resource_type),
    ensures
        attributes == 0 ==> cacheability_violations(
            seq![HobSerDe::ResourceDescriptorV2 { v1, attributes }],
        ).len() == 1,
        is_cache_bit(attributes) ==> cacheability_violations(
            seq![HobSerDe::ResourceDescriptorV2 { v1, attributes }],
        ).len() == 0,
        forall|x: u64, y: u64|
            is_cache_bit(x) && is_cache_bit(y) && x != y && #[trigger] (attributes & x) != 0
                && #[trigger] (attributes & y) != 0 ==> cacheability_violations(
                seq![HobSerDe::ResourceDescriptorV2 { v1, attributes }],
            ).len() == 1,
{
    lemma_collect_one(
        HobSerDe::ResourceDescriptorV2 { v1, attributes },
        |h: HobSerDe| cacheability_finding(h),
    );
    assert(0u64 & 0x1u64 == 0 && 0u64 & 0x2u64 == 0 && 0u64 & 0x4u64 == 0 && 0u64 & 0x8u64 == 0
        && 0u64 & 0x1000u64 == 0) by (bit_vector);
    assert(0x1u64 & 0x1u64 != 0 && 0x1u64 & 0x2u64 == 0 && 0x1u64 & 0x4u64 == 0 && 0x1u64 & 0x8u64
        == 0 && 0x1u64 & 0x1000u64 == 0) by (bit_vector);
    assert(0x2u64 & 0x1u64 == 0 && 0x2u64 & 0x2u64 != 0 && 0x2u64 & 0x4u64 == 0 && 0x2u64 & 0x8u64
        == 0 && 0x2u64 & 0x1000u64 == 0) by (bit_vector);
    assert(0x4u64 & 0x1u64 == 0 && 0x4u64 & 0x2u64 == 0 && 0x4u64 & 0x4u64 != 0 && 0x4u64 & 0x8u64
        == 0 && 0x4u64 & 0x1000u64 == 0) by (bit_vector);
    assert(0x8u64 & 0x1u64 == 0 && 0x8u64 & 0x2u64 == 0 && 0x8u64 & 0x4u64 == 0 && 0x8u64 & 0x8u64
        != 0 && 0x8u64 & 0x1000u64 == 0) by (bit_vector);
    assert(0x1000u64 & 0x1u64 == 0 && 0x1000u64 & 0x2u64 == 0 && 0x1000u64 & 0x4u64 == 0
        && 0x1000u64 & 0x8u64 == 0 && 0x1000u64 & 0x1000u64 != 0) by (bit_vector);
}

/// I/O exemption: a second-generation I/O descriptor with attributes set is
/// an I/O attribute violation, and never a cacheability violation.
pub proof fn lemma_io_exemption(v1: ResourceDescriptorSerDe, attributes: u64)
    requires
        spec_is_io(v1.resource_type),
        attributes != 0,
    ensures
        io_violations(seq![HobSerDe::ResourceDescriptorV2 { v1, attributes }]) == seq![
            ValidationKind::Hob(
                HobValidationKind::V2InvalidIoCacheabilityAttributes { hob1: v1, attributes },
            ),
        ],
        cacheability_violations(seq![HobSerDe::ResourceDescriptorV2 { v1, attributes }])
            == Seq::<ValidationKind>::empty(),
{
    let h = HobSerDe::ResourceDescriptorV2 { v1, attributes };
    lemma_collect_one(h, |x: HobSerDe| io_finding(x));
    lemma_collect_one(h, |x: HobSerDe| cacheability_finding(x));
}

/// `h` is a descriptor of the generation `v2` whose fields are `r`.
pub open spec fn is_entry_of(h: HobSerDe, r: ResourceDescriptorSerDe, v2: bool) -> bool {
    if v2 {
        h matches HobSerDe::ResourceDescriptorV2 { v1, .. } && v1 == r
    } else {
        h == HobSerDe::ResourceDescriptor(r)
    }
}

proof fn lemma_row_member(b: Seq<ResourceDescriptorSerDe>, i: int, m: int, k: int)
    requires
        0 <= i,
        m <= b.len(),
        0 <= k < overlap_row(b, i, m).len(),
    ensures
        exists|j: int|
            i < j < m && overlap_row(b, i, m)[k] == #[trigger] overlap_finding(b[i], b[j])[0]
                && overlap_finding(b[i], b[j]).len() == 1,
    decreases m - i,
{
    if m > i + 1 {
        let p = overlap_row(b, i, m - 1);
        if k < p.len() {
            lemma_row_member(b, i, m - 1, k);
        } else {
            assert(overlap_row(b, i, m)[k] == overlap_finding(b[i], b[m - 1])[0]);
        }
    }
}

proof fn lemma_pairs_member(b: Seq<ResourceDescriptorSerDe>, n: int, k: int)
    requires
        n <= b.len(),
        0 <= k < overlap_pairs(b, n).len(),
    ensures
        exists|i: int, j: int|
            0 <= i < j < b.len() && overlap_pairs(b, n)[k] == ValidationKind::Hob(
                HobValidationKind::OverlappingMemoryRanges { hob1: b[i], hob2: b[j] },
            ),
    decreases n,
{
    if n > 0 {
        let p = overlap_pairs(b, n - 1);
        if k < p.len() {
            lemma_pairs_member(b, n - 1, k);
        } else {
            lemma_row_member(b, n - 1, b.len() as int, k - p.len());
        }
    }
}

proof fn lemma_bucket_member(hobs: Seq<HobSerDe>, v2: bool, io: bool, i: int)
    requires
        0 <= i < bucket(hobs, v2, io).len(),
    ensures
        exists|m: int| 0 <= m < hobs.len() && is_entry_of(hobs[m], bucket(hobs, v2, io)[i], v2),
{
    let f = |h: HobSerDe| resource_in_bucket(h, v2, io);
    lemma_collect_member(hobs, f, i);
    let (m, t) = choose|m: int, t: int|
        0 <= m < hobs.len() && 0 <= t < f(hobs[m]).len() && #[trigger] f(hobs[m])[t] == collect(hobs, f)[i];
    assert(is_entry_of(hobs[m], bucket(hobs, v2, io)[i], v2));
}

/// The overlap violations of one bucket pair two of its descriptors.
proof fn lemma_bucket_pair(hobs: Seq<HobSerDe>, v2: bool, io: bool, k: int)
    requires
        0 <= k < all_overlaps(bucket(hobs, v2, io)).len(),
    ensures
        exists|m1: int, m2: int, r1: ResourceDescriptorSerDe, r2: ResourceDescriptorSerDe|
            0 <= m1 < hobs.len() && 0 <= m2 < hobs.len() && is_entry_of(hobs[m1], r1, v2)
                && is_entry_of(hobs[m2], r2, v2) && all_overlaps(bucket(hobs, v2, io))[k]
                == ValidationKind::Hob(HobValidationKind::OverlappingMemoryRanges { hob1: r1, hob2: r2 }),
{
    let b = bucket(hobs, v2, io);
    lemma_pairs_member(b, b.len() as int, k);
    let (i, j) = choose|i: int, j: int|
        0 <= i < j < b.len() && overlap_pairs(b, b.len() as int)[k] == ValidationKind::Hob(
            HobValidationKind::OverlappingMemoryRanges { hob1: b[i], hob2: b[j] },
        );
    lemma_bucket_member(hobs, v2, io, i);
    lemma_bucket_member(hobs, v2, io, j);
    let m1 = choose|m: int| 0 <= m < hobs.len() && is_entry_of(hobs[m], b[i], v2);
    let m2 = choose|m: int| 0 <= m < hobs.len() && is_entry_of(hobs[m], b[j], v2);
    assert(is_entry_of(hobs[m1], b[i], v2) && is_entry_of(hobs[m2], b[j], v2));
}

/// Cross-generation exemption, for any list: both descriptors of every
/// overlap violation are blocks of the list of one and the same generation,
/// so no first-generation descriptor is ever paired with a second-generation
/// one.
pub proof fn lemma_overlap_within_one_generation(hobs: Seq<HobSerDe>, k: int)
    requires
        0 <= k < overlap_violations(hobs).len(),
    ensures
        exists|v2: bool, m1: int, m2: int, r1: ResourceDescriptorSerDe, r2: ResourceDescriptorSerDe|
            0 <= m1 < hobs.len() && 0 <= m2 < hobs.len() && is_entry_of(hobs[m1], r1, v2)
                && is_entry_of(hobs[m2], r2, v2) && overlap_violations(hobs)[k]
                == ValidationKind::Hob(HobValidationKind::OverlappingMemoryRanges { hob1: r1, hob2: r2 }),
{
    let a = all_overlaps(bucket(hobs, false, false));
    let b = all_overlaps(bucket(hobs, true, false));
    let c = all_overlaps(bucket(hobs, false, true));
    let d = all_overlaps(bucket(hobs, true, true));
    let all = overlap_violations(hobs);
    assert(all == a + b + c + d);
    if k < a.len() {
        assert(all[k] == a[k]);
        lemma_bucket_pair(hobs, false, false, k);
    } else if k < a.len() + b.len() {
        assert(all[k] == b[k - a.len()]);
        lemma_bucket_pair(hobs, true, false, k - a.len());
    } else if k < a.len() + b.len() + c.len() {
        assert(all[k] == c[k - a.len() - b.len()]);
        lemma_bucket_pair(hobs, false, true, k - a.len() - b.len());
    } else {
        assert(all[k] == d[k - a.len() - b.len() - c.len()]);
        lemma_bucket_pair(hobs, true, true, k - a.len() - b.len() - c.len());
    }
}

proof fn lemma_row_contains(b: Seq<ResourceDescriptorSerDe>, i: int, m: int, j: int)
    requires
        0 <= i < j < m <= b.len(),
        b[i].spec_span().spec_overlaps(b[j].spec_span()),
    ensures
        exists|k: int|
            0 <= k < overlap_row(b, i, m).len() && #[trigger] overlap_row(b, i, m)[k]
                == ValidationKind::Hob(HobValidationKind::OverlappingMemoryRanges { hob1: b[i], hob2: b[j] }),
    decreases m - i,
{
    let p = overlap_row(b, i, m - 1);
    if j == m - 1 {
        assert(overlap_row(b, i, m)[p.len() as int] == overlap_finding(b[i], b[j])[0]);
    } else {
        lemma_row_contains(b, i, m - 1, j);
        let k = choose|k: int|
            0 <= k < p.len() && #[trigger] p[k] == ValidationKind::Hob(
                HobValidationKind::OverlappingMemoryRanges { hob1: b[i], hob2: b[j] },
            );
        assert(overlap_row(b, i, m)[k] == p[k]);
    }
}

proof fn lemma_pairs_contains(b: Seq<ResourceDescriptorSerDe>, n: int, i: int, j: int)
    requires
        0 <= i < n <= b.len(),
        i < j < b.len(),
        b[i].spec_span().spec_overlaps(b[j].spec_span()),
    ensures
        exists|k: int|
            0 <= k < overlap_pairs(b, n).len() && #[trigger] overlap_pairs(b, n)[k]
                == ValidationKind::Hob(HobValidationKind::OverlappingMemoryRanges { hob1: b[i], hob2: b[j] }),
    decreases n,
{
    let p = overlap_pairs(b, n - 1);
    let r = overlap_row(b, n - 1, b.len() as int);
    assert(overlap_pairs(b, n) == p + r);
    if i == n - 1 {
        lemma_row_contains(b, i, b.len() as int, j);
        let k = choose|k: int|
            0 <= k < r.len() && #[trigger] r[k] == ValidationKind::Hob(
                HobValidationKind::OverlappingMemoryRanges { hob1: b[i], hob2: b[j] },
            );
        assert(overlap_pairs(b, n)[p.len() + k] == r[k]);
    } else {
        lemma_pairs_contains(b, n - 1, i, j);
        let k = choose|k: int|
            0 <= k < p.len() && #[trigger] p[k] == ValidationKind::Hob(
                HobValidationKind::OverlappingMemoryRanges { hob1: b[i], hob2: b[j] },
            );
        assert(overlap_pairs(b, n)[k] == p[k]);
    }
}

/// Overlap symmetry within a bucket: a pair of descriptors, the first before
/// the second, is reported whichever of the two is taken to overlap the
/// other; and every report is such a pair.
pub proof fn lemma_bucket_overlap_symmetric(b: Seq<ResourceDescriptorSerDe>, i: int, j: int)
    requires
        0 <= i < j < b.len(),
        b[j].spec_span().spec_overlaps(b[i].spec_span()),
    ensures
        exists|k: int|
            0 <= k < all_overlaps(b).len() && #[trigger] all_overlaps(b)[k] == ValidationKind::Hob(
                HobValidationKind::OverlappingMemoryRanges { hob1: b[i], hob2: b[j] },
            ),
        forall|k: int|
            0 <= k < all_overlaps(b).len() ==> exists|p: int, q: int|
                0 <= p < q < b.len() && b[q].spec_span().spec_overlaps(b[p].spec_span())
                    && #[trigger] all_overlaps(b)[k] == ValidationKind::Hob(
                    HobValidationKind::OverlappingMemoryRanges { hob1: b[p], hob2: b[q] },
                ),
{
    lemma_pairs_contains(b, b.len() as int, i, j);
    let w = choose|k: int|
        0 <= k < overlap_pairs(b, b.len() as int).len() && #[trigger] overlap_pairs(b, b.len() as int)[k]
            == ValidationKind::Hob(HobValidationKind::OverlappingMemoryRanges { hob1: b[i], hob2: b[j] });
    assert(all_overlaps(b)[w] == overlap_pairs(b, b.len() as int)[w]);
    assert forall|k: int| 0 <= k < all_overlaps(b).len() implies exists|p: int, q: int|
        0 <= p < q < b.len() && b[q].spec_span().spec_overlaps(b[p].spec_span())
            && #[trigger] all_overlaps(b)[k] == ValidationKind::Hob(
            HobValidationKind::OverlappingMemoryRanges { hob1: b[p], hob2: b[q] },
        ) by {
        lemma_pairs_member_overlapping(b, b.len() as int, k);
    }
}

proof fn lemma_pairs_member_overlapping(b: Seq<ResourceDescriptorSerDe>, n: int, k: int)
    requires
        n <= b.len(),
        0 <= k < overlap_pairs(b, n).len(),
    ensures
        exists|p: int, q: int|
            0 <= p < q < b.len() && b[q].spec_span().spec_overlaps(b[p].spec_span())
                && overlap_pairs(b, n)[k] == ValidationKind::Hob(
                HobValidationKind::OverlappingMemoryRanges { hob1: b[p], hob2: b[q] },
            ),
    decreases n,
{
    if n > 0 {
        let pre = overlap_pairs(b, n - 1);
        if k < pre.len() {
            lemma_pairs_member_overlapping(b, n - 1, k);
        } else {
            lemma_row_member(b, n - 1, b.len() as int, k - pre.len());
            let j = choose|j: int|
                n - 1 < j < b.len() && overlap_row(b, n - 1, b.len() as int)[k - pre.len()]
                    == #[trigger] overlap_finding(b[n - 1], b[j])[0] && overlap_finding(b[n - 1], b[j]).len() == 1;
            assert(b[j].spec_span().spec_overlaps(b[n - 1].spec_span()));
        }
    }
}

/// The range of a second-generation block is among the second-generation
/// ranges.
proof fn lemma_v2_span_listed(hobs: Seq<HobSerDe>, j: int)
    requires
        0 <= j < hobs.len(),
        hobs[j] is ResourceDescriptorV2,
    ensures
        exists|k: int|
            0 <= k < v2_spans(hobs).len() && #[trigger] v2_spans(hobs)[k]
                == (hobs[j]->ResourceDescriptorV2_v1).spec_span(),
{
    let f = |h: HobSerDe| v2_span_of(h);
    assert(f(hobs[j]) == seq![(hobs[j]->ResourceDescriptorV2_v1).spec_span()]);
    lemma_collect_contains(hobs, f, j, 0);
    let k = choose|k: int| 0 <= k < collect(hobs, f).len() && #[trigger] collect(hobs, f)[k] == f(hobs[j])[0];
    assert(v2_spans(hobs)[k] == (hobs[j]->ResourceDescriptorV2_v1).spec_span());
}

/// Superset coverage: a first-generation descriptor that lies inside the
/// range of a single second-generation descriptor of the list is never
/// reported as not migrated.
pub proof fn lemma_contained_v1_is_migrated(hobs: Seq<HobSerDe>, i: int, j: int)
    requires
        0 <= i < hobs.len(),
        0 <= j < hobs.len(),
        hobs[i] is ResourceDescriptor,
        hobs[j] is ResourceDescriptorV2,
        (hobs[j]->ResourceDescriptorV2_v1).spec_span().spec_contains(
            (hobs[i]->ResourceDescriptor_0).spec_span(),
        ),
    ensures
        superset_finding(hobs[i], v2_spans(hobs)) == Seq::<ValidationKind>::empty(),
{
    lemma_v2_span_listed(hobs, j);
    let w = hobs[j]->ResourceDescriptorV2_v1;
    let k = choose|k: int| 0 <= k < v2_spans(hobs).len() && #[trigger] v2_spans(hobs)[k] == w.spec_span();
    lemma_inside_one_is_covered((hobs[i]->ResourceDescriptor_0).spec_span(), v2_spans(hobs), k);
}

/// Superset coverage over ranges that are already merged: when the
/// second-generation ranges are sorted and neither overlap nor touch (so
/// merging them gives them back unchanged), a first-generation descriptor is
/// reported exactly when no single second-generation range contains it.
pub proof fn lemma_superset_over_merged_ranges(hobs: Seq<HobSerDe>, d: ResourceDescriptorSerDe)
    requires
        separated(v2_spans(hobs)),
    ensures
        superset_finding(HobSerDe::ResourceDescriptor(d), v2_spans(hobs)).len() > 0 <==> !contained_in(
            v2_spans(hobs),
            d.spec_span(),
        ),
{
    let w = v2_spans(hobs);
    lemma_separated_is_own_merge(w);
    lemma_merge_contains_iff_covered(w, w, d.spec_span());
}

} // verus!
