use dxe_readiness::{merge_intervals, Interval, ResourceDescriptorSerDe, Span};

fn span(start: u64, end: u128) -> Span {
    Span { start, end }
}

#[test]
fn merge_of_empty_list_is_empty() {
    assert!(merge_intervals(&vec![]).is_empty());
}

#[test]
fn merge_joins_overlapping_and_touching_spans_in_order() {
    let spans = vec![span(220, 300), span(500, 510), span(100, 220), span(150, 160), span(600, 600)];
    assert_eq!(merge_intervals(&spans), vec![span(100, 300), span(500, 510), span(600, 600)]);
}

#[test]
fn merge_keeps_a_gap_of_one_address() {
    let spans = vec![span(0, 10), span(11, 20)];
    assert_eq!(merge_intervals(&spans), vec![span(0, 10), span(11, 20)]);
}

#[test]
fn merge_of_merged_list_is_unchanged() {
    let merged = vec![span(0, 10), span(20, 30), span(31, 31)];
    assert_eq!(merge_intervals(&merged), merged);
    let again = merge_intervals(&merge_intervals(&vec![span(5, 9), span(0, 6), span(40, 41)]));
    assert_eq!(again, vec![span(0, 9), span(40, 41)]);
}

#[test]
fn every_input_lies_in_exactly_one_merged_span() {
    let spans = vec![span(7, 9), span(0, 3), span(3, 5), span(20, 25), span(22, 23), span(9, 9)];
    let merged = merge_intervals(&spans);
    for s in &spans {
        assert_eq!(merged.iter().filter(|m| m.contains(s)).count(), 1);
    }
}

#[test]
fn overlap_is_symmetric() {
    let pairs = [(span(0, 10), span(5, 15)), (span(0, 10), span(10, 20)), (span(3, 3), span(0, 10)), (span(0, 0), span(0, 0))];
    for (a, b) in pairs {
        assert_eq!(a.overlaps(&b), b.overlaps(&a));
    }
    assert!(span(0, 10).overlaps(&span(5, 15)));
    assert!(!span(0, 10).overlaps(&span(10, 20)));
}

#[test]
fn descriptor_span_reaches_past_the_64_bit_space() {
    let r = ResourceDescriptorSerDe {
        owner: "o".to_string(),
        resource_type: 0,
        resource_attribute: 0,
        physical_start: u64::MAX,
        resource_length: 2,
    };
    assert_eq!(r.end(), u64::MAX as u128 + 2);
    assert_eq!(r.length(), 2);
    assert_eq!(Span::from_start_length(4, 6), span(4, 10));
}
