use recapit::selection::{IndexSelection, SelectionError};

#[test]
fn parses_single_pages_and_ranges() {
    let selection = IndexSelection::parse("1,3-5,10-").unwrap();
    assert_eq!(
        selection.merged_ranges(12).unwrap(),
        vec![(1, 1), (3, 5), (10, 12)]
    );
}

#[test]
fn merges_overlapping_ranges() {
    let selection = IndexSelection::parse("1-3,3-4,6,5-7").unwrap();
    assert_eq!(selection.merged_ranges(10).unwrap(), vec![(1, 7)]);
}

#[test]
fn rejects_zero() {
    assert!(IndexSelection::parse("0").is_err());
    assert!(IndexSelection::parse("1-0").is_err());
}

#[test]
fn rejects_empty_selection() {
    assert_eq!(
        IndexSelection::parse("").unwrap_err(),
        SelectionError::EmptySelection
    );
    assert_eq!(
        IndexSelection::parse("  ").unwrap_err(),
        SelectionError::EmptySelection
    );
}

#[test]
fn rejects_empty_segment() {
    assert_eq!(
        IndexSelection::parse("1,,3").unwrap_err(),
        SelectionError::EmptySegment
    );
}

#[test]
fn rejects_non_numeric_index() {
    assert_eq!(
        IndexSelection::parse("abc").unwrap_err(),
        SelectionError::InvalidIndex
    );
}

#[test]
fn rejects_inverted_range() {
    assert_eq!(
        IndexSelection::parse("5-2").unwrap_err(),
        SelectionError::InvertedRange
    );
}

#[test]
fn star_and_all_select_everything() {
    let star = IndexSelection::parse("*").unwrap();
    assert!(star.is_full());
    assert_eq!(star.merged_ranges(4).unwrap(), vec![(1, 4)]);
    let all = IndexSelection::parse("all").unwrap();
    assert!(all.is_full());
    let bare_dash = IndexSelection::parse("-").unwrap();
    assert!(bare_dash.is_full());
}

#[test]
fn partial_selection_is_not_full() {
    let selection = IndexSelection::parse("2-4").unwrap();
    assert!(!selection.is_full());
}

#[test]
fn rejects_zero_total() {
    let selection = IndexSelection::parse("1").unwrap();
    assert_eq!(
        selection.merged_ranges(0).unwrap_err(),
        SelectionError::ZeroTotal
    );
}

#[test]
fn rejects_range_beyond_total() {
    let selection = IndexSelection::parse("5-9").unwrap();
    assert_eq!(
        selection.merged_ranges(3).unwrap_err(),
        SelectionError::StartBeyondTotal
    );
    let tail = IndexSelection::parse("2-9").unwrap();
    assert_eq!(
        tail.merged_ranges(3).unwrap_err(),
        SelectionError::EndBeyondTotal
    );
}

#[test]
fn open_ended_ranges_resolve_against_total() {
    let selection = IndexSelection::parse("-3,8-").unwrap();
    assert_eq!(selection.merged_ranges(10).unwrap(), vec![(1, 3), (8, 10)]);
}

#[test]
fn adjacent_ranges_merge() {
    let selection = IndexSelection::parse("1-2,3-4,7").unwrap();
    assert_eq!(selection.merged_ranges(10).unwrap(), vec![(1, 4), (7, 7)]);
}
