use macdiet::selection::{parse_selection, Selection};

#[test]
fn parse_selection_empty_is_all() {
    assert_eq!(parse_selection("", 3).unwrap(), Selection::All);
    assert_eq!(parse_selection("   ", 3).unwrap(), Selection::All);
}

#[test]
fn parse_selection_all_variants() {
    assert_eq!(parse_selection("all", 2).unwrap(), Selection::All);
    assert_eq!(parse_selection("*", 2).unwrap(), Selection::All);
}

#[test]
fn parse_selection_none_variants() {
    for s in ["none", "no", "n", "q", "quit"] {
        assert_eq!(parse_selection(s, 2).unwrap(), Selection::Nothing);
    }
}

#[test]
fn parse_selection_numbers_and_ranges() {
    assert_eq!(
        parse_selection("1,3-4", 5).unwrap(),
        Selection::Indices(vec![0, 2, 3])
    );
    assert_eq!(parse_selection("2 5", 5).unwrap(), Selection::Indices(vec![1, 4]));
}

#[test]
fn parse_selection_rejects_out_of_range() {
    assert!(parse_selection("3", 2).is_err());
    assert!(parse_selection("1-3", 2).is_err());
}

#[test]
fn parse_selection_without_actions_is_nothing() {
    assert_eq!(parse_selection("1,2", 0).unwrap(), Selection::Nothing);
}

#[test]
fn parse_selection_rejects_zero_and_backwards_ranges() {
    let zero = parse_selection("0", 3).unwrap_err();
    assert_eq!(zero.message(), "selection is 1-based (0 is not allowed): 0");
    let backwards = parse_selection("3-1", 3).unwrap_err();
    assert_eq!(backwards.message(), "invalid range (start > end): 3-1");
    let junk = parse_selection("abc", 3).unwrap_err();
    assert_eq!(junk.message(), "invalid selection: abc");
    let bad_start = parse_selection("x-2", 3).unwrap_err();
    assert_eq!(bad_start.message(), "invalid range start: x-2");
    let bad_end = parse_selection("1-y", 3).unwrap_err();
    assert_eq!(bad_end.message(), "invalid range end: 1-y");
    let out = parse_selection("9", 3).unwrap_err();
    assert_eq!(out.message(), "selection out of range (max 3): 9");
    let empty = parse_selection(",", 3).unwrap_err();
    assert_eq!(empty.message(), "no actions selected ('all' or 'none' are accepted)");
}

#[test]
fn parse_selection_merges_overlapping_ranges() {
    assert_eq!(
        parse_selection("1-3,2-4,2", 5).unwrap(),
        Selection::Indices(vec![0, 1, 2, 3])
    );
    assert_eq!(
        parse_selection("ALL", 2).unwrap(),
        Selection::All,
        "keyword matching is case-insensitive"
    );
}
