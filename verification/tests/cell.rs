use plexy_glass::Cell;

#[test]
fn default_cell_is_blank_space() {
    let c = Cell::default();
    assert_eq!(c.grapheme.as_str(), " ");
    assert!(c.is_blank());
    assert!(!c.is_wide_spacer());
}

#[test]
fn wide_spacer_is_recognizable() {
    let s = Cell::wide_spacer();
    assert!(s.is_wide_spacer());
    assert!(!s.is_blank());
}

#[test]
fn blank_returns_default() {
    assert_eq!(Cell::blank(), Cell::default());
}
