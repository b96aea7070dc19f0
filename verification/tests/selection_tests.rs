use ptygrid::selection::SelectionTracker;
use ptygrid::vt::VtInterpreter;

#[test]
fn selection_spans_two_rows() {
    let mut vt = VtInterpreter::new(10, 2, 100);
    vt.feed(b"hello\r\nworld");
    let mut sel = SelectionTracker::new();
    sel.start(0, 0);
    sel.update(3, 1);
    // all of row 0 from column 0 is selected
    for x in 0..10 {
        assert!(sel.is_selected(x, 0));
    }
    // columns 0..=3 of row 1 are selected, nothing beyond
    for x in 0..4 {
        assert!(sel.is_selected(x, 1));
    }
    assert!(!sel.is_selected(4, 1));
    assert!(!sel.is_selected(0, 2));
    let text = sel.extract_text(vt.get_grid(), vt.get_scrollback());
    assert_eq!(text, "hello\nworl");
}

#[test]
fn selection_normalizes_reversed_anchors() {
    let mut vt = VtInterpreter::new(10, 2, 100);
    vt.feed(b"hello\r\nworld");
    let mut sel = SelectionTracker::new();
    sel.start(3, 1);
    sel.update(0, 0);
    assert!(sel.is_selected(7, 0));
    assert!(sel.is_selected(3, 1));
    assert!(!sel.is_selected(4, 1));
    let text = sel.extract_text(vt.get_grid(), vt.get_scrollback());
    assert_eq!(text, "hello\nworl");
}

#[test]
fn single_row_selection_bounded_both_sides() {
    let mut vt = VtInterpreter::new(10, 2, 100);
    vt.feed(b"abcdef");
    let mut sel = SelectionTracker::new();
    sel.start(2, 0);
    sel.update(4, 0);
    assert!(!sel.is_selected(1, 0));
    assert!(sel.is_selected(2, 0));
    assert!(sel.is_selected(4, 0));
    assert!(!sel.is_selected(5, 0));
    let text = sel.extract_text(vt.get_grid(), vt.get_scrollback());
    assert_eq!(text, "cde");
}

#[test]
fn extract_trims_trailing_padding() {
    let mut vt = VtInterpreter::new(10, 2, 100);
    vt.feed(b"hi");
    let mut sel = SelectionTracker::new();
    sel.start(0, 0);
    sel.update(9, 0);
    let text = sel.extract_text(vt.get_grid(), vt.get_scrollback());
    assert_eq!(text, "hi");
}

#[test]
fn selection_covers_scrollback_rows() {
    // one-row grid: "old" is evicted into the scrollback, "new" stays live
    let mut vt = VtInterpreter::new(5, 1, 100);
    vt.feed(b"old\r\nnew");
    assert_eq!(vt.get_scrollback().len(), 1);
    let mut sel = SelectionTracker::new();
    sel.start(0, 0);
    sel.update(4, 1);
    let text = sel.extract_text(vt.get_grid(), vt.get_scrollback());
    assert_eq!(text, "old\nnew");
}

#[test]
fn update_without_start_is_a_no_op() {
    let mut vt = VtInterpreter::new(5, 1, 100);
    vt.feed(b"abc");
    let mut sel = SelectionTracker::new();
    sel.update(2, 0);
    assert!(!sel.is_active());
    assert!(!sel.is_selected(1, 0));
    assert_eq!(sel.extract_text(vt.get_grid(), vt.get_scrollback()), "");
}

#[test]
fn clear_drops_the_selection() {
    let mut vt = VtInterpreter::new(5, 1, 100);
    vt.feed(b"abc");
    let mut sel = SelectionTracker::new();
    sel.start(0, 0);
    sel.update(2, 0);
    assert!(sel.is_selected(1, 0));
    sel.clear();
    assert!(!sel.is_selected(1, 0));
    assert_eq!(sel.extract_text(vt.get_grid(), vt.get_scrollback()), "");
}

#[test]
fn wide_character_continuation_not_duplicated() {
    let mut vt = VtInterpreter::new(10, 1, 100);
    vt.feed("a好b".as_bytes());
    let mut sel = SelectionTracker::new();
    sel.start(0, 0);
    sel.update(9, 0);
    let text = sel.extract_text(vt.get_grid(), vt.get_scrollback());
    assert_eq!(text, "a好b");
}

#[test]
fn selection_below_content_is_empty() {
    let mut vt = VtInterpreter::new(5, 2, 100);
    vt.feed(b"ab");
    let mut sel = SelectionTracker::new();
    sel.start(0, 7);
    sel.update(3, 9);
    assert_eq!(sel.extract_text(vt.get_grid(), vt.get_scrollback()), "");
}
