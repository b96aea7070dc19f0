use ptygrid::session::PtySession;

#[test]
fn live_session_feeds_interpreter() {
    let mut s = PtySession::new(10, 2, 100);
    assert!(s.is_alive());
    s.feed(b"hi");
    assert_eq!(s.interpreter().get_grid()[0][0].ch, 'h');
    assert_eq!(s.interpreter().get_grid()[0][1].ch, 'i');
}

#[test]
fn eof_terminates_and_feed_becomes_a_no_op() {
    let mut s = PtySession::new(10, 2, 100);
    s.feed(b"hi");
    let before = s.interpreter().get_grid().clone();
    s.mark_terminated();
    assert!(!s.is_alive());
    // feeding after termination changes nothing and never fails
    s.feed(b"MORE\x1b[31mdata");
    assert_eq!(s.interpreter().get_grid(), &before);
    let (cx, cy, _) = s.interpreter().get_cursor();
    assert_eq!((cx, cy), (2, 0));
}

#[test]
fn writes_are_gated_by_liveness() {
    let mut s = PtySession::new(10, 2, 100);
    let out = s.gate_input(vec![1, 2, 3]);
    assert_eq!(out, Some(vec![1, 2, 3]));
    s.mark_terminated();
    assert_eq!(s.gate_input(vec![1, 2, 3]), None);
}

#[test]
fn session_resize_matches_interpreter() {
    let mut s = PtySession::new(10, 2, 100);
    assert!(s.resize(7, 3));
    assert_eq!(s.interpreter().get_cols(), 7);
    assert_eq!(s.interpreter().get_rows(), 3);
    assert!(!s.resize(0, 3));
    assert_eq!(s.interpreter().get_cols(), 7);
}

#[test]
fn session_scrolling_delegates() {
    let mut s = PtySession::new(4, 1, 100);
    s.feed(b"a\nb\nc");
    assert_eq!(s.interpreter().get_scrollback().len(), 2);
    s.scroll_up(5);
    assert_eq!(s.interpreter().get_scroll_offset(), 2);
    s.scroll_down(1);
    assert_eq!(s.interpreter().get_scroll_offset(), 1);
}
