use ptygrid::style::{Color, Style};
use ptygrid::vt::VtInterpreter;

#[test]
fn resize_sets_exact_dimensions() {
    let mut vt = VtInterpreter::new(80, 24, 100);
    assert!(vt.resize(5, 3));
    let grid = vt.get_grid();
    assert_eq!(grid.len(), 3);
    for row in grid {
        assert_eq!(row.len(), 5);
    }
    assert_eq!(vt.get_cols(), 5);
    assert_eq!(vt.get_rows(), 3);
}

#[test]
fn resize_rejects_zero_dimensions() {
    let mut vt = VtInterpreter::new(10, 4, 100);
    vt.feed(b"hi");
    assert!(!vt.resize(0, 3));
    assert!(!vt.resize(3, 0));
    assert_eq!(vt.get_cols(), 10);
    assert_eq!(vt.get_rows(), 4);
    assert_eq!(vt.get_grid()[0][0].ch, 'h');
}

#[test]
fn resize_clips_and_pads_rows() {
    let mut vt = VtInterpreter::new(4, 2, 100);
    vt.feed(b"abcd");
    assert!(vt.resize(2, 3));
    let grid = vt.get_grid();
    assert_eq!(grid[0][0].ch, 'a');
    assert_eq!(grid[0][1].ch, 'b');
    assert_eq!(grid[2][0].ch, ' ');
}

#[test]
fn sgr_red_text_and_reset() {
    let mut vt = VtInterpreter::new(20, 4, 100);
    vt.feed(b"\x1b[31mHi\x1b[0m");
    let grid = vt.get_grid();
    assert_eq!(grid[0][0].ch, 'H');
    assert_eq!(grid[0][0].style.fg, Color::Indexed(1));
    assert_eq!(grid[0][1].ch, 'i');
    assert_eq!(grid[0][1].style.fg, Color::Indexed(1));
    // the cell after "Hi" was never written and keeps the default style
    assert_eq!(grid[0][2].style, Style::plain());
    assert_eq!(grid[0][2].ch, ' ');
}

#[test]
fn overflow_evicts_exactly_one_row() {
    let cols = 4;
    let mut vt = VtInterpreter::new(cols, 1, 100);
    let bytes = vec![b'x'; cols + 1];
    vt.feed(&bytes);
    assert_eq!(vt.get_scrollback().len(), 1);
    let evicted = &vt.get_scrollback()[0];
    for x in 0..cols {
        assert_eq!(evicted[x].ch, 'x');
    }
    let grid = vt.get_grid();
    assert_eq!(grid.len(), 1);
    assert_eq!(grid[0][0].ch, 'x');
    for x in 1..cols {
        assert_eq!(grid[0][x].ch, ' ');
    }
    let (cx, cy, _) = vt.get_cursor();
    assert_eq!((cx, cy), (1, 0));
}

#[test]
fn split_escape_sequence_equals_whole() {
    let mut whole = VtInterpreter::new(20, 4, 100);
    whole.feed(b"\x1b[32m");
    let mut split = VtInterpreter::new(20, 4, 100);
    split.feed(b"\x1b[3");
    split.feed(b"2m");
    // the style state is identical: a glyph written through either
    // interpreter carries the same (green) style
    whole.feed(b"A");
    split.feed(b"A");
    assert_eq!(whole.get_grid()[0][0].style, split.get_grid()[0][0].style);
    assert_eq!(whole.get_grid()[0][0].style.fg, Color::Indexed(2));
    assert_eq!(whole.get_grid(), split.get_grid());
}

#[test]
fn carriage_return_overwrites_line_start() {
    let mut vt = VtInterpreter::new(10, 2, 100);
    vt.feed(b"abc\rX");
    let grid = vt.get_grid();
    assert_eq!(grid[0][0].ch, 'X');
    assert_eq!(grid[0][1].ch, 'b');
    assert_eq!(grid[0][2].ch, 'c');
}

#[test]
fn wide_character_occupies_two_cells() {
    let mut vt = VtInterpreter::new(10, 2, 100);
    vt.feed("好".as_bytes());
    let grid = vt.get_grid();
    assert_eq!(grid[0][0].ch, '好');
    assert!(!grid[0][0].continuation);
    assert!(grid[0][1].continuation);
    let (cx, _, _) = vt.get_cursor();
    assert_eq!(cx, 2);
}

#[test]
fn utf8_split_across_feeds() {
    let bytes = "好".as_bytes();
    let mut vt = VtInterpreter::new(10, 2, 100);
    vt.feed(&bytes[..1]);
    vt.feed(&bytes[1..]);
    assert_eq!(vt.get_grid()[0][0].ch, '好');
    assert!(vt.get_grid()[0][1].continuation);
}

#[test]
fn tab_advances_to_next_stop() {
    let mut vt = VtInterpreter::new(20, 2, 100);
    vt.feed(b"a\tb");
    let grid = vt.get_grid();
    assert_eq!(grid[0][0].ch, 'a');
    assert_eq!(grid[0][8].ch, 'b');
}

#[test]
fn backspace_steps_back_with_floor() {
    let mut vt = VtInterpreter::new(10, 2, 100);
    vt.feed(b"ab\x08c");
    let grid = vt.get_grid();
    assert_eq!(grid[0][0].ch, 'a');
    assert_eq!(grid[0][1].ch, 'c');
    let mut vt2 = VtInterpreter::new(10, 2, 100);
    vt2.feed(b"\x08\x08x");
    assert_eq!(vt2.get_grid()[0][0].ch, 'x');
}

#[test]
fn cursor_position_sequence() {
    let mut vt = VtInterpreter::new(10, 5, 100);
    vt.feed(b"\x1b[2;3H");
    let (cx, cy, _) = vt.get_cursor();
    assert_eq!((cx, cy), (2, 1));
    // out-of-range positions clamp to the grid
    vt.feed(b"\x1b[99;99H");
    let (cx2, cy2, _) = vt.get_cursor();
    assert_eq!((cx2, cy2), (9, 4));
    // home without parameters
    vt.feed(b"\x1b[H");
    assert_eq!(vt.get_cursor().0, 0);
    assert_eq!(vt.get_cursor().1, 0);
}

#[test]
fn relative_cursor_moves_clamp() {
    let mut vt = VtInterpreter::new(10, 5, 100);
    vt.feed(b"\x1b[3;3H\x1b[1A\x1b[2C");
    let (cx, cy, _) = vt.get_cursor();
    assert_eq!((cx, cy), (4, 1));
    vt.feed(b"\x1b[99D\x1b[99B");
    let (cx2, cy2, _) = vt.get_cursor();
    assert_eq!((cx2, cy2), (0, 4));
}

#[test]
fn erase_in_line_modes() {
    let mut vt = VtInterpreter::new(6, 2, 100);
    vt.feed(b"abcdef\x1b[1;3H\x1b[K");
    let grid = vt.get_grid();
    assert_eq!(grid[0][0].ch, 'a');
    assert_eq!(grid[0][1].ch, 'b');
    for x in 2..6 {
        assert_eq!(grid[0][x].ch, ' ');
    }
    let mut vt2 = VtInterpreter::new(6, 2, 100);
    vt2.feed(b"abcdef\x1b[1;3H\x1b[1K");
    let g2 = vt2.get_grid();
    for x in 0..3 {
        assert_eq!(g2[0][x].ch, ' ');
    }
    assert_eq!(g2[0][3].ch, 'd');
    let mut vt3 = VtInterpreter::new(6, 2, 100);
    vt3.feed(b"abcdef\x1b[2K");
    for x in 0..6 {
        assert_eq!(vt3.get_grid()[0][x].ch, ' ');
    }
}

#[test]
fn erase_in_display_clears_screen() {
    let mut vt = VtInterpreter::new(4, 2, 100);
    vt.feed(b"abcd1234\x1b[2J");
    for row in vt.get_grid() {
        for cell in row {
            assert_eq!(cell.ch, ' ');
        }
    }
}

#[test]
fn cursor_visibility_private_modes() {
    let mut vt = VtInterpreter::new(10, 2, 100);
    assert!(vt.get_cursor().2);
    vt.feed(b"\x1b[?25l");
    assert!(!vt.get_cursor().2);
    vt.feed(b"\x1b[?25h");
    assert!(vt.get_cursor().2);
}

#[test]
fn extended_colors() {
    let mut vt = VtInterpreter::new(10, 2, 100);
    vt.feed(b"\x1b[38;5;123mA\x1b[48;2;1;2;3mB");
    let grid = vt.get_grid();
    assert_eq!(grid[0][0].style.fg, Color::Indexed(123));
    assert_eq!(grid[0][1].style.bg, Color::Rgb(1, 2, 3));
}

#[test]
fn malformed_sequences_are_ignored() {
    let mut vt = VtInterpreter::new(10, 2, 100);
    // unknown final byte, truncated extended color, stray escape
    vt.feed(b"\x1b[99Z\x1b[38;9mA\x1bQB");
    let grid = vt.get_grid();
    assert_eq!(grid[0][0].ch, 'A');
    assert_eq!(grid[0][1].ch, 'B');
}

#[test]
fn scrollback_respects_capacity() {
    let mut vt = VtInterpreter::new(4, 1, 2);
    vt.feed(b"a\nb\nc\nd\ne");
    assert_eq!(vt.get_scrollback().len(), 2);
}

#[test]
fn scroll_offset_clamps_to_scrollback() {
    let mut vt = VtInterpreter::new(4, 1, 100);
    vt.feed(b"a\nb\nc\nd");
    assert_eq!(vt.get_scrollback().len(), 3);
    vt.scroll_up(2);
    assert_eq!(vt.get_scroll_offset(), 2);
    vt.scroll_up(100);
    assert_eq!(vt.get_scroll_offset(), 3);
    vt.scroll_down(1);
    assert_eq!(vt.get_scroll_offset(), 2);
    vt.scroll_down(100);
    assert_eq!(vt.get_scroll_offset(), 0);
}

#[test]
fn line_feed_keeps_column() {
    let mut vt = VtInterpreter::new(10, 3, 100);
    vt.feed(b"ab\ncd");
    let grid = vt.get_grid();
    assert_eq!(grid[0][0].ch, 'a');
    // the line feed moved down without returning to column 0
    assert_eq!(grid[1][2].ch, 'c');
    assert_eq!(grid[1][3].ch, 'd');
}

#[test]
fn wide_character_wraps_as_a_unit() {
    let mut vt = VtInterpreter::new(2, 2, 100);
    vt.feed("a好".as_bytes());
    let grid = vt.get_grid();
    // the wide glyph does not fit in the single remaining column, so it
    // wraps whole onto the next row
    assert_eq!(grid[0][0].ch, 'a');
    assert_eq!(grid[1][0].ch, '好');
    assert!(grid[1][1].continuation);
}

#[test]
fn interrupted_utf8_is_dropped() {
    let mut vt = VtInterpreter::new(10, 2, 100);
    // a lead byte followed by a plain ASCII byte: the partial encoding
    // is abandoned and the ASCII byte handled normally
    vt.feed(&[0xE5, b'A']);
    assert_eq!(vt.get_grid()[0][0].ch, 'A');
}

#[test]
fn erase_below_keeps_rows_above() {
    let mut vt = VtInterpreter::new(4, 3, 100);
    vt.feed(b"aaaa\r\nbbbb\r\ncccc\x1b[2;1H\x1b[J");
    let grid = vt.get_grid();
    assert_eq!(grid[0][0].ch, 'a');
    for x in 0..4 {
        assert_eq!(grid[1][x].ch, ' ');
        assert_eq!(grid[2][x].ch, ' ');
    }
}

#[test]
fn erase_above_keeps_rows_below() {
    let mut vt = VtInterpreter::new(4, 3, 100);
    vt.feed(b"aaaa\r\nbbbb\r\ncccc\x1b[2;1H\x1b[1J");
    let grid = vt.get_grid();
    for x in 0..4 {
        assert_eq!(grid[0][x].ch, ' ');
    }
    assert_eq!(grid[1][0].ch, ' ');
    assert_eq!(grid[1][1].ch, 'b');
    assert_eq!(grid[2][0].ch, 'c');
}

#[test]
fn wrap_at_right_edge() {
    let mut vt = VtInterpreter::new(3, 2, 100);
    vt.feed(b"abcd");
    let grid = vt.get_grid();
    assert_eq!(grid[0][2].ch, 'c');
    assert_eq!(grid[1][0].ch, 'd');
}
