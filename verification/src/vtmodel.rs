//! The mathematical model of the escape-sequence interpreter.
//!
//! A [`VtState`] holds the whole observable state of the terminal pane:
//! the live grid, the bounded scrollback, the cursor, the active style,
//! and the parser state that survives chunk boundaries.  [`step`] gives
//! the effect of one input byte; [`feed_bytes`] folds it over a chunk.
//! The executable interpreter in `vt` is proved to follow this model
//! byte for byte.

use vstd::prelude::*;
use crate::style::{Color, Style, apply_sgr};

verus! {

/// One displayed cell: a glyph, a continuation marker (the second column
/// of a wide character), and the style it was written with.
#[derive(Clone, Copy, PartialEq, Eq, Structural, Debug)]
pub struct Cell {
    pub ch: char,
    pub continuation: bool,
    pub style: Style,
}

/// Parser state, which persists across `feed` calls so that an escape
/// sequence split over two reads is reassembled.
#[verifier::ext_equal]
pub ghost enum ParserV {
    /// Plain text.
    Normal,
    /// An ESC byte has been seen.
    Esc,
    /// Inside a control-sequence introducer; the buffer holds the
    /// parameter bytes collected so far.
    Csi(Seq<u8>),
    /// Inside a multi-byte UTF-8 encoding: total length, bytes so far.
    Utf8(int, Seq<u8>),
}

/// The abstract interpreter state.
#[verifier::ext_equal]
pub ghost struct VtState {
    pub cols: int,
    pub rows: int,
    /// Capacity bound of the scrollback; the oldest row is dropped once
    /// the bound is exceeded.
    pub cap: int,
    pub grid: Seq<Seq<Cell>>,
    pub scrollback: Seq<Seq<Cell>>,
    pub cx: int,
    pub cy: int,
    pub cursor_visible: bool,
    pub style: Style,
    pub parser: ParserV,
    /// Lines the view is scrolled back from the bottom.
    pub scroll_off: int,
}

pub open spec fn imin(a: int, b: int) -> int {
    if a < b { a } else { b }
}

pub open spec fn imax(a: int, b: int) -> int {
    if a > b { a } else { b }
}

/// An empty cell in the default style.
pub open spec fn blank_cell() -> Cell {
    Cell { ch: ' ', continuation: false, style: Style::default_spec() }
}

/// A row of blank cells.
pub open spec fn blank_row(cols: int) -> Seq<Cell> {
    Seq::new(cols as nat, |i: int| blank_cell())
}

/// What the result of `unicode_width::UnicodeWidthChar::width` is for a
/// character: the number of columns the glyph occupies, or `None` for a
/// control character.  The tables behind it depend on the character alone.
pub uninterp spec fn unicode_width_of(c: char) -> Option<usize>;

/// Columns a written glyph takes on the grid: printable ASCII is one
/// column; otherwise two exactly when the Unicode width tables say two.
pub open spec fn glyph_cols(c: char) -> int {
    if (c as u32) < 0x80 {
        1
    } else if unicode_width_of(c) == Some(2usize) {
        2
    } else {
        1
    }
}

/// Well-formed parser state: a UTF-8 collector holds a lead byte of the
/// announced length plus only continuation bytes, and is not complete.
pub open spec fn wf_parser(p: ParserV) -> bool {
    match p {
        ParserV::Utf8(need, acc) => {
            &&& 2 <= need <= 4
            &&& 1 <= acc.len() < need
            &&& (need == 2 ==> 0xC0 <= acc[0] <= 0xDF)
            &&& (need == 3 ==> 0xE0 <= acc[0] <= 0xEF)
            &&& (need == 4 ==> 0xF0 <= acc[0] <= 0xF7)
            &&& (forall|i: int| 1 <= i < acc.len() ==> 0x80 <= #[trigger] acc[i] < 0xC0)
        },
        _ => true,
    }
}

/// The grid invariants: dimensions match the last applied resize, the
/// cursor is in bounds (`cx == cols` marks a pending wrap), and the
/// scrollback respects its capacity.
pub open spec fn wf_state(s: VtState) -> bool {
    &&& 1 <= s.cols
    &&& 1 <= s.rows
    &&& 0 <= s.cap
    &&& s.grid.len() == s.rows
    &&& (forall|i: int| 0 <= i < s.grid.len() ==> #[trigger] s.grid[i].len() == s.cols)
    &&& s.scrollback.len() <= s.cap
    &&& 0 <= s.cx <= s.cols
    &&& 0 <= s.cy < s.rows
    &&& 0 <= s.scroll_off <= s.scrollback.len()
    &&& wf_parser(s.parser)
}

/// A fresh interpreter state of the given geometry.
pub open spec fn init_state(cols: int, rows: int, cap: int) -> VtState {
    VtState {
        cols,
        rows,
        cap,
        grid: Seq::new(rows as nat, |i: int| blank_row(cols)),
        scrollback: Seq::empty(),
        cx: 0,
        cy: 0,
        cursor_visible: true,
        style: Style::default_spec(),
        parser: ParserV::Normal,
        scroll_off: 0,
    }
}

/// Evict the top grid row into the scrollback (dropping its oldest row if
/// the capacity is exceeded), shift the rest up, and append a blank row.
pub open spec fn evict_top(s: VtState) -> VtState {
    let sb = s.scrollback.push(s.grid[0]);
    VtState {
        grid: s.grid.skip(1).push(blank_row(s.cols)),
        scrollback: if sb.len() > s.cap { sb.skip(1) } else { sb },
        ..s
    }
}

/// Move the cursor one row down, evicting the top row when the grid is
/// already full.
pub open spec fn line_feed(s: VtState) -> VtState {
    if s.cy + 1 < s.rows {
        VtState { cy: s.cy + 1, ..s }
    } else {
        evict_top(s)
    }
}

pub open spec fn set_cell(g: Seq<Seq<Cell>>, y: int, x: int, c: Cell) -> Seq<Seq<Cell>> {
    g.update(y, g[y].update(x, c))
}

/// Write a glyph at the cursor: wrap first when it would not fit, write
/// the cell (and a continuation cell for a wide glyph), and advance the
/// cursor by the glyph's width, capped at the right edge.
pub open spec fn write_glyph(s: VtState, c: char) -> VtState {
    let w = glyph_cols(c);
    let s1 = if s.cx + w > s.cols { line_feed(VtState { cx: 0, ..s }) } else { s };
    let g1 = set_cell(s1.grid, s1.cy, s1.cx, Cell { ch: c, continuation: false, style: s1.style });
    let g2 = if w == 2 && s1.cx + 1 < s1.cols {
        set_cell(g1, s1.cy, s1.cx + 1, Cell { ch: ' ', continuation: true, style: s1.style })
    } else {
        g1
    };
    VtState { grid: g2, cx: imin(s1.cx + w, s1.cols), ..s1 }
}

/// The next tab stop: the following multiple of 8, clamped to the last
/// column.
pub open spec fn tab_stop(x: int, cols: int) -> int {
    imin((x / 8 + 1) * 8, cols - 1)
}

/// Effect of a C0 control byte; unhandled controls are ignored.
pub open spec fn apply_ctrl(s: VtState, b: u8) -> VtState {
    if b == 0x0D {
        VtState { cx: 0, ..s }
    } else if b == 0x0A {
        line_feed(s)
    } else if b == 0x08 {
        VtState { cx: imax(s.cx - 1, 0), ..s }
    } else if b == 0x09 {
        VtState { cx: tab_stop(s.cx, s.cols), ..s }
    } else {
        s
    }
}

/// Numeric CSI parameters: digits accumulate (saturating at 65535),
/// `;` separates, and every other byte in the buffer is skipped.  The
/// result always holds at least one entry; an empty field reads as 0.
pub open spec fn parse_params_rec(buf: Seq<u8>, cur: u16, acc: Seq<u16>) -> Seq<u16>
    decreases buf.len(),
{
    if buf.len() == 0 {
        acc.push(cur)
    } else {
        let b = buf[0];
        if b == 0x3B {
            parse_params_rec(buf.skip(1), 0, acc.push(cur))
        } else if 0x30 <= b && b <= 0x39 {
            let v = cur * 10 + (b - 0x30);
            parse_params_rec(buf.skip(1), if v > 65535 { 65535u16 } else { v as u16 }, acc)
        } else {
            parse_params_rec(buf.skip(1), cur, acc)
        }
    }
}

pub open spec fn parse_params(buf: Seq<u8>) -> Seq<u16> {
    parse_params_rec(buf, 0, Seq::empty())
}

/// The i-th parameter, or a default when it is absent.
pub open spec fn param_or(ps: Seq<u16>, i: int, dflt: u16) -> u16 {
    if 0 <= i < ps.len() { ps[i] } else { dflt }
}

/// A count parameter: 0 (or absent) means 1.
pub open spec fn count_param(ps: Seq<u16>, i: int) -> int {
    let p = param_or(ps, i, 1);
    if p == 0 { 1 } else { p as int }
}

/// Blank out columns `[from, to)` of row `y`.
pub open spec fn clear_row_range(g: Seq<Seq<Cell>>, y: int, from: int, to: int) -> Seq<Seq<Cell>> {
    g.update(y, Seq::new(g[y].len(), |i: int| if from <= i < to { blank_cell() } else { g[y][i] }))
}

/// Blank out whole rows `[from, to)`.
pub open spec fn clear_rows(g: Seq<Seq<Cell>>, from: int, to: int, cols: int) -> Seq<Seq<Cell>> {
    Seq::new(g.len(), |i: int| if from <= i < to { blank_row(cols) } else { g[i] })
}

/// Erase in line, relative to the cursor.
pub open spec fn erase_in_line(s: VtState, mode: int) -> VtState {
    let px = imin(s.cx, s.cols - 1);
    if mode == 0 {
        VtState { grid: clear_row_range(s.grid, s.cy, px, s.cols), ..s }
    } else if mode == 1 {
        VtState { grid: clear_row_range(s.grid, s.cy, 0, px + 1), ..s }
    } else if mode == 2 {
        VtState { grid: clear_row_range(s.grid, s.cy, 0, s.cols), ..s }
    } else {
        s
    }
}

/// Erase in display, relative to the cursor.
pub open spec fn erase_in_display(s: VtState, mode: int) -> VtState {
    let px = imin(s.cx, s.cols - 1);
    if mode == 0 {
        let g1 = clear_row_range(s.grid, s.cy, px, s.cols);
        VtState { grid: clear_rows(g1, s.cy + 1, s.rows, s.cols), ..s }
    } else if mode == 1 {
        let g1 = clear_row_range(s.grid, s.cy, 0, px + 1);
        VtState { grid: clear_rows(g1, 0, s.cy, s.cols), ..s }
    } else if mode == 2 {
        VtState { grid: clear_rows(s.grid, 0, s.rows, s.cols), ..s }
    } else {
        s
    }
}

/// Dispatch a complete control sequence.  Private-mode sequences (those
/// whose buffer starts with `?`) toggle cursor visibility for parameter
/// 25 and are otherwise ignored, as is every unrecognized final byte.
pub open spec fn csi_dispatch(s: VtState, buf: Seq<u8>, fin: u8) -> VtState {
    if buf.len() > 0 && buf[0] == 0x3F {
        let ps = parse_params(buf.skip(1));
        if param_or(ps, 0, 0) == 25 && fin == 0x68 {
            VtState { cursor_visible: true, ..s }
        } else if param_or(ps, 0, 0) == 25 && fin == 0x6C {
            VtState { cursor_visible: false, ..s }
        } else {
            s
        }
    } else {
        let ps = parse_params(buf);
        if fin == 0x41 {  // CUU: cursor up
            VtState { cy: imax(s.cy - count_param(ps, 0), 0), ..s }
        } else if fin == 0x42 {  // CUD: cursor down
            VtState { cy: imin(s.cy + count_param(ps, 0), s.rows - 1), ..s }
        } else if fin == 0x43 {  // CUF: cursor forward
            VtState { cx: imin(s.cx + count_param(ps, 0), s.cols - 1), ..s }
        } else if fin == 0x44 {  // CUB: cursor back
            VtState { cx: imax(s.cx - count_param(ps, 0), 0), ..s }
        } else if fin == 0x48 || fin == 0x66 {  // CUP / HVP: absolute position
            VtState {
                cy: imin(count_param(ps, 0) - 1, s.rows - 1),
                cx: imin(count_param(ps, 1) - 1, s.cols - 1),
                ..s
            }
        } else if fin == 0x4A {  // ED: erase in display
            erase_in_display(s, param_or(ps, 0, 0) as int)
        } else if fin == 0x4B {  // EL: erase in line
            erase_in_line(s, param_or(ps, 0, 0) as int)
        } else if fin == 0x6D {  // SGR
            VtState { style: apply_sgr(s.style, ps), ..s }
        } else {
            s
        }
    }
}

/// Total bytes of a UTF-8 encoding announced by its lead byte; 0 for a
/// byte that cannot lead one.
pub open spec fn utf8_need(b: u8) -> int {
    if 0xC0 <= b <= 0xDF {
        2
    } else if 0xE0 <= b <= 0xEF {
        3
    } else if 0xF0 <= b <= 0xF7 {
        4
    } else {
        0
    }
}

/// The code point encoded by a complete lead-plus-continuations buffer.
pub open spec fn utf8_cp(acc: Seq<u8>) -> int {
    if acc.len() == 2 {
        (acc[0] - 0xC0) * 0x40 + (acc[1] - 0x80)
    } else if acc.len() == 3 {
        (acc[0] - 0xE0) * 0x1000 + (acc[1] - 0x80) * 0x40 + (acc[2] - 0x80)
    } else if acc.len() == 4 {
        (acc[0] - 0xF0) * 0x40000 + (acc[1] - 0x80) * 0x1000 + (acc[2] - 0x80) * 0x40 + (acc[3]
            - 0x80)
    } else {
        0
    }
}

/// Finish a multi-byte encoding: write the glyph when the code point is a
/// printable Unicode scalar, and drop anything else (best-effort input
/// handling never fails).
pub open spec fn finish_utf8(s: VtState, acc: Seq<u8>) -> VtState {
    let cp = utf8_cp(acc);
    if 0xA0 <= cp < 0xD800 || 0xE000 <= cp <= 0x10FFFF {
        write_glyph(s, (cp as u32) as char)
    } else {
        s
    }
}

/// One byte in the Normal, Esc, or Csi parser states.
pub open spec fn step_inner(s: VtState, b: u8) -> VtState {
    match s.parser {
        ParserV::Normal => {
            if b == 0x1B {
                VtState { parser: ParserV::Esc, ..s }
            } else if b < 0x20 || b == 0x7F {
                apply_ctrl(s, b)
            } else if b < 0x80 {
                write_glyph(s, b as char)
            } else if utf8_need(b) > 0 {
                VtState { parser: ParserV::Utf8(utf8_need(b), seq![b]), ..s }
            } else {
                s
            }
        },
        ParserV::Esc => {
            if b == 0x5B {
                VtState { parser: ParserV::Csi(Seq::empty()), ..s }
            } else if b == 0x1B {
                s
            } else {
                VtState { parser: ParserV::Normal, ..s }
            }
        },
        ParserV::Csi(buf) => {
            if (0x30 <= b && b <= 0x39) || b == 0x3B || b == 0x3F {
                VtState { parser: ParserV::Csi(buf.push(b)), ..s }
            } else if 0x40 <= b && b <= 0x7E {
                csi_dispatch(VtState { parser: ParserV::Normal, ..s }, buf, b)
            } else if b == 0x1B {
                VtState { parser: ParserV::Esc, ..s }
            } else {
                VtState { parser: ParserV::Normal, ..s }
            }
        },
        ParserV::Utf8(need, acc) => s,
    }
}

/// The transition for one input byte.  A UTF-8 collector absorbs
/// continuation bytes; any other byte abandons the partial encoding and
/// is handled as in the Normal state.
pub open spec fn step(s: VtState, b: u8) -> VtState {
    match s.parser {
        ParserV::Utf8(need, acc) => {
            if 0x80 <= b < 0xC0 {
                let acc2 = acc.push(b);
                if acc2.len() == need {
                    finish_utf8(VtState { parser: ParserV::Normal, ..s }, acc2)
                } else {
                    VtState { parser: ParserV::Utf8(need, acc2), ..s }
                }
            } else {
                step_inner(VtState { parser: ParserV::Normal, ..s }, b)
            }
        },
        _ => step_inner(s, b),
    }
}

/// The effect of feeding a whole chunk, byte by byte.
pub open spec fn feed_bytes(s: VtState, bs: Seq<u8>) -> VtState
    decreases bs.len(),
{
    if bs.len() == 0 {
        s
    } else {
        feed_bytes(step(s, bs[0]), bs.skip(1))
    }
}

/// Feeding one more byte after a chunk is one more step.
pub proof fn lemma_feed_snoc(s: VtState, bs: Seq<u8>, b: u8)
    ensures
        feed_bytes(s, bs.push(b)) == step(feed_bytes(s, bs), b),
    decreases bs.len(),
{
    if bs.len() == 0 {
        assert(bs.push(b)[0] == b);
        assert(bs.push(b).skip(1) =~= Seq::<u8>::empty());
        assert(feed_bytes(s, bs.push(b)) == feed_bytes(step(s, b), bs.push(b).skip(1)));
        assert(feed_bytes(step(s, b), Seq::<u8>::empty()) == step(s, b));
    } else {
        assert(bs.push(b)[0] == bs[0]);
        assert(bs.push(b).skip(1) =~= bs.skip(1).push(b));
        assert(feed_bytes(s, bs.push(b)) == feed_bytes(step(s, bs[0]), bs.skip(1).push(b)));
        lemma_feed_snoc(step(s, bs[0]), bs.skip(1), b);
        assert(feed_bytes(s, bs) == feed_bytes(step(s, bs[0]), bs.skip(1)));
    }
}

/// Splitting the byte stream across two `feed` calls yields the same
/// state as feeding the whole stream in one call, however the split
/// falls — even inside an escape sequence.
pub proof fn lemma_feed_chunks(s: VtState, a: Seq<u8>, b: Seq<u8>)
    ensures
        feed_bytes(feed_bytes(s, a), b) == feed_bytes(s, a + b),
    decreases a.len(),
{
    if a.len() == 0 {
        assert(a + b =~= b);
    } else {
        assert((a + b)[0] == a[0]);
        assert((a + b).skip(1) =~= a.skip(1) + b);
        lemma_feed_chunks(step(s, a[0]), a.skip(1), b);
    }
}

/// The first `k` cells a run of `b` glyphs fills, the rest blank.
pub open spec fn filled_row(cols: int, k: int, b: u8, st: Style) -> Seq<Cell> {
    Seq::new(
        cols as nat,
        |x: int|
            if x < k {
                Cell { ch: b as char, continuation: false, style: st }
            } else {
                blank_cell()
            },
    )
}

/// Feeding `k <= cols` printable ASCII glyphs into a fresh one-row grid
/// fills the first `k` cells and moves the cursor to column `k`,
/// without touching the scrollback.
proof fn lemma_fill_row(s: VtState, b: u8, k: int)
    requires
        wf_state(s),
        s.rows == 1,
        s.cx == 0,
        s.cy == 0,
        s.grid[0] == blank_row(s.cols),
        s.parser is Normal,
        0x20 <= b <= 0x7E,
        0 <= k <= s.cols,
    ensures
        feed_bytes(s, Seq::new(k as nat, |i: int| b)) == (VtState {
            grid: seq![filled_row(s.cols, k, b, s.style)],
            cx: k,
            ..s
        }),
    decreases k,
{
    if k == 0 {
        assert(Seq::new(0, |i: int| b) =~= Seq::<u8>::empty());
        assert(filled_row(s.cols, 0, b, s.style) =~= blank_row(s.cols));
        assert(s =~~= (VtState { grid: seq![filled_row(s.cols, 0, b, s.style)], cx: 0, ..s }));
    } else {
        lemma_fill_row(s, b, k - 1);
        let bs0 = Seq::new((k - 1) as nat, |i: int| b);
        let bs = Seq::new(k as nat, |i: int| b);
        assert(bs =~= bs0.push(b));
        lemma_feed_snoc(s, bs0, b);
        let t = VtState { grid: seq![filled_row(s.cols, k - 1, b, s.style)], cx: k - 1, ..s };
        assert(feed_bytes(s, bs0) == t);
        assert(glyph_cols(b as char) == 1);
        assert(step(t, b) =~~= (VtState { grid: seq![filled_row(s.cols, k, b, s.style)], cx: k, ..s }))
            by {
            assert(step(t, b) == write_glyph(t, b as char));
            assert(set_cell(t.grid, 0, k - 1, Cell { ch: b as char, continuation: false, style: t.style })
                =~~= seq![filled_row(s.cols, k, b, s.style)]);
        }
    }
}

/// Writing one glyph past the end of a full one-row grid evicts exactly
/// one row into the scrollback — its length grows by exactly one when it
/// has room — and leaves exactly that one glyph on the new current row.
pub proof fn lemma_overflow_evicts_once(s: VtState, b: u8)
    requires
        wf_state(s),
        s.rows == 1,
        s.cx == 0,
        s.cy == 0,
        s.grid[0] == blank_row(s.cols),
        s.parser is Normal,
        s.scrollback.len() < s.cap,
        0x20 <= b <= 0x7E,
    ensures
        ({
            let t = feed_bytes(s, Seq::new((s.cols + 1) as nat, |i: int| b));
            &&& t.scrollback.len() == s.scrollback.len() + 1
            &&& t.scrollback.last() == filled_row(s.cols, s.cols, b, s.style)
            &&& t.grid.len() == 1
            &&& t.grid[0] == filled_row(s.cols, 1, b, s.style)
            &&& t.cx == 1
            &&& t.cy == 0
        }),
{
    lemma_fill_row(s, b, s.cols);
    let bs0 = Seq::new(s.cols as nat, |i: int| b);
    let bs = Seq::new((s.cols + 1) as nat, |i: int| b);
    assert(bs =~= bs0.push(b));
    lemma_feed_snoc(s, bs0, b);
    let t = VtState { grid: seq![filled_row(s.cols, s.cols, b, s.style)], cx: s.cols, ..s };
    assert(feed_bytes(s, bs0) == t);
    assert(glyph_cols(b as char) == 1);
    // the write would exceed the column count: wrap, which evicts the
    // full row, then write at the origin of the fresh row
    let w = line_feed(VtState { cx: 0, ..t });
    assert(w.scrollback =~= s.scrollback.push(filled_row(s.cols, s.cols, b, s.style)));
    assert(w.grid =~= seq![blank_row(s.cols)]);
    let u = step(t, b);
    assert(u == write_glyph(t, b as char));
    assert(u.grid =~~= seq![filled_row(s.cols, 1, b, s.style)]) by {
        assert(set_cell(w.grid, 0, 0, Cell { ch: b as char, continuation: false, style: s.style })
            =~~= seq![filled_row(s.cols, 1, b, s.style)]);
    }
}

/// A row truncated or padded to the given width.
pub open spec fn resize_row(row: Seq<Cell>, c: int) -> Seq<Cell> {
    Seq::new(c as nat, |i: int| if i < row.len() { row[i] } else { blank_cell() })
}

/// Resize: rows are clipped or padded, removed rows are discarded (never
/// scrolled), and the cursor is clamped into the new bounds.
pub open spec fn resize_state(s: VtState, c: int, r: int) -> VtState {
    VtState {
        cols: c,
        rows: r,
        grid: Seq::new(r as nat, |i: int| if i < s.grid.len() { resize_row(s.grid[i], c) } else { blank_row(c) }),
        cx: imin(s.cx, c - 1),
        cy: imin(s.cy, r - 1),
        ..s
    }
}

} // verus!
