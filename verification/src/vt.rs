//! The executable escape-sequence interpreter.
//!
//! [`VtInterpreter`] consumes raw bytes incrementally and owns the grid,
//! scrollback, cursor, and active style.  Every mutation is proved to
//! follow the model in `vtmodel`: `feed` ensures the state equals
//! [`feed_bytes`] of the old state, so arbitrary chunking of the input
//! cannot change the outcome.

use vstd::prelude::*;
use crate::style::{Style, sgr_update};
use crate::vtmodel::{
    Cell, ParserV, VtState, apply_ctrl, blank_cell, blank_row, count_param, csi_dispatch,
    feed_bytes, finish_utf8, glyph_cols, imax, imin, init_state, line_feed, parse_params,
    parse_params_rec, resize_row, resize_state, set_cell, step, step_inner, unicode_width_of,
    utf8_cp, wf_state, write_glyph, clear_row_range, clear_rows,
};
use vstd::utf8::is_scalar;

verus! {

/// Relies on `unicode_width::UnicodeWidthChar::width`: the display width
/// of the character per the Unicode tables (`None` for a control
/// character), a function of the character alone.
#[verifier::external_body]
fn char_width(c: char) -> (r: Option<usize>)
    ensures
        r == unicode_width_of(c),
{
    unicode_width::UnicodeWidthChar::width(c)
}

/// Relies on `char::from_u32`: `Some` exactly for Unicode scalar values,
/// returning the character with that code point.
pub assume_specification[ char::from_u32 ](i: u32) -> (r: Option<char>)
    ensures
        is_scalar(i) ==> r == Some(i as char),
        !is_scalar(i) ==> r is None,
;

/// The sequence of rows a `Vec` grid stands for.
pub open spec fn grid_view(g: Vec<Vec<Cell>>) -> Seq<Seq<Cell>> {
    Seq::new(g@.len(), |i: int| g@[i]@)
}

/// Executable parser state; see [`ParserV`] for the meaning.
pub enum ParserState {
    Normal,
    Esc,
    Csi(Vec<u8>),
    Utf8(u8, Vec<u8>),
}

impl View for ParserState {
    type V = ParserV;

    closed spec fn view(&self) -> ParserV {
        match self {
            ParserState::Normal => ParserV::Normal,
            ParserState::Esc => ParserV::Esc,
            ParserState::Csi(buf) => ParserV::Csi(buf@),
            ParserState::Utf8(need, acc) => ParserV::Utf8(*need as int, acc@),
        }
    }
}

/// The incremental ANSI/VT100 interpreter: live grid, bounded
/// scrollback, cursor, active style, and the parser state that makes
/// `feed` safe under arbitrary chunking.
pub struct VtInterpreter {
    cols: usize,
    rows: usize,
    cap: usize,
    grid: Vec<Vec<Cell>>,
    scrollback: Vec<Vec<Cell>>,
    cx: usize,
    cy: usize,
    cursor_visible: bool,
    style: Style,
    parser: ParserState,
    scroll_off: usize,
}

impl View for VtInterpreter {
    type V = VtState;

    closed spec fn view(&self) -> VtState {
        VtState {
            cols: self.cols as int,
            rows: self.rows as int,
            cap: self.cap as int,
            grid: grid_view(self.grid),
            scrollback: grid_view(self.scrollback),
            cx: self.cx as int,
            cy: self.cy as int,
            cursor_visible: self.cursor_visible,
            style: self.style,
            parser: self.parser@,
            scroll_off: self.scroll_off as int,
        }
    }
}

/// A blank cell in the default style.
fn mk_blank_cell() -> (r: Cell)
    ensures
        r == blank_cell(),
{
    Cell { ch: ' ', continuation: false, style: Style::plain() }
}

/// A row of `cols` blank cells.
fn mk_blank_row(cols: usize) -> (r: Vec<Cell>)
    ensures
        r@ == blank_row(cols as int),
{
    let mut r: Vec<Cell> = Vec::new();
    let mut i: usize = 0;
    while i < cols
        invariant
            i <= cols,
            r@.len() == i,
            forall|j: int| 0 <= j < i ==> r@[j] == blank_cell(),
        decreases cols - i,
    {
        r.push(mk_blank_cell());
        i = i + 1;
    }
    proof {
        assert(r@ =~= blank_row(cols as int));
    }
    r
}

/// Replace the cell at `(x, y)`.
fn put_cell(g: &mut Vec<Vec<Cell>>, y: usize, x: usize, c: Cell)
    requires
        y < old(g).len(),
        x < old(g)@[y as int]@.len(),
    ensures
        grid_view(*final(g)) == set_cell(grid_view(*old(g)), y as int, x as int, c),
        final(g).len() == old(g).len(),
        forall|i: int| 0 <= i < old(g)@.len() ==> #[trigger] final(g)@[i]@.len() == old(g)@[i]@.len(),
{
    let row = &mut g[y];
    row.set(x, c);
    proof {
        assert(grid_view(*final(g)) =~~= set_cell(grid_view(*old(g)), y as int, x as int, c));
    }
}

impl VtInterpreter {
    /// The grid and parser invariants; established by `new` and kept by
    /// every method.
    pub open spec fn wf(&self) -> bool {
        &&& wf_state(self@)
        &&& self@.cols <= 0xFFFF
        &&& self@.rows <= 0xFFFF
    }

    /// A fresh interpreter: a blank `cols` x `rows` grid, empty
    /// scrollback bounded by `cap` rows, cursor at the origin and
    /// visible, default style.
    pub fn new(cols: usize, rows: usize, cap: usize) -> (r: VtInterpreter)
        requires
            1 <= cols <= 0xFFFF,
            1 <= rows <= 0xFFFF,
        ensures
            r@ == init_state(cols as int, rows as int, cap as int),
            r.wf(),
    {
        let mut grid: Vec<Vec<Cell>> = Vec::new();
        let mut i: usize = 0;
        while i < rows
            invariant
                i <= rows,
                grid@.len() == i,
                forall|j: int| 0 <= j < i ==> #[trigger] grid@[j]@ == blank_row(cols as int),
            decreases rows - i,
        {
            grid.push(mk_blank_row(cols));
            i = i + 1;
        }
        let r = VtInterpreter {
            cols,
            rows,
            cap,
            grid,
            scrollback: Vec::new(),
            cx: 0,
            cy: 0,
            cursor_visible: true,
            style: Style::plain(),
            parser: ParserState::Normal,
            scroll_off: 0,
        };
        proof {
            assert(r@ =~~= init_state(cols as int, rows as int, cap as int));
        }
        r
    }

    /// Move the cursor one row down, evicting the top row into the
    /// scrollback when the grid is full.
    fn do_line_feed(&mut self)
        requires
            old(self).wf(),
        ensures
            final(self)@ == line_feed(old(self)@),
            final(self).wf(),
            final(self)@.cols == old(self)@.cols,
            final(self)@.rows == old(self)@.rows,
    {
        if self.cy + 1 < self.rows {
            self.cy = self.cy + 1;
            proof {
                assert(self@ =~~= line_feed(old(self)@));
            }
        } else {
            let row0 = self.grid.remove(0);
            self.scrollback.push(row0);
            if self.scrollback.len() > self.cap {
                self.scrollback.remove(0);
            }
            let blank = mk_blank_row(self.cols);
            self.grid.push(blank);
            proof {
                assert(grid_view(self.grid) =~~= old(self)@.grid.skip(1).push(blank_row(old(self)@.cols)));
                let sb = old(self)@.scrollback.push(old(self)@.grid[0]);
                if sb.len() > old(self)@.cap {
                    assert(grid_view(self.scrollback) =~~= sb.skip(1));
                } else {
                    assert(grid_view(self.scrollback) =~~= sb);
                }
                assert(self@ =~~= line_feed(old(self)@));
            }
        }
    }

    /// Write one glyph of the given width at the cursor, wrapping first
    /// when it would not fit.
    fn do_write_glyph(&mut self, c: char, w: usize)
        requires
            old(self).wf(),
            w as int == glyph_cols(c),
        ensures
            final(self)@ == write_glyph(old(self)@, c),
            final(self).wf(),
    {
        proof {
            assert(1 <= glyph_cols(c) <= 2);
        }
        if self.cx + w > self.cols {
            self.cx = 0;
            self.do_line_feed();
        }
        let ghost s1 = if old(self)@.cx + w > old(self)@.cols {
            line_feed(VtState { cx: 0, ..old(self)@ })
        } else {
            old(self)@
        };
        proof {
            assert(self@ =~~= s1);
        }
        let cell = Cell { ch: c, continuation: false, style: self.style };
        put_cell(&mut self.grid, self.cy, self.cx, cell);
        if w == 2 && self.cx + 1 < self.cols {
            let cont = Cell { ch: ' ', continuation: true, style: self.style };
            put_cell(&mut self.grid, self.cy, self.cx + 1, cont);
        }
        self.cx = if self.cx + w <= self.cols {
            self.cx + w
        } else {
            self.cols
        };
        proof {
            assert(self@ =~~= write_glyph(old(self)@, c));
        }
    }

    /// Apply a C0 control byte.
    fn do_ctrl(&mut self, b: u8)
        requires
            old(self).wf(),
        ensures
            final(self)@ == apply_ctrl(old(self)@, b),
            final(self).wf(),
    {
        if b == 0x0D {
            self.cx = 0;
        } else if b == 0x0A {
            self.do_line_feed();
        } else if b == 0x08 {
            if self.cx > 0 {
                self.cx = self.cx - 1;
            }
        } else if b == 0x09 {
            let t = (self.cx / 8 + 1) * 8;
            self.cx = if t <= self.cols - 1 {
                t
            } else {
                self.cols - 1
            };
        }
        proof {
            assert(self@ =~~= apply_ctrl(old(self)@, b));
        }
    }

    /// Blank out columns `[from, to)` of row `y`.
    fn do_clear_cols(&mut self, y: usize, from: usize, to: usize)
        requires
            old(self).wf(),
            y < old(self)@.grid.len(),
            from <= to <= old(self)@.cols,
        ensures
            final(self)@ == (VtState { grid: clear_row_range(old(self)@.grid, y as int, from as int, to as int), ..old(self)@ }),
            final(self).wf(),
    {
        let mut x = from;
        while x < to
            invariant
                from <= x <= to,
                to <= old(self)@.cols,
                y < old(self)@.grid.len(),
                old(self).wf(),
                self.wf(),
                self@ =~~= (VtState { grid: clear_row_range(old(self)@.grid, y as int, from as int, x as int), ..old(self)@ }),
            decreases to - x,
        {
            proof {
                assert(self@.grid[y as int].len() == old(self)@.grid[y as int].len());
                assert(old(self)@.grid[y as int].len() == old(self)@.cols);
            }
            put_cell(&mut self.grid, y, x, mk_blank_cell());
            x = x + 1;
            proof {
                assert(self@.grid =~~= clear_row_range(old(self)@.grid, y as int, from as int, x as int));
            }
        }
        proof {
            assert(self@ =~~= (VtState { grid: clear_row_range(old(self)@.grid, y as int, from as int, to as int), ..old(self)@ }));
        }
    }

    /// Blank out whole rows `[from, to)`.
    fn do_clear_rows(&mut self, from: usize, to: usize)
        requires
            old(self).wf(),
            from <= to <= old(self)@.rows,
        ensures
            final(self)@ == (VtState { grid: clear_rows(old(self)@.grid, from as int, to as int, old(self)@.cols), ..old(self)@ }),
            final(self).wf(),
    {
        let mut y = from;
        while y < to
            invariant
                from <= y <= to,
                to <= old(self)@.rows,
                old(self).wf(),
                self.wf(),
                self@ =~~= (VtState { grid: clear_rows(old(self)@.grid, from as int, y as int, old(self)@.cols), ..old(self)@ }),
            decreases to - y,
        {
            let ghost prev = self@.grid;
            let blank = mk_blank_row(self.cols);
            self.grid.set(y, blank);
            y = y + 1;
            proof {
                let g0 = old(self)@.grid;
                let c0 = old(self)@.cols;
                assert forall|i: int| 0 <= i < g0.len() implies #[trigger] grid_view(self.grid)[i]
                    == clear_rows(g0, from as int, y as int, c0)[i] by {
                    if i == y - 1 {
                        assert(grid_view(self.grid)[i] == blank_row(c0));
                    } else {
                        assert(grid_view(self.grid)[i] == prev[i]);
                        assert(prev[i] == clear_rows(g0, from as int, y as int - 1, c0)[i]);
                    }
                }
                assert(self@.grid =~~= clear_rows(old(self)@.grid, from as int, y as int, old(self)@.cols));
            }
        }
        proof {
            assert(self@ =~~= (VtState { grid: clear_rows(old(self)@.grid, from as int, to as int, old(self)@.cols), ..old(self)@ }));
        }
    }

    /// Dispatch a complete control sequence whose parameter buffer is
    /// `buf` and final byte is `fin`.
    fn do_csi(&mut self, buf: &Vec<u8>, fin: u8)
        requires
            old(self).wf(),
            old(self)@.parser is Normal,
        ensures
            final(self)@ == csi_dispatch(old(self)@, buf@, fin),
            final(self).wf(),
    {
        if buf.len() > 0 && buf[0] == 0x3F {
            let rest = buf_suffix(buf);
            let ps = do_parse_params(&rest);
            let p0 = if ps.len() > 0 { ps[0] } else { 0 };
            if p0 == 25 && fin == 0x68 {
                self.cursor_visible = true;
            } else if p0 == 25 && fin == 0x6C {
                self.cursor_visible = false;
            }
            proof {
                assert(self@ =~~= csi_dispatch(old(self)@, buf@, fin));
            }
        } else {
            let ps = do_parse_params(buf);
            if fin == 0x41 {
                let n = get_count(&ps, 0);
                self.cy = if self.cy > n { self.cy - n } else { 0 };
            } else if fin == 0x42 {
                let n = get_count(&ps, 0);
                let lim = self.rows - 1;
                self.cy = if self.cy + n < lim { self.cy + n } else { lim };
            } else if fin == 0x43 {
                let n = get_count(&ps, 0);
                let lim = self.cols - 1;
                self.cx = if self.cx + n < lim { self.cx + n } else { lim };
            } else if fin == 0x44 {
                let n = get_count(&ps, 0);
                self.cx = if self.cx > n { self.cx - n } else { 0 };
            } else if fin == 0x48 || fin == 0x66 {
                let row = get_count(&ps, 0);
                let col = get_count(&ps, 1);
                self.cy = if row - 1 < self.rows - 1 { row - 1 } else { self.rows - 1 };
                self.cx = if col - 1 < self.cols - 1 { col - 1 } else { self.cols - 1 };
            } else if fin == 0x4A {
                let mode = if ps.len() > 0 { ps[0] } else { 0 };
                let px = if self.cx < self.cols - 1 { self.cx } else { self.cols - 1 };
                if mode == 0 {
                    self.do_clear_cols(self.cy, px, self.cols);
                    let cy1 = self.cy + 1;
                    self.do_clear_rows(cy1, self.rows);
                } else if mode == 1 {
                    self.do_clear_cols(self.cy, 0, px + 1);
                    self.do_clear_rows(0, self.cy);
                } else if mode == 2 {
                    self.do_clear_rows(0, self.rows);
                }
            } else if fin == 0x4B {
                let mode = if ps.len() > 0 { ps[0] } else { 0 };
                let px = if self.cx < self.cols - 1 { self.cx } else { self.cols - 1 };
                if mode == 0 {
                    self.do_clear_cols(self.cy, px, self.cols);
                } else if mode == 1 {
                    self.do_clear_cols(self.cy, 0, px + 1);
                } else if mode == 2 {
                    self.do_clear_cols(self.cy, 0, self.cols);
                }
            } else if fin == 0x6D {
                self.style = sgr_update(self.style, &ps);
            }
            proof {
                assert(self@ =~~= csi_dispatch(old(self)@, buf@, fin));
            }
        }
    }

    /// Complete a multi-byte UTF-8 encoding and write the glyph when it
    /// is a printable scalar value.
    fn do_finish_utf8(&mut self, acc: &Vec<u8>)
        requires
            old(self).wf(),
            old(self)@.parser is Normal,
            2 <= acc@.len() <= 4,
            acc@.len() == 2 ==> 0xC0 <= acc@[0] <= 0xDF,
            acc@.len() == 3 ==> 0xE0 <= acc@[0] <= 0xEF,
            acc@.len() == 4 ==> 0xF0 <= acc@[0] <= 0xF7,
            forall|i: int| 1 <= i < acc@.len() ==> 0x80 <= #[trigger] acc@[i] < 0xC0,
        ensures
            final(self)@ == finish_utf8(old(self)@, acc@),
            final(self).wf(),
    {
        let cp: u32;
        if acc.len() == 2 {
            cp = (acc[0] - 0xC0) as u32 * 0x40 + (acc[1] - 0x80) as u32;
        } else if acc.len() == 3 {
            cp = (acc[0] - 0xE0) as u32 * 0x1000 + (acc[1] - 0x80) as u32 * 0x40 + (acc[2]
                - 0x80) as u32;
        } else {
            cp = (acc[0] - 0xF0) as u32 * 0x40000 + (acc[1] - 0x80) as u32 * 0x1000 + (acc[2]
                - 0x80) as u32 * 0x40 + (acc[3] - 0x80) as u32;
        }
        proof {
            assert(cp as int == utf8_cp(acc@));
        }
        if (0xA0 <= cp && cp < 0xD800) || (0xE000 <= cp && cp <= 0x10FFFF) {
            let c = char::from_u32(cp).unwrap();
            let w = match char_width(c) {
                Some(wid) => if wid == 2 { 2 } else { 1 },
                None => 1,
            };
            proof {
                assert((c as u32) >= 0x80);
                assert(w as int == glyph_cols(c));
            }
            self.do_write_glyph(c, w);
        }
        proof {
            assert(self@ =~~= finish_utf8(old(self)@, acc@));
        }
    }

    /// Handle one byte in the Normal parser state.
    fn normal_byte(&mut self, b: u8)
        requires
            old(self).wf(),
            old(self)@.parser is Normal,
        ensures
            final(self)@ == step_inner(old(self)@, b),
            final(self).wf(),
    {
        if b == 0x1B {
            self.parser = ParserState::Esc;
        } else if b < 0x20 || b == 0x7F {
            self.do_ctrl(b);
        } else if b < 0x80 {
            self.do_write_glyph(b as char, 1);
        } else if 0xC0 <= b && b <= 0xF7 {
            let need: u8 = if b <= 0xDF {
                2
            } else if b <= 0xEF {
                3
            } else {
                4
            };
            let mut acc: Vec<u8> = Vec::new();
            acc.push(b);
            proof {
                assert(acc@ =~= seq![b]);
            }
            self.parser = ParserState::Utf8(need, acc);
        }
        proof {
            assert(self@ =~~= step_inner(old(self)@, b));
        }
    }

    /// Process one input byte.
    fn feed_byte(&mut self, b: u8)
        requires
            old(self).wf(),
        ensures
            final(self)@ == step(old(self)@, b),
            final(self).wf(),
    {
        let mut st = ParserState::Normal;
        core::mem::swap(&mut st, &mut self.parser);
        match st {
            ParserState::Normal => {
                self.normal_byte(b);
            },
            ParserState::Esc => {
                if b == 0x5B {
                    self.parser = ParserState::Csi(Vec::new());
                    proof {
                        assert(self@.parser =~~= ParserV::Csi(Seq::empty()));
                    }
                } else if b == 0x1B {
                    self.parser = ParserState::Esc;
                }
                // otherwise the byte is an unsupported single-character
                // escape: ignore it and return to Normal.
            },
            ParserState::Csi(mut buf) => {
                if (0x30 <= b && b <= 0x39) || b == 0x3B || b == 0x3F {
                    buf.push(b);
                    self.parser = ParserState::Csi(buf);
                } else if 0x40 <= b && b <= 0x7E {
                    self.do_csi(&buf, b);
                } else if b == 0x1B {
                    self.parser = ParserState::Esc;
                }
            },
            ParserState::Utf8(need, mut acc) => {
                if 0x80 <= b && b < 0xC0 {
                    acc.push(b);
                    if acc.len() == need as usize {
                        self.do_finish_utf8(&acc);
                    } else {
                        self.parser = ParserState::Utf8(need, acc);
                    }
                } else {
                    self.normal_byte(b);
                }
            },
        }
        proof {
            assert(self@ =~~= step(old(self)@, b));
        }
    }

    /// Feed a chunk of raw bytes.  The parser state lives in the
    /// interpreter, so an escape sequence split across two calls is
    /// reassembled exactly as if the stream had arrived whole.
    pub fn feed(&mut self, bytes: &[u8])
        requires
            old(self).wf(),
        ensures
            final(self)@ == feed_bytes(old(self)@, bytes@),
            final(self).wf(),
    {
        let n = bytes.len();
        let mut i: usize = 0;
        proof {
            assert(bytes@.take(0) =~= Seq::<u8>::empty());
        }
        while i < n
            invariant
                i <= n,
                n == bytes@.len(),
                self.wf(),
                self@ == feed_bytes(old(self)@, bytes@.take(i as int)),
            decreases n - i,
        {
            let b = bytes[i];
            proof {
                crate::vtmodel::lemma_feed_snoc(old(self)@, bytes@.take(i as int), b);
                assert(bytes@.take(i as int).push(b) =~= bytes@.take(i as int + 1));
            }
            self.feed_byte(b);
            i = i + 1;
        }
        proof {
            assert(bytes@.take(n as int) =~= bytes@);
        }
    }

    /// Resize the grid: every row is clipped or padded to `cols`, the row
    /// count to `rows`; removed rows are discarded, never scrolled; the
    /// cursor is clamped into the new bounds.  Zero (or out-of-range)
    /// dimensions are rejected and the previous geometry is kept.
    pub fn resize(&mut self, cols: usize, rows: usize) -> (ok: bool)
        requires
            old(self).wf(),
        ensures
            final(self).wf(),
            ok <==> (1 <= cols <= 0xFFFF && 1 <= rows <= 0xFFFF),
            ok ==> final(self)@ == resize_state(old(self)@, cols as int, rows as int),
            !ok ==> final(self)@ == old(self)@,
            // after a successful resize the grid has exactly `rows` rows,
            // each of length exactly `cols`
            ok ==> final(self)@.grid.len() == rows as int,
            ok ==> forall|i: int|
                0 <= i < rows as int ==> #[trigger] final(self)@.grid[i].len() == cols as int,
    {
        if cols == 0 || rows == 0 || cols > 0xFFFF || rows > 0xFFFF {
            return false;
        }
        let mut new_grid: Vec<Vec<Cell>> = Vec::new();
        let mut y: usize = 0;
        while y < rows
            invariant
                y <= rows,
                1 <= cols <= 0xFFFF,
                old(self).wf(),
                self == old(self),
                new_grid@.len() == y,
                forall|i: int|
                    0 <= i < y ==> #[trigger] new_grid@[i]@ == (if i < old(self)@.grid.len() {
                        resize_row(old(self)@.grid[i], cols as int)
                    } else {
                        blank_row(cols as int)
                    }),
            decreases rows - y,
        {
            if y < self.grid.len() {
                let mut row: Vec<Cell> = Vec::new();
                let mut x: usize = 0;
                while x < cols
                    invariant
                        x <= cols,
                        y < self.grid@.len(),
                        row@.len() == x,
                        forall|j: int|
                            0 <= j < x ==> #[trigger] row@[j] == (if j < self.grid@[y as int]@.len() {
                                self.grid@[y as int]@[j]
                            } else {
                                blank_cell()
                            }),
                    decreases cols - x,
                {
                    if x < self.grid[y].len() {
                        let c = self.grid[y][x];
                        row.push(c);
                    } else {
                        row.push(mk_blank_cell());
                    }
                    x = x + 1;
                }
                proof {
                    assert(row@ =~= resize_row(old(self)@.grid[y as int], cols as int));
                }
                new_grid.push(row);
            } else {
                new_grid.push(mk_blank_row(cols));
            }
            y = y + 1;
        }
        self.grid = new_grid;
        self.cols = cols;
        self.rows = rows;
        if self.cx > cols - 1 {
            self.cx = cols - 1;
        }
        if self.cy > rows - 1 {
            self.cy = rows - 1;
        }
        proof {
            assert(self@ =~~= resize_state(old(self)@, cols as int, rows as int));
        }
        true
    }

    /// The live grid, top row first.
    pub fn get_grid(&self) -> (r: &Vec<Vec<Cell>>)
        ensures
            grid_view(*r) == self@.grid,
    {
        &self.grid
    }

    /// The scrollback rows, oldest first.
    pub fn get_scrollback(&self) -> (r: &Vec<Vec<Cell>>)
        ensures
            grid_view(*r) == self@.scrollback,
    {
        &self.scrollback
    }

    /// Cursor position and visibility.
    pub fn get_cursor(&self) -> (r: (usize, usize, bool))
        ensures
            r.0 as int == self@.cx,
            r.1 as int == self@.cy,
            r.2 == self@.cursor_visible,
    {
        (self.cx, self.cy, self.cursor_visible)
    }

    pub fn get_cols(&self) -> (r: usize)
        ensures
            r as int == self@.cols,
    {
        self.cols
    }

    pub fn get_rows(&self) -> (r: usize)
        ensures
            r as int == self@.rows,
    {
        self.rows
    }

    /// Lines the view is scrolled back from the bottom.
    pub fn get_scroll_offset(&self) -> (r: usize)
        ensures
            r as int == self@.scroll_off,
    {
        self.scroll_off
    }

    /// Scroll the view back by `n` lines, clamped to the scrollback.
    pub fn scroll_up(&mut self, n: usize)
        requires
            old(self).wf(),
        ensures
            final(self).wf(),
            final(self)@ == (VtState {
                scroll_off: imin(old(self)@.scroll_off + n, old(self)@.scrollback.len() as int),
                ..old(self)@
            }),
    {
        let lim = self.scrollback.len();
        self.scroll_off = if n < lim - self.scroll_off {
            self.scroll_off + n
        } else {
            lim
        };
        proof {
            assert(self@ =~~= (VtState {
                scroll_off: imin(old(self)@.scroll_off + n, old(self)@.scrollback.len() as int),
                ..old(self)@
            }));
        }
    }

    /// Scroll the view forward by `n` lines, clamped at the bottom.
    pub fn scroll_down(&mut self, n: usize)
        requires
            old(self).wf(),
        ensures
            final(self).wf(),
            final(self)@ == (VtState {
                scroll_off: imax(old(self)@.scroll_off - n, 0),
                ..old(self)@
            }),
    {
        self.scroll_off = if self.scroll_off > n {
            self.scroll_off - n
        } else {
            0
        };
        proof {
            assert(self@ =~~= (VtState {
                scroll_off: imax(old(self)@.scroll_off - n, 0),
                ..old(self)@
            }));
        }
    }
}

/// The buffer without its leading byte.
fn buf_suffix(buf: &Vec<u8>) -> (r: Vec<u8>)
    requires
        buf@.len() >= 1,
    ensures
        r@ == buf@.skip(1),
{
    let mut r: Vec<u8> = Vec::new();
    let mut i: usize = 1;
    while i < buf.len()
        invariant
            1 <= i <= buf@.len(),
            r@.len() == i - 1,
            forall|j: int| 0 <= j < i - 1 ==> r@[j] == buf@[j + 1],
        decreases buf@.len() - i,
    {
        r.push(buf[i]);
        i = i + 1;
    }
    proof {
        assert(r@ =~= buf@.skip(1));
    }
    r
}

/// Parse the numeric parameters of a control sequence.
fn do_parse_params(buf: &Vec<u8>) -> (r: Vec<u16>)
    ensures
        r@ == parse_params(buf@),
        r@.len() >= 1,
{
    let mut acc: Vec<u16> = Vec::new();
    let mut cur: u16 = 0;
    let mut i: usize = 0;
    proof {
        assert(buf@.skip(0) =~= buf@);
    }
    while i < buf.len()
        invariant
            i <= buf@.len(),
            parse_params(buf@) == parse_params_rec(buf@.skip(i as int), cur, acc@),
        decreases buf@.len() - i,
    {
        let b = buf[i];
        proof {
            assert(buf@.skip(i as int)[0] == buf@[i as int]);
            assert(buf@.skip(i as int).skip(1) =~= buf@.skip(i as int + 1));
        }
        if b == 0x3B {
            acc.push(cur);
            cur = 0;
        } else if 0x30 <= b && b <= 0x39 {
            let v: u32 = cur as u32 * 10 + (b - 0x30) as u32;
            cur = if v > 65535 {
                65535
            } else {
                v as u16
            };
        }
        i = i + 1;
    }
    acc.push(cur);
    proof {
        assert(buf@.skip(buf@.len() as int) =~= Seq::<u8>::empty());
        lemma_parse_params_rec_len(buf@, 0, Seq::empty());
    }
    acc
}

/// `parse_params` always yields at least one entry.
proof fn lemma_parse_params_rec_len(buf: Seq<u8>, cur: u16, acc: Seq<u16>)
    ensures
        parse_params_rec(buf, cur, acc).len() >= acc.len() + 1,
    decreases buf.len(),
{
    if buf.len() == 0 {
    } else {
        let b = buf[0];
        if b == 0x3B {
            lemma_parse_params_rec_len(buf.skip(1), 0, acc.push(cur));
        } else if 0x30 <= b && b <= 0x39 {
            let v = cur * 10 + (b - 0x30);
            lemma_parse_params_rec_len(buf.skip(1), if v > 65535 { 65535u16 } else { v as u16 }, acc);
        } else {
            lemma_parse_params_rec_len(buf.skip(1), cur, acc);
        }
    }
}

/// The i-th count parameter: absent or zero reads as one.
fn get_count(ps: &Vec<u16>, i: usize) -> (r: usize)
    ensures
        r as int == count_param(ps@, i as int),
        1 <= r <= 65535,
{
    let p = if i < ps.len() {
        ps[i]
    } else {
        1
    };
    if p == 0 {
        1
    } else {
        p as usize
    }
}

} // verus!
