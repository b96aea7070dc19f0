//! Selection over the combined scrollback-plus-grid coordinate space.
//!
//! Anchors are stored with row indices counted from the top of the
//! scrollback, so a selection stays geometrically stable while the view
//! scrolls.  Membership follows reading order — rows compare first,
//! columns break ties; interior rows are fully selected, the first and
//! last rows from and to the respective anchor columns.

use vstd::prelude::*;
use crate::vtmodel::{Cell, imin};
use crate::vt::grid_view;

verus! {

/// Relies on `String::push`: appends one character to the string.
pub assume_specification[ String::push ](s: &mut String, ch: char)
    ensures
        final(s)@ == old(s)@.push(ch),
;

/// Abstract selection state: both endpoints as `(column, row)` pairs in
/// combined coordinates.
pub ghost struct SelView {
    pub active: bool,
    pub anchor: (int, int),
    pub head: (int, int),
}

/// Reading order on `(column, row)` points: row first, column as the
/// tie-break.
pub open spec fn point_le(a: (int, int), b: (int, int)) -> bool {
    a.1 < b.1 || (a.1 == b.1 && a.0 <= b.0)
}

/// The earlier of the two endpoints in reading order.
pub open spec fn sel_first(a: (int, int), b: (int, int)) -> (int, int) {
    if point_le(a, b) { a } else { b }
}

/// The later of the two endpoints in reading order.
pub open spec fn sel_last(a: (int, int), b: (int, int)) -> (int, int) {
    if point_le(a, b) { b } else { a }
}

/// Whether `(col, row)` lies within the normalized span `[a, b]`:
/// interior rows wholly, the first row from its anchor column, the last
/// row up to its anchor column.
pub open spec fn sel_contains(a: (int, int), b: (int, int), col: int, row: int) -> bool {
    let s = sel_first(a, b);
    let e = sel_last(a, b);
    &&& s.1 <= row <= e.1
    &&& (row > s.1 || col >= s.0)
    &&& (row < e.1 || col <= e.0)
}

/// Row `r` of the combined space: scrollback rows first (oldest at 0),
/// then the live grid.
pub open spec fn combined_row(g: Seq<Seq<Cell>>, sb: Seq<Seq<Cell>>, r: int) -> Seq<Cell> {
    if r < sb.len() { sb[r] } else { g[r - sb.len()] }
}

/// The glyphs of the cells in columns `[lo, hi)` of a row, skipping
/// wide-character continuation cells.
pub open spec fn row_chars(row: Seq<Cell>, lo: int, hi: int) -> Seq<char>
    decreases hi - lo,
{
    if hi <= lo {
        Seq::empty()
    } else {
        let pre = row_chars(row, lo, hi - 1);
        if row[hi - 1].continuation {
            pre
        } else {
            pre.push(row[hi - 1].ch)
        }
    }
}

/// Trailing blanks removed.
pub open spec fn trim_trailing(s: Seq<char>) -> Seq<char>
    decreases s.len(),
{
    if s.len() > 0 && s.last() == ' ' {
        trim_trailing(s.drop_last())
    } else {
        s
    }
}

/// The copyable text of one selected row: its cells from the selection's
/// start column (on the first row) through its end column (on the last
/// row), continuation cells skipped, trailing padding trimmed.
pub open spec fn selected_row_text(
    g: Seq<Seq<Cell>>,
    sb: Seq<Seq<Cell>>,
    a: (int, int),
    b: (int, int),
    r: int,
) -> Seq<char> {
    let row = combined_row(g, sb, r);
    let s = sel_first(a, b);
    let e = sel_last(a, b);
    let lo = if r == s.1 { s.0 } else { 0 };
    let hi = if r == e.1 { e.0 + 1 } else { row.len() as int };
    let lo2 = imin(lo, row.len() as int);
    let hi2 = imin(hi, row.len() as int);
    trim_trailing(row_chars(row, lo2, if hi2 >= lo2 { hi2 } else { lo2 }))
}

/// The selected rows' texts from row `sr` through row `r`, joined with
/// line breaks.
pub open spec fn extract_rows(
    g: Seq<Seq<Cell>>,
    sb: Seq<Seq<Cell>>,
    a: (int, int),
    b: (int, int),
    sr: int,
    r: int,
) -> Seq<char>
    decreases r - sr,
{
    if r < sr {
        Seq::empty()
    } else if r == sr {
        selected_row_text(g, sb, a, b, sr)
    } else {
        extract_rows(g, sb, a, b, sr, r - 1) + seq!['\n'] + selected_row_text(g, sb, a, b, r)
    }
}

/// The whole copyable string of a selection over a grid and scrollback.
pub open spec fn extract_spec(
    g: Seq<Seq<Cell>>,
    sb: Seq<Seq<Cell>>,
    a: (int, int),
    b: (int, int),
) -> Seq<char> {
    let s = sel_first(a, b);
    let e = sel_last(a, b);
    let total = sb.len() + g.len();
    let er = imin(e.1, total - 1);
    if total == 0 || s.1 > er {
        Seq::empty()
    } else {
        extract_rows(g, sb, a, b, s.1, er)
    }
}

/// Tracks two selection endpoints over the combined scrollback-plus-grid
/// space and derives membership and copy text from them.
pub struct SelectionTracker {
    active: bool,
    anchor_col: usize,
    anchor_row: usize,
    head_col: usize,
    head_row: usize,
}

impl View for SelectionTracker {
    type V = SelView;

    closed spec fn view(&self) -> SelView {
        SelView {
            active: self.active,
            anchor: (self.anchor_col as int, self.anchor_row as int),
            head: (self.head_col as int, self.head_row as int),
        }
    }
}

impl SelectionTracker {
    /// A tracker with no active selection.
    pub fn new() -> (r: SelectionTracker)
        ensures
            !r@.active,
    {
        SelectionTracker { active: false, anchor_col: 0, anchor_row: 0, head_col: 0, head_row: 0 }
    }

    /// Begin a selection: both endpoints at `(col, row)`.
    pub fn start(&mut self, col: usize, row: usize)
        ensures
            final(self)@.active,
            final(self)@.anchor == (col as int, row as int),
            final(self)@.head == (col as int, row as int),
    {
        self.active = true;
        self.anchor_col = col;
        self.anchor_row = row;
        self.head_col = col;
        self.head_row = row;
    }

    /// Extend the selection's moving endpoint; without an active
    /// selection this does nothing.
    pub fn update(&mut self, col: usize, row: usize)
        ensures
            old(self)@.active ==> final(self)@ == (SelView {
                head: (col as int, row as int),
                ..old(self)@
            }),
            !old(self)@.active ==> final(self)@ == old(self)@,
    {
        if self.active {
            self.head_col = col;
            self.head_row = row;
        }
    }

    /// Drop the selection.
    pub fn clear(&mut self)
        ensures
            !final(self)@.active,
    {
        self.active = false;
    }

    pub fn is_active(&self) -> (r: bool)
        ensures
            r == self@.active,
    {
        self.active
    }

    /// Whether `(col, row)` lies within the selection.
    pub fn is_selected(&self, col: usize, row: usize) -> (r: bool)
        ensures
            r == (self@.active && sel_contains(self@.anchor, self@.head, col as int, row as int)),
    {
        if !self.active {
            return false;
        }
        let (sc, sr, ec, er) = self.normalized();
        (sr < row || (sr == row && sc <= col)) && (row < er || (row == er && col <= ec))
            && sr <= row && row <= er
    }

    /// The endpoints in reading order, as `(start col, start row,
    /// end col, end row)`.
    fn normalized(&self) -> (r: (usize, usize, usize, usize))
        ensures
            (r.0 as int, r.1 as int) == sel_first(self@.anchor, self@.head),
            (r.2 as int, r.3 as int) == sel_last(self@.anchor, self@.head),
    {
        if self.anchor_row < self.head_row || (self.anchor_row == self.head_row && self.anchor_col
            <= self.head_col) {
            (self.anchor_col, self.anchor_row, self.head_col, self.head_row)
        } else {
            (self.head_col, self.head_row, self.anchor_col, self.anchor_row)
        }
    }

    /// The copyable text: selected cells per row, trailing padding
    /// trimmed, rows joined with line breaks.
    pub fn extract_text(&self, grid: &Vec<Vec<Cell>>, scrollback: &Vec<Vec<Cell>>) -> (out: String)
        requires
            scrollback@.len() + grid@.len() <= usize::MAX,
        ensures
            self@.active ==> out@ == extract_spec(
                grid_view(*grid),
                grid_view(*scrollback),
                self@.anchor,
                self@.head,
            ),
            !self@.active ==> out@ == Seq::<char>::empty(),
    {
        let ghost gv = grid_view(*grid);
        let ghost sbv = grid_view(*scrollback);
        if !self.active {
            return String::new();
        }
        let (sc, sr, ec, er0) = self.normalized();
        let total = scrollback.len() + grid.len();
        if total == 0 || sr > total - 1 || sr > er0 {
            return String::new();
        }
        let er = if er0 < total - 1 {
            er0
        } else {
            total - 1
        };
        let ghost a = self@.anchor;
        let ghost b = self@.head;
        let mut out = String::new();
        let mut r = sr;
        while r <= er
            invariant
                sr <= r <= er + 1,
                er < total,
                total == sbv.len() + gv.len(),
                total <= usize::MAX,
                gv == grid_view(*grid),
                sbv == grid_view(*scrollback),
                (sc as int, sr as int) == sel_first(a, b),
                (ec as int, er0 as int) == sel_last(a, b),
                er as int == imin(er0 as int, total as int - 1),
                out@ == (if r == sr {
                    Seq::<char>::empty()
                } else {
                    extract_rows(gv, sbv, a, b, sr as int, r as int - 1)
                }),
            decreases er + 1 - r,
        {
            if r > sr {
                out.push('\n');
            }
            let row: &Vec<Cell> = if r < scrollback.len() {
                &scrollback[r]
            } else {
                &grid[r - scrollback.len()]
            };
            let ghost rowv = combined_row(gv, sbv, r as int);
            proof {
                assert(row@ == rowv);
            }
            let lo0: usize = if r == sr {
                sc
            } else {
                0
            };
            let hi0: usize = if r == er0 {
                if ec < usize::MAX { ec + 1 } else { usize::MAX }
            } else {
                row.len()
            };
            let lo = if lo0 < row.len() {
                lo0
            } else {
                row.len()
            };
            let hi = if hi0 < row.len() {
                hi0
            } else {
                row.len()
            };
            let hi2 = if hi >= lo {
                hi
            } else {
                lo
            };
            // collect the glyphs, skipping continuation cells
            let mut chars: Vec<char> = Vec::new();
            let mut x = lo;
            while x < hi2
                invariant
                    lo <= x <= hi2,
                    hi2 <= row@.len(),
                    row@ == rowv,
                    chars@ == row_chars(rowv, lo as int, x as int),
                decreases hi2 - x,
            {
                let c = row[x];
                if !c.continuation {
                    chars.push(c.ch);
                }
                x = x + 1;
            }
            // trim trailing blanks
            let mut end = chars.len();
            while end > 0 && chars[end - 1] == ' '
                invariant
                    end <= chars@.len(),
                    forall|i: int| end <= i < chars@.len() ==> chars@[i] == ' ',
                decreases end,
            {
                end = end - 1;
            }
            proof {
                lemma_trim_at(chars@, end as int);
                assert(chars@.take(end as int) == selected_row_text(gv, sbv, a, b, r as int));
                let pre = if r == sr {
                    Seq::<char>::empty()
                } else {
                    extract_rows(gv, sbv, a, b, sr as int, r as int - 1) + seq!['\n']
                };
                assert(chars@.take(end as int).take(0) =~= Seq::<char>::empty());
                assert(pre + Seq::<char>::empty() =~= pre);
            }
            let mut k: usize = 0;
            while k < end
                invariant
                    k <= end,
                    end <= chars@.len(),
                    out@ == (if r == sr {
                        Seq::<char>::empty()
                    } else {
                        extract_rows(gv, sbv, a, b, sr as int, r as int - 1) + seq!['\n']
                    }) + chars@.take(end as int).take(k as int),
                decreases end - k,
            {
                out.push(chars[k]);
                proof {
                    assert(chars@.take(end as int).take(k as int).push(chars@[k as int])
                        =~= chars@.take(end as int).take(k as int + 1));
                }
                k = k + 1;
            }
            proof {
                assert(chars@.take(end as int).take(end as int) =~= chars@.take(end as int));
                if r == sr {
                    assert(Seq::<char>::empty() + chars@.take(end as int) =~= chars@.take(end as int));
                    assert(out@ == extract_rows(gv, sbv, a, b, sr as int, r as int));
                } else {
                    assert(out@ == extract_rows(gv, sbv, a, b, sr as int, r as int));
                }
            }
            r = r + 1;
        }
        proof {
            assert(r == er + 1);
            assert(out@ == extract_rows(gv, sbv, a, b, sr as int, er as int));
            assert(out@ == extract_spec(gv, sbv, a, b));
        }
        out
    }
}

/// When everything from `end` on is a blank and the character before
/// `end` is not, trimming trailing blanks is truncation at `end`.
proof fn lemma_trim_at(s: Seq<char>, end: int)
    requires
        0 <= end <= s.len(),
        forall|i: int| end <= i < s.len() ==> s[i] == ' ',
        end > 0 ==> s[end - 1] != ' ',
    ensures
        trim_trailing(s) == s.take(end),
    decreases s.len(),
{
    if s.len() == 0 {
        assert(s.take(0) =~= s);
    } else if s.last() == ' ' {
        assert(end < s.len());
        lemma_trim_at(s.drop_last(), end);
        assert(s.drop_last().take(end) =~= s.take(end));
    } else {
        assert(end == s.len());
        assert(s.take(end) =~= s);
    }
}

} // verus!
