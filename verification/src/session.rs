//! The session state machine around one child process on a
//! pseudo-terminal.
//!
//! The caller owns the I/O: it spawns the child, reads the master side,
//! and writes input bytes.  This type owns the decisions: output bytes
//! go to the interpreter only while the session lives, input is released
//! for writing only while it lives, and end-of-file or a read error
//! terminates it for good — after that, feeding and writing are no-ops
//! and never fail.

use vstd::prelude::*;
use crate::vt::VtInterpreter;
use crate::vtmodel::{VtState, feed_bytes, init_state, resize_state, imin, imax};

verus! {

/// One terminal session: the interpreter plus a liveness flag.
pub struct PtySession {
    vt: VtInterpreter,
    alive: bool,
}

impl PtySession {
    /// The interpreter's abstract state.
    pub closed spec fn vt_view(&self) -> VtState {
        self.vt@
    }

    /// Whether the child is still considered running.
    pub closed spec fn alive_spec(&self) -> bool {
        self.alive
    }

    pub closed spec fn wf(&self) -> bool {
        self.vt.wf()
    }

    /// A fresh, live session with a blank grid.
    pub fn new(cols: usize, rows: usize, cap: usize) -> (r: PtySession)
        requires
            1 <= cols <= 0xFFFF,
            1 <= rows <= 0xFFFF,
        ensures
            r.wf(),
            r.alive_spec(),
            r.vt_view() == init_state(cols as int, rows as int, cap as int),
    {
        PtySession { vt: VtInterpreter::new(cols, rows, cap), alive: true }
    }

    /// Feed bytes read from the child.  After termination this is a
    /// no-op: the state does not change and nothing fails.
    pub fn feed(&mut self, bytes: &[u8])
        requires
            old(self).wf(),
        ensures
            final(self).wf(),
            final(self).alive_spec() == old(self).alive_spec(),
            old(self).alive_spec() ==> final(self).vt_view() == feed_bytes(
                old(self).vt_view(),
                bytes@,
            ),
            !old(self).alive_spec() ==> final(self).vt_view() == old(self).vt_view(),
    {
        if self.alive {
            self.vt.feed(bytes);
        }
    }

    /// Release input bytes for writing to the child: the bytes unchanged
    /// while the session lives, nothing once it has terminated.
    pub fn gate_input(&self, bytes: Vec<u8>) -> (r: Option<Vec<u8>>)
        ensures
            self.alive_spec() ==> r == Some(bytes),
            !self.alive_spec() ==> r is None,
    {
        if self.alive {
            Some(bytes)
        } else {
            None
        }
    }

    /// Record end-of-file or a read error on the child: the session is
    /// terminated; the grid and scrollback keep their last contents.
    pub fn mark_terminated(&mut self)
        ensures
            final(self).wf() == old(self).wf(),
            !final(self).alive_spec(),
            final(self).vt_view() == old(self).vt_view(),
    {
        self.alive = false;
    }

    pub fn is_alive(&self) -> (r: bool)
        ensures
            r == self.alive_spec(),
    {
        self.alive
    }

    /// Resize the interpreter grid; the caller applies the same geometry
    /// to the OS pseudo-terminal.  Invalid dimensions are rejected and
    /// the previous geometry is kept.
    pub fn resize(&mut self, cols: usize, rows: usize) -> (ok: bool)
        requires
            old(self).wf(),
        ensures
            final(self).wf(),
            final(self).alive_spec() == old(self).alive_spec(),
            ok <==> (1 <= cols <= 0xFFFF && 1 <= rows <= 0xFFFF),
            ok ==> final(self).vt_view() == resize_state(old(self).vt_view(), cols as int, rows as int),
            !ok ==> final(self).vt_view() == old(self).vt_view(),
    {
        self.vt.resize(cols, rows)
    }

    /// Scroll the view back, clamped to the scrollback length.
    pub fn scroll_up(&mut self, n: usize)
        requires
            old(self).wf(),
        ensures
            final(self).wf(),
            final(self).alive_spec() == old(self).alive_spec(),
            final(self).vt_view() == (VtState {
                scroll_off: imin(
                    old(self).vt_view().scroll_off + n,
                    old(self).vt_view().scrollback.len() as int,
                ),
                ..old(self).vt_view()
            }),
    {
        self.vt.scroll_up(n);
    }

    /// Scroll the view forward, clamped at the bottom.
    pub fn scroll_down(&mut self, n: usize)
        requires
            old(self).wf(),
        ensures
            final(self).wf(),
            final(self).alive_spec() == old(self).alive_spec(),
            final(self).vt_view() == (VtState {
                scroll_off: imax(old(self).vt_view().scroll_off - n, 0),
                ..old(self).vt_view()
            }),
    {
        self.vt.scroll_down(n);
    }

    /// Read access to the interpreter for rendering.
    pub fn interpreter(&self) -> (r: &VtInterpreter)
        ensures
            r@ == self.vt_view(),
            r.wf() == self.wf(),
    {
        &self.vt
    }
}

} // verus!
