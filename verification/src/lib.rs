//! A verified terminal-emulation core for a pseudo-terminal front end.
//!
//! The crate owns the state that a terminal pane needs: an incremental
//! ANSI/VT100 escape-sequence interpreter with a display grid, a bounded
//! scrollback, and a cursor (`vt`); a selection tracker over the combined
//! scrollback-plus-grid coordinate space (`selection`); the session state
//! machine around one child process on a pseudo-terminal (`session`);
//! key-to-byte translation (`keymap`); and a navigable file tree
//! (`tree`).  I/O itself — spawning the child, reading and writing the
//! pseudo-terminal, painting cells — stays with the caller.

pub mod keymap;
pub mod selection;
pub mod session;
pub mod style;
pub mod tree;
pub mod vt;
pub mod vtmodel;
