//! Core model of a dual-pane byte-level viewer/editor.
//!
//! The library owns everything with invariants: the in-memory byte buffers,
//! the cursor and nibble-edit state machine, circular pattern search, the
//! offset-jump parser, and the row-scoped diff and scroll-synchronization
//! logic. Rendering, file dialogs and raw file I/O are external collaborators
//! that consume row views and feed events back in.

pub mod buffer;
pub mod hexchars;
pub mod model;
pub mod navigate;
pub mod rowview;
pub mod search;
