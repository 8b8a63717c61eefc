//! An interactive, keyboard-driven directory browser core.
//!
//! The crate holds the navigation core of a vim-like file browser: a cursor
//! over a directory tree with per-directory selection memory, sort and filter
//! semantics, incremental case-insensitive search, and a modal key-sequence
//! parser that turns raw keystrokes into discrete operations.  Two backends
//! share the cursor algorithms: one over the live filesystem (the caller
//! enumerates directories and hands the listings in) and one over a virtual
//! tree parsed out of a tar archive.
//!
//! Paths are modelled structurally, as byte strings with `/` separators:
//! parent and file-name derivation, hidden-name tests and ordering are all
//! defined on the bytes, never by asking the filesystem.

pub mod cursor;
pub mod engine;
pub mod explorer;
pub mod file_cursor;
pub mod file_explorer;
pub mod lines;
pub mod listing;
pub mod paths;
pub mod tar_cursor;
