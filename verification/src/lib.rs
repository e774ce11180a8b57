//! Navigation and move-history engine for a file-triage tool.
//!
//! The engine owns a cursor over a listing of sortable files, a list of
//! destination folders, and an undo/redo history of executed moves.  All
//! filesystem access happens outside this crate: callers enumerate the root
//! directory and perform the physical renames, while the engine decides what
//! to rename, checks every outcome, and keeps its in-memory state consistent
//! with the last rename that actually succeeded.

pub mod engine;
pub mod hotkeys;
pub mod laws;
pub mod model;
pub mod order;
