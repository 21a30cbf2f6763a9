//! Batch renaming of files into zero-padded, naturally ordered sequence names.
//!
//! The library holds the rules: which files of a listing are selected, in what
//! order they are numbered, what each destination is called, and how a run
//! proceeds from one copy to the next. Reading directories and copying files
//! is left to the caller, which reports each outcome back.

pub mod text;
pub mod paths;
pub mod naming;
pub mod padding;
pub mod order;
pub mod listing;
pub mod message;
pub mod executor;
pub mod trace;
pub mod ui;
