//! Duplicate-file detection by content, with running totals.
//!
//! The crate holds the decisions of a scan: which entries of a directory tree
//! are skipped, when a file has to be hashed, and how the totals move. Reading
//! directories and files is left to the caller, who hands in what was read.

pub mod filter;
pub mod human;
pub mod laws;
pub mod model;
pub mod order;
pub mod scanner;
pub mod stat;
pub mod supervisor;
pub mod tree;
