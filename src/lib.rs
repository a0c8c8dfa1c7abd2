//! Recursive substring search over a directory tree: argument handling,
//! per-line matching and report rendering, with the file system left to the caller.
pub mod config;
pub mod filter;
pub mod report;
pub mod scan;
pub mod text;
