//! Commit-history extraction and per-repository statistics.
//!
//! The library finds the repositories below a directory, reads the commits
//! of a repository that pass an author filter and a time window, derives
//! from each commit its summary, body and references, folds the commits
//! into counters, and reads the owner and name of a repository from the
//! address of its remote.
//!
//! Every rule is stated as a specification over plain mathematical values
//! and proved of the code. The calls into `git2`, `regex` and `chrono`, and
//! the few functions of the standard library that have no specification,
//! stand behind small wrappers in `git`, `github`, `clock`, `text` and
//! `scanner`; their contracts are believed, not proved.

pub mod analysis;
pub mod cache;
pub mod cli;
pub mod clock;
pub mod config;
pub mod decimal;
pub mod error;
pub mod file_stats;
pub mod git;
pub mod github;
pub mod model;
pub mod parser;
pub mod prompt;
pub mod scan_laws;
pub mod scanner;
pub mod service;
pub mod stats;
pub mod stats_laws;
pub mod summary;
pub mod text;
