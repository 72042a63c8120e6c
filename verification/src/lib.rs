//! A disk-space reclamation engine for dependency trees.
//!
//! The library walks an in-memory picture of a directory tree, matches
//! every entry against three deny-lists (directory names, file names,
//! file-name suffixes), and computes which entries to delete together
//! with the run's statistics: bytes reclaimed, files scanned, files
//! removed. Reading the tree from disk and performing the deletions are
//! left to the caller, which hands the tree in and applies the returned
//! deletion plan in order, stopping at the first failure.

pub mod engine;
pub mod laws;
pub mod rules;
pub mod tree;

pub use engine::Deletion;
pub use engine::Pruner;
pub use engine::Stats;
pub use rules::RuleSet;
pub use rules::to_map;
pub use tree::FsTree;
