//! Finds `node_modules` directories under a root, sizes them and keeps the
//! tallies of a deletion run.
//!
//! Filesystem access lives with the caller: the walk hands each entry to a
//! [`Scanner`], file sizes come in as [`SizeEntry`] lists, and
//! the run's counters sit in a [`Stats`].

pub mod answer;
pub mod policy;
pub mod report;
pub mod scanner;
pub mod size;
pub mod stats;

pub use answer::{confirms_deletion, deletion_allowed, is_yes_answer, next_after_scan, NextStep};
pub use policy::{admits, is_match, is_target_name, target_name};
pub use report::{format_size, SizeReading, SizeUnit};
pub use scanner::{
    lemma_excluded_never_found, lemma_found_not_nested, lemma_found_within_depth, ScanModel, Scanner,
    Visit,
};
pub use size::{calculate_dir_size, estimate_total, SizeEntry, SizeError};
pub use stats::{Stats, StatsModel};
