//! Declarative management of a repository's issue-tracker labels.
//!
//! A configuration document declares the desired set of labels (and a list of
//! deletions); the reconciliation engine decides, for each declaration,
//! whether to rename an existing label into it, create it, update it, skip
//! it, or fail, and records one outcome per action taken.

pub mod cli;
pub mod client;
pub mod color;
pub mod config;
pub mod error;
pub mod git;
pub mod laws;
pub mod models;
pub mod reconcile;
pub mod store;
pub mod templates;
pub mod text;
mod vec_util;

pub use error::BiaoError;
