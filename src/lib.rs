//! A one-line, colour-coded summary of a working tree's status, built from
//! the porcelain (version 2, branch-aware) report of a version-control tool.
//!
//! The report is read line by line into a [`status::RepoStatus`], which is
//! then rendered as a prompt segment.

pub mod scan;
pub mod status;
pub mod render;
pub mod laws;
