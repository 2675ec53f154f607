//! Scans a base directory for repositories and reports, per repository, its
//! branch, whether its working tree is dirty, and the outcome of an optional
//! update run. This library holds the decision logic of that scan: which
//! directory entries are candidates, how one candidate is probed step by
//! step, what record a probe emits, what one whole scan emits, and how a
//! record is rendered as a line of output. The surrounding program performs
//! the filesystem reads, repository queries, subprocess runs and printing,
//! and drives the probe state machine defined here.
pub mod lister;
pub mod probe;
pub mod render;
pub mod report;
pub mod run;
pub mod text;
