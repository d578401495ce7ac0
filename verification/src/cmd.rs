//! The commands of the command line: their arguments, and the decisions
//! each makes between reading the system and printing.
pub mod bucket;
pub mod cache;
pub mod cleanup;
pub mod list;
pub mod status;
pub mod update;
