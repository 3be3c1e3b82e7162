//! The commands of the command line tool, as far as they compute.
pub mod args;
pub mod commands;
