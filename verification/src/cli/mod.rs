//! The command line: what its commands do to the profile store, and what they print.

pub mod commands;
pub mod grid;
pub mod options;
pub mod status;
