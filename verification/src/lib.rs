//! A pass-through wrapper for a build tool's command line: it counts which
//! commands are used, ranks them, looks for declared dependencies that the lock
//! never mentions, sums up profiled builds, and hands every other command on
//! to the build tool.
//!
//! The library holds the decisions. Reading and writing files, starting
//! processes, reading the clock and printing are left to the caller, which
//! hands in what it observed as plain values.
pub mod calendar;
pub mod deps;
pub mod executor;
pub mod profile;
pub mod router;
pub mod stats;
pub mod text;

pub use deps::check_unused_deps;
pub use executor::{execute_cargo_command, exit_code};
pub use profile::analyze_build_time;
pub use router::route;
pub use stats::{load_stats, reset_stats, save_stats, show_stats, track_command};
