//! Reversible capture of command output: condensed terminal views, specialised
//! test-runner summaries, and the rules for recovering stored output.
pub mod text;
pub mod argv;
pub mod time;
pub mod condenser;
pub mod stash;
pub mod display;
pub mod error;
pub mod commands;
pub mod cli;
pub mod runner;
