//! Session logging and analysis of coding-assistant hook events.

pub mod text;
pub mod json;
pub mod events;
pub mod hooks;
pub mod hook_laws;
pub mod paths;
pub mod tally;
pub mod usage;
pub mod format;
pub mod time;
pub mod hook_input;
pub mod summary;
pub mod export;
pub mod backfill;
pub mod capture;
pub mod query;
pub mod cli;
pub mod report;
