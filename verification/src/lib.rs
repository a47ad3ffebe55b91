//! Session recovery for the Codex command line tool.
//!
//! A session that found the servers overloaded is told to continue, a little later each time; one
//! that hit its usage limit is moved to another account. What follows from what was found is worked
//! out here. What is done, with files, processes and services, is done by the caller: it hands in
//! what it found, and is told what to do next.
//!
//! - `discovery`, `rollout`, `search`, `versions`, `commands`: which sessions run, and what ended
//!   their last turn.
//! - `tracker`, `retrying`: what a cycle of recovery does, and what is remembered of it.
//! - `accounts`, `scoring`, `credits`: which account is switched to, and which credit is redeemed.
//! - `switching`, `desktop`: how a session is moved, step by step.
//! - `settings`, `terminal`: what a session is told, and the programs that are run for it.
//! - `text`, `json`, `moment`: characters, JSON values and points in time.
//!
//! The modules whose names end in `laws` hold what is true of all of that together.

pub mod account_laws;
pub mod accounts;
pub mod app_laws;
pub mod command_laws;
pub mod commands;
pub mod credits;
pub mod credits_laws;
pub mod cycle_laws;
pub mod desktop;
pub mod discovery;
pub mod error_laws;
pub mod errors;
pub mod json;
pub mod launch_laws;
pub mod memory_laws;
pub mod moment;
pub mod platform;
pub mod recovery_laws;
pub mod retrying;
pub mod rollout;
pub mod rollout_laws;
pub mod score_laws;
pub mod scoring;
pub mod scoring_laws;
pub mod search;
pub mod search_laws;
pub mod session_laws;
pub mod sessions;
pub mod settings;
pub mod switching;
pub mod switching_laws;
pub mod terminal;
pub mod text;
pub mod text_laws;
pub mod tracker;
pub mod tracker_laws;
pub mod versions;
