//! A local merge queue for the Jujutsu version-control system.
//!
//! The library holds the queue's logic, each part with its contract:
//! - [`queue`]: sequence IDs, bookmark names, ID allocation;
//! - [`trailers`]: the failure trailers written to and read from descriptions;
//! - [`runlog`]: the run log's sentinel line and which lines are shown;
//! - [`config`]: configuration keys, defaults and the landing strategy;
//! - [`jj`]: the argument list of each `jj` invocation and how its output reads;
//! - [`engine`]: processing one queue item, as a state machine;
//! - [`push`]: enqueuing a revision, as a state machine;
//! - [`commands`]: the decisions behind `run --all`, `status`, `delete`, `clean`,
//!   `doctor`, `tail` and `init`;
//! - [`text`]: line and word splitting, trimming and decimal rendering.
pub mod text;
pub mod exit_codes;
pub mod queue;
pub mod config;
pub mod trailers;
pub mod runlog;
pub mod jj;
pub mod engine;
pub mod commands;
pub mod push;
