//! Verified core logic of the Jcode desktop shell: argument parsing, issue-cache
//! ranking, key mapping, reload handoff decisions and small scheduling rules.

pub mod args;
pub mod bench;
pub mod branding;
pub mod capture;
pub mod clipboard;
pub mod events;
pub mod text;
pub mod worker;
pub mod worker_host;
pub mod worker_loop;
pub mod hero;
pub mod issue_cache;
pub mod issue_sync;
pub mod jobs;
pub mod keys;
pub mod process;
pub mod profiling;
pub mod ranking;
pub mod reload;
pub mod schedule;
pub mod simulator;
pub mod smoke;
