//! A competitive-programming judge orchestrator: it grades a submitted
//! program against a set of test cases inside numbered sandboxes driven by an
//! external isolation tool, derives a per-case and an overall verdict, and
//! renders progress events.

pub mod cli;
pub mod communications;
pub mod debug;
pub mod driver;
pub mod error;
pub mod judge;
pub mod languages;
pub mod meta;
pub mod precheck;
pub mod sandbox;
pub mod text;
pub mod verdict;
