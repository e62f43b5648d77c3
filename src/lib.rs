//! Log watchdog: follows log files, tests appended lines against a pattern
//! under a debounce policy, and runs a command list on each trigger.
pub mod channel;
pub mod command;
pub mod error;
pub mod matcher;
pub mod pattern;
pub mod runner;
pub mod settings;
pub mod supervisor;
pub mod tail;
