//! Decision logic of a file watcher that runs a command whenever a watched
//! path changes: command-line configuration, directory expansion, the watch
//! registry with its debounced dispatch, and the supervision of the command.
//!
//! Nothing in this crate touches the file system, the clock or a process. A
//! caller performs those effects and reports what it observed; every function
//! here maps such observations to the next state and the next thing to do.

pub mod cli;
pub mod command;
pub mod config;
pub mod fswatch;
pub mod registry;
pub mod text;
pub mod walker;
