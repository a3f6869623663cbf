//! A personal task tracker: short text tasks pinned to calendar dates, kept in
//! an ordered collection that is addressed by position.
//!
//! The crate holds the task store and the decisions of the shell that drives
//! it. Reading and writing the durable copy, the clock and the window are the
//! caller's business: the store takes what was read and hands out what is to
//! be written.

pub mod date;
pub mod laws;
pub mod shell;
pub mod store;
pub mod task;

pub use date::Date;
pub use shell::{ShellState, Tab};
pub use store::{Loaded, TaskStore};
pub use task::Task;
