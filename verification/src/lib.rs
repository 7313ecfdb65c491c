//! A line-oriented task tracker: a command parser, a plain-text codec for the
//! task list, and the four operations on it.
//!
//! The library computes on values and leaves reading and writing to its caller:
//! the persisted list comes in and goes out as text, and every reply is a
//! sequence of lines.

pub mod command;
pub mod decimal;
pub mod executor;
pub mod listing;
pub mod report;
pub mod store;
pub mod task;
pub mod text;
