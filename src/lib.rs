//! A command-line pomodoro timer: configuration resolution and the
//! sequencer that produces the pomodoro cadence.

pub mod config;
pub mod document;
pub mod event;
pub mod nesting;
