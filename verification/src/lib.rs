//! Verified core of an interactive shell session that mediates a nested
//! program's output through a terminal emulator and re-renders the visible
//! screen above a status line.

pub mod ansi;
pub mod batch;
pub mod cell;
pub mod course;
pub mod event_loop;
pub mod figures;
pub mod frame;
pub mod harness;
pub mod inputs;
pub mod laws;
pub mod messages;
pub mod mirror;
pub mod perf;
pub mod renderer;
pub mod report;
pub mod session;
pub mod shown;
pub mod terminal;
pub mod text;
