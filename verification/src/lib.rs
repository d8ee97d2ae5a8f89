//! A synchronous external-process print dispatcher.
//!
//! The library covers the computation around one operation: take a serialized
//! receipt payload as text, build the command line for an external print
//! program, and map the finished process's exit status and captured output
//! streams to a success-or-failure result for the caller.  Spawning the
//! process itself is left to the surrounding application; everything that can
//! be stated as a function of plain values is verified here.

pub mod command;
pub mod dispatch;
pub mod escape;
