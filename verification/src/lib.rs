//! An in-memory relay for chat "turns" keyed by patient id.
//!
//! Turns are buffered per patient in arrival order; patients wait in a FIFO
//! queue in first-seen order. A flush atomically removes the oldest pending
//! patient together with its whole buffer so the joined payload can be
//! delivered to the librarian collector.

pub mod laws;
pub mod lib_runner;
pub mod messages;
pub mod state_actor;
pub mod turns;
