//! Supervision of a line-oriented worker process, as verified decision logic.
//!
//! The library holds every rule of the bridge: how a message is framed for the
//! worker's input, how the worker's output bytes become events, where the worker
//! is looked for, and in which order a submission probes, spawns and writes.
//! The host performs the actions that the library asks for and reports back.

pub mod error;
pub mod event;
pub mod framing;
pub mod resolver;
pub mod router;
pub mod session;
pub mod supervisor;
