//! An in-process publish/subscribe registry.
//!
//! Callers register interest in a named event (`EventEmitter::on`), remove a
//! registration by handler identity (`EventEmitter::off`), and ask for the
//! fan-out of one emission (`EventEmitter::emit`): the registered handlers
//! whose declared payload tag matches the emitted value's tag, in
//! registration order. The registry itself never runs a callback; it decides,
//! with a proved contract, which handlers one emission reaches and in what
//! order, and an unverified shell around the crate invokes the callbacks it
//! names.

pub mod emitter;
pub mod handler;
pub mod laws;

pub use emitter::EventEmitter;
pub use handler::EventHandler;
