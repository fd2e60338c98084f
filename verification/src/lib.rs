//! Trigger/frame reconciliation for a multi-process camera pipeline.
//!
//! Hardware trigger events arrive over an inter-process bus; camera frames
//! arrive later, delayed by a variable amount. This library keeps a bounded
//! buffer of pending triggers and attaches to every frame the trigger that
//! most plausibly caused it, within a fixed tolerance.

pub mod trigger;
pub mod queue;
pub mod matcher;
pub mod engine;
