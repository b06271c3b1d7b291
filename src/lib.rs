//! Discrete-event simulation of digital logic over a five-valued algebra.

pub mod state;
pub mod event_queue;
pub mod gate;
pub mod basic;
pub mod records;
pub mod engine;
