//! Request-handling rules of the Ouroboros API service: input validation,
//! error mapping, request counters, the metrics history ring buffer and the
//! built-in load generator's state machine.

pub mod api;
pub mod bench;
pub mod config;
pub mod error;
pub mod metrics;
pub mod state;
pub mod text;
