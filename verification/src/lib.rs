//! Core of a speedcubing practice timer: scramble generation, the timing
//! state machine, and rolling averages over the session's solve history.
//!
//! All timing is expressed in nanoseconds on a monotonic clock whose readings
//! the caller passes in; the library itself performs no input or output.

pub mod scramble;
pub mod session;
pub mod state;
