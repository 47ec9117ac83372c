//! The runtime inside the enclave: it keeps the keys, proves itself and computes.
//!
//! The runtime is a state machine. It says what it needs next (a frame, the time, a key from the
//! processor, ...), takes that as an event, and gives the frames to be sent.

pub mod answer;
pub mod laws;
pub mod promises;
pub mod state;
pub mod step;
