//! Confidential computation of `x^3 + 5*y` in an SGX enclave.
//!
//! A client encrypts its inputs to a key that only the enclave's runtime holds, after the runtime has
//! proved itself with a quote that binds that key to the client's nonce. Host and loader stand
//! between the two and see neither the inputs nor the keys.
//!
//! This crate holds what the four parts decide and compute, as functions and state machines on
//! plain values. Sockets, files, clocks, the processor's keys and the quoting service are for the
//! programs around it.

pub mod aead;
pub mod bytes;
pub mod client;
pub mod compute;
pub mod end_to_end;
pub mod frame;
pub mod hex;
pub mod host;
pub mod key_store;
pub mod launch;
pub mod loader;
pub mod outside;
pub mod report_data;
pub mod runtime;
pub mod sealing;
pub mod serve;
pub mod text;
pub mod verify;
pub mod views;
pub mod wire;
pub mod worker;
