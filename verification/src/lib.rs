//! Core pieces of a bare-metal task runtime support library: a family of
//! lock-free single-producer single-consumer channels coordinated through one
//! shared state word, and a byte-stream runtime that frames diagnostic output
//! into a ring buffer shared with a debug probe.

pub mod stream;
pub mod sync;
