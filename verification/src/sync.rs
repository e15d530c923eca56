//! Synchronization primitives for cooperative task runtimes.

pub mod spsc;
