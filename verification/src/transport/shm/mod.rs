//! The transport through shared memory.
pub mod config;
