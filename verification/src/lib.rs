//! Control plane and per-device bookkeeping of a collective communication service.
//!
//! The service owns the GPUs of a host. Applications connect to it as clients; for each client a
//! daemon is started, and each daemon talks to one proxy per device. The proxies set up
//! communicators and hand the device-side description of a communicator to the GPU.
pub mod comm;
pub mod control;
pub mod cuda;
pub mod daemon;
pub mod exchange;
pub mod ipc;
pub mod laws;
pub mod proxy;
pub mod registry;
pub mod transport;
pub mod utils;
