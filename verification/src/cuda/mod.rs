//! Device memory as the host sees it: addresses.
pub mod ptr;
