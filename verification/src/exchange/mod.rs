//! The exchange of bootstrap handles between the hosts of a communicator.
pub mod command;
