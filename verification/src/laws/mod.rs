//! What callers can rely on, in plain terms.
//!
//! Each law takes the arguments and the result of a call, and says what must hold between them
//! whenever the call returns. The laws speak of the fields of the values themselves, so that they
//! can be read without the predicates that the contracts are made of.
pub mod channels;
pub mod control;
pub mod device;
pub mod engine;
pub mod messages;
pub mod selftest;
pub mod tables;
pub mod text;
