//! The rules of a REST service for nearest-neighbour search over a disk index,
//! and of the command-line client that queries it.

pub mod args;
pub mod client;
pub mod config;
pub mod double;
pub mod fbin;
pub mod inputs;
pub mod laws;
pub mod loader;
pub mod queue;
pub mod serve;
pub mod summary;
pub mod text;
