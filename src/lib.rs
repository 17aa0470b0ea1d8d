//! Control channel between a short-lived client and a long-lived server:
//! a binary wire codec, the command envelope riding on it, the execution
//! strategies that handlers invoke, and the dispatch state machine.

pub mod num;
pub mod wire;
pub mod envelope;
pub mod executor;
pub mod terminal;
pub mod server;
pub mod stub;
pub mod paths;
pub mod helix;
