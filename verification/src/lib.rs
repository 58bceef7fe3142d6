//! Rendezvous-and-handoff bootstrap core: a uniquely named (or
//! caller-specified) local socket endpoint that accepts exactly one peer
//! connection and then hands typed values to the established channel.
//!
//! This crate holds the verified heart of the protocol: generation of the
//! endpoint's socket path and the endpoint's connection state machine. The
//! socket, filesystem and serialization edges that drive it are unverified
//! shells around this library.

pub mod endpoint;
pub mod names;

pub use endpoint::Bootstrapper;
