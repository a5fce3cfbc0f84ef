//! A single node of a simulated broadcast cluster.
//!
//! The node exchanges typed envelopes with its peers and with clients: it
//! answers echo and id-generation requests, accepts a one-time topology
//! assignment, ingests broadcast values, floods them to its neighbors, heals
//! divergence through periodic full-state anti-entropy batches, and prunes
//! the table of unacknowledged sends when acknowledgments arrive.
//!
//! Everything here is pure protocol logic: a handler consumes one decoded
//! envelope and returns the envelopes to send. Reading lines, JSON, clocks
//! and threads live outside the library.

pub mod broadcast;
pub mod echo;
pub mod error;
pub mod generate;
pub mod laws;
pub mod message;
pub mod node;
