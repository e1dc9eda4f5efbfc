//! A verified core for a task-execution benchmark: request parsing and
//! routing for a line-delimited wire protocol, a deterministic seed-chain
//! load generator, and a commutative result aggregator.
pub mod aggregate;
pub mod bonus;
pub mod client;
pub mod numeral;
pub mod protocol;
pub mod server;
