//! The execution core of a cross-chain job relay.
//!
//! A job is announced by a log on a source chain. The relay decodes the log,
//! computes the value to deliver, and sends it to the destination chain as a
//! signed transaction, keeping one transaction counter per destination chain.
//!
//! The core decides and computes; it does no I/O. Fee estimation, signing and
//! sending are done by a driver, which steps each job through the state
//! machine of [`job`] and reports what the gateway answered.
//!
//! - [`word`] and [`address`]: 256-bit integers and 20-byte addresses.
//! - [`event`]: the decoder from log records to job events.
//! - [`outcome`]: the value to deliver for a job.
//! - [`chain`] and [`rpc`]: the chain state store with its nonces, and the
//!   descriptors of the RPC services.
//! - [`processed`]: the record of the logs taken up.
//! - [`transaction`]: the transaction builder.
//! - [`job`]: the orchestrator.

pub mod address;
pub mod chain;
pub mod event;
pub mod job;
pub mod outcome;
pub mod processed;
pub mod rpc;
pub mod transaction;
pub mod word;
