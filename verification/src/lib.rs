//! An on-ledger instruction processor that creates a fungible-token mint
//! and mints tokens into a holder's account.
//!
//! The processor decodes an instruction payload into a command, reads the
//! accounts it was given by position, and issues calls into the system, token
//! and associated-account modules in a fixed order, stopping at the first
//! call that fails.
//!
//! - [`instruction`]: the payload and its decoding.
//! - [`accounts`]: the account lists, by position.
//! - [`call`] and [`plan`]: the calls of each command, as values.
//! - [`sequence`]: the rule by which calls are issued, and [`laws`] that
//!   follow from it for each command.
//! - [`invoker`] and [`processor`]: the commands on the host.
//! - [`host`]: what is taken for granted of the host and its modules.
//! - [`error`]: why an instruction failed.

pub mod accounts;
pub mod call;
pub mod error;
pub mod host;
pub mod instruction;
pub mod invoker;
pub mod laws;
pub mod plan;
pub mod processor;
pub mod sequence;
