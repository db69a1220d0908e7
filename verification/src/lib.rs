//! A relayer framework: the capabilities that chains and relays offer, a
//! sender that gathers the message batches of many callers into
//! transactions, and the configuration of a relayer.

pub mod batch;
pub mod chain;
pub mod config;
pub mod one_for_all;
pub mod relay;
pub mod sync;
