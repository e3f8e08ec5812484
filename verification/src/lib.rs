//! A verified local control-plane core: a line-oriented command protocol
//! (shell-style tokenization, a runtime command registry, a per-connection
//! state machine, a single-round-trip client) together with a ready-cell,
//! a single-slot container that is filled exactly once and thereafter acts
//! as a shared read/write lock.

pub mod client;
pub mod connection;
pub mod errors;
pub mod listener;
pub mod numbers;
pub mod ready_cell;
pub mod registry;
pub mod tokenizer;
