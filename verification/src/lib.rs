//! Core state machine of a single-decree Paxos node.
//!
//! The crate implements the Proposer, Acceptor, and Learner roles of classic
//! Paxos as pure, deterministic event-driven engines: each role consumes
//! events (inbound messages, timer expirations) and produces actions
//! (outbound messages, timer requests, decisions) without performing any
//! network, time, or storage side effect itself.  An external driver owns the
//! network and the clock, delivers `Event` values to the roles, and honors the
//! `Action` values they return.

pub mod acceptor;
pub mod kv;
pub mod learner;
pub mod msg;
pub mod proposer;
pub mod protocol;
pub mod types;
