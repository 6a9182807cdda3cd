//! Core engine for the Synod (single-decree Paxos) consensus protocol.
//!
//! The crate holds the three role state machines — acceptor, proposer and
//! learner — together with the proposal identifiers, the message vocabulary
//! they exchange, and the quorum arithmetic that decides when a phase has
//! succeeded. Each handler is a pure transition from local state and one
//! received message to the new state plus the messages to emit; the concrete
//! transport that delivers those messages, and the store that persists a
//! chosen value, live outside this crate.

pub mod acceptor;
pub mod config;
pub mod id;
pub mod learner;
pub mod message;
pub mod proposal;
pub mod proposer;
