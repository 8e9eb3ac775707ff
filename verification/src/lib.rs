//! A session ledger and conversation-continuation protocol for a named,
//! persistent chat client.
//!
//! The ledger keeps a durable mapping from chat name to session identifier
//! together with an append-only transcript per chat; the protocol layer
//! extracts session identifiers and reply text from remote responses.
//! All disk and network traffic is left to the surrounding program: the
//! library works on plain values and states exactly what it does with them.

pub mod errors;
pub mod json;
pub mod ledger;
pub mod protocol;
pub mod transcript;
