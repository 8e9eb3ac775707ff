use vstd::prelude::*;

verus! {

/// Everything that can go wrong in the ledger or the protocol layer.
///
/// Each variant carries the context a caller needs to report a precise
/// message: the offending chat name, the text that failed to parse, or the
/// raw response that lacked the required identifier.
#[derive(Debug, PartialEq, Eq)]
pub enum ChatError {
    /// A chat with this name is already registered.
    DuplicateName(String),
    /// No chat with this name is registered.
    UnknownChat(String),
    /// The snapshot text exists but is not the expected structure.
    CorruptState(String),
    /// A creation response came back without a session identifier;
    /// the payload is the raw response body.
    Protocol(String),
    /// The transport layer failed outright; the payload describes how.
    Transport(String),
}

} // verus!
