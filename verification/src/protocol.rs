//! The conversation-continuation protocol, at its decision points.
//!
//! The surrounding program performs the HTTP exchanges; this module decides
//! what they mean: which session identifier a creation response carries,
//! what reply text a response body yields, where a follow-up message is
//! sent, and what to do with a line of user input.

use vstd::prelude::*;
use vstd::string::StringExecFns;
use crate::errors::ChatError;
use crate::json::{json_string_field, json_string_field_of};

verus! {

/// The reply a response body carries: the string under its `response` field
/// when the body is a JSON object holding one there, else the raw body
/// verbatim — a malformed body never aborts an exchange.
pub open spec fn reply_of(body: Seq<char>) -> Seq<char> {
    match json_string_field_of(body, "response"@) {
        Some(t) => t,
        None => body,
    }
}

/// The reply text of a response body, degraded to the raw text whenever the
/// body is not the recognized shape.
pub fn extract_reply(body: String) -> (r: String)
    ensures
        r@ == reply_of(body@),
{
    match json_string_field(body.as_str(), "response") {
        Some(t) => t,
        None => body,
    }
}

/// The session identifier of a creation response. The endpoint returns it
/// out-of-band in a header; without one no usable session exists, so its
/// absence is a `Protocol` failure carrying the raw body for the report.
pub fn extract_session_id(header: Option<String>, raw_body: &str) -> (r: Result<
    String,
    ChatError,
>)
    ensures
        match r {
            Ok(id) => match header {
                Some(h) => id@ == h@,
                None => false,
            },
            Err(e) => header is None && match e {
                ChatError::Protocol(b) => b@ == raw_body@,
                _ => false,
            },
        },
{
    match header {
        Some(h) => Ok(h),
        None => Err(ChatError::Protocol(raw_body.to_owned())),
    }
}

/// The outcome of a creation exchange, given the session header and the
/// response body: the new session identifier and the first reply, or a
/// `Protocol` failure when the endpoint sent no identifier — without one no
/// usable session exists, so the reply is never salvaged.
pub fn creation_outcome(header: Option<String>, body: String) -> (r: Result<
    (String, String),
    ChatError,
>)
    ensures
        match r {
            Ok(p) => (match header {
                Some(h) => p.0@ == h@,
                None => false,
            }) && p.1@ == reply_of(body@),
            Err(e) => header is None && match e {
                ChatError::Protocol(b) => b@ == body@,
                _ => false,
            },
        },
{
    match extract_session_id(header, body.as_str()) {
        Ok(id) => {
            let reply = extract_reply(body);
            Ok((id, reply))
        },
        Err(e) => Err(e),
    }
}

/// Where a follow-up message for the session goes: the base URL with the
/// session identifier as one further path segment.
pub fn continuation_url(base: &str, session_id: &str) -> (r: String)
    ensures
        r@ == base@ + "/"@ + session_id@,
{
    let mut url = base.to_owned();
    url.append("/");
    url.append(session_id);
    proof {
        assert(url@ =~= base@ + "/"@ + session_id@);
    }
    url
}

/// What the interactive loop does with one (already trimmed) line of input.
#[derive(Clone, Copy, Debug, PartialEq, Eq, Structural)]
pub enum InputAction {
    /// The sentinel exit token: leave the loop.
    Exit,
    /// Nothing was entered: read again, send nothing.
    Skip,
    /// Send the line as the next message of the exchange.
    Send,
}

/// The decision for one line: the sentinel exit token ends the loop, an
/// empty line is never sent, anything else is a message.
pub open spec fn input_action_of(line: Seq<char>) -> InputAction {
    if line == "/bye"@ {
        InputAction::Exit
    } else if line.len() == 0 {
        InputAction::Skip
    } else {
        InputAction::Send
    }
}

/// Classifies one trimmed line of user input for the interactive loop.
pub fn classify_input(line: &String) -> (a: InputAction)
    ensures
        a == input_action_of(line@),
{
    let sentinel = String::from_str("/bye");
    if line.eq(&sentinel) {
        InputAction::Exit
    } else if line.as_str().is_empty() {
        InputAction::Skip
    } else {
        InputAction::Send
    }
}

} // verus!
