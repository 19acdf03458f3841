//! The two-part handler error: what to write to the server log and what to
//! tell the client, either part optional; and the socket error of the
//! listener setup.

use vstd::prelude::*;

verus! {

/// A handler failure: a log-side message with full detail, a client-side
/// message for the response, or both.
pub struct HandlerError {
    pub log: Option<String>,
    pub client: Option<String>,
}

impl HandlerError {
    /// Only the client learns of it.
    pub fn user(msg: String) -> (r: HandlerError)
        ensures
            r.log is None,
            r.client matches Option::Some(c) && c == msg,
    {
        HandlerError { log: Option::None, client: Option::Some(msg) }
    }

    /// Only the server log learns of it.
    pub fn log(msg: String) -> (r: HandlerError)
        ensures
            r.client is None,
            r.log matches Option::Some(l) && l == msg,
    {
        HandlerError { log: Option::Some(msg), client: Option::None }
    }

    /// Both sides learn of it, each in their own words.
    pub fn both(log: String, client: String) -> (r: HandlerError)
        ensures
            r.log matches Option::Some(l) && l == log,
            r.client matches Option::Some(c) && c == client,
    {
        HandlerError { log: Option::Some(log), client: Option::Some(client) }
    }
}

/// Error of binding or using the daemon's command socket.
pub struct SocketError {
    pub msg: String,
}

impl SocketError {
    pub fn new(msg: String) -> (r: SocketError)
        ensures
            r.msg == msg,
    {
        SocketError { msg }
    }
}

} // verus!
