//! The two closed message sets of the wire protocol.
//!
//! Requests travel from a client to the server over the rendezvous channel;
//! responses travel back over the per-session callback channel.  Each message
//! is viewed abstractly as a variant over sequences of characters, which is
//! what the codec's specification speaks about.

use vstd::prelude::*;

verus! {

/// A request sent by a client to the server.
#[derive(Debug, PartialEq, Eq)]
pub enum EchoCommand {
    /// Announces a session and the callback address responses should go to.
    Hello(String),
    /// A payload to be echoed back over the callback channel.
    Message(String),
    /// Graceful close request.
    Goodbye(),
}

/// A response pushed by the server over a session's callback channel.
#[derive(Debug, PartialEq, Eq)]
pub enum EchoResponse {
    /// The echoed payload.
    EchoResponse(String),
    /// Server-initiated or acknowledged close.
    Goodbye(),
    /// The correlation identifier minted for the session, sent right after
    /// its `Hello` has been processed.
    IdAssigned(String),
}

/// Abstract value of an [`EchoCommand`].
pub enum CommandView {
    Hello(Seq<char>),
    Message(Seq<char>),
    Goodbye,
}

/// Abstract value of an [`EchoResponse`].
pub enum ResponseView {
    EchoResponse(Seq<char>),
    Goodbye,
    IdAssigned(Seq<char>),
}

impl View for EchoCommand {
    type V = CommandView;

    open spec fn view(&self) -> CommandView {
        match self {
            EchoCommand::Hello(address) => CommandView::Hello(address@),
            EchoCommand::Message(payload) => CommandView::Message(payload@),
            EchoCommand::Goodbye() => CommandView::Goodbye,
        }
    }
}

impl View for EchoResponse {
    type V = ResponseView;

    open spec fn view(&self) -> ResponseView {
        match self {
            EchoResponse::EchoResponse(payload) => ResponseView::EchoResponse(payload@),
            EchoResponse::Goodbye() => ResponseView::Goodbye,
            EchoResponse::IdAssigned(id) => ResponseView::IdAssigned(id@),
        }
    }
}

} // verus!
