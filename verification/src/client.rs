//! Client-side decisions.
//!
//! The client sends `Hello` with its callback address, then turns each line
//! read from its operator into a `Message` request, while a second task
//! watches the callback channel and reacts to each response.  Reading lines,
//! connecting and printing are done by the process around the library; the
//! decisions are made here.

use vstd::prelude::*;

use crate::message::{EchoCommand, EchoResponse, ResponseView};

verus! {

/// What the client does with one response from its callback channel.
#[derive(Debug, PartialEq, Eq)]
pub enum ClientAction {
    /// The server assigned this correlation identifier to the session.
    SessionAssigned(String),
    /// Show the echoed payload to the operator.
    Display(String),
    /// The server said goodbye; the client is done.
    Finished,
}

/// Abstract value of a [`ClientAction`].
pub enum ClientActionView {
    SessionAssigned(Seq<char>),
    Display(Seq<char>),
    Finished,
}

impl View for ClientAction {
    type V = ClientActionView;

    open spec fn view(&self) -> ClientActionView {
        match self {
            ClientAction::SessionAssigned(id) => ClientActionView::SessionAssigned(id@),
            ClientAction::Display(payload) => ClientActionView::Display(payload@),
            ClientAction::Finished => ClientActionView::Finished,
        }
    }
}

/// The client's reaction to each response.
pub open spec fn spec_client_action(response: ResponseView) -> ClientActionView {
    match response {
        ResponseView::IdAssigned(id) => ClientActionView::SessionAssigned(id),
        ResponseView::EchoResponse(payload) => ClientActionView::Display(payload),
        ResponseView::Goodbye => ClientActionView::Finished,
    }
}

/// Decide what to do with one response from the callback channel.
pub fn client_on_response(response: EchoResponse) -> (action: ClientAction)
    ensures
        action@ == spec_client_action(response@),
{
    match response {
        EchoResponse::IdAssigned(id) => ClientAction::SessionAssigned(id),
        EchoResponse::EchoResponse(payload) => ClientAction::Display(payload),
        EchoResponse::Goodbye() => ClientAction::Finished,
    }
}

/// Turn one line read from the operator into the next request: an empty
/// read means end of input and closes the session; anything else is echoed.
pub fn input_line_request(line: String) -> (request: Option<EchoCommand>)
    ensures
        line@.len() == 0 ==> request is None,
        line@.len() > 0 ==> request == Some(EchoCommand::Message(line)),
{
    if line.as_str().is_empty() {
        None
    } else {
        Some(EchoCommand::Message(line))
    }
}

} // verus!
