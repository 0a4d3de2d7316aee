//! Session lifecycle, registry and shutdown behaviour, driven through the
//! public state machine.

use echo::ident::id_string;
use echo::message::{EchoCommand, EchoResponse};
use echo::server::{
    listener_action, AcceptEvent, Event, ListenerAction, Outcome, Server, Session, SessionError,
    SessionState,
};
use echo::shutdown::ShutdownCoordinator;

#[test]
fn echo_fidelity() {
    // Hello then Message yields exactly one IdAssigned followed by exactly
    // one Echo on the callback channel, in that order.
    let mut server = Server::new("rendezvous.socket");
    let mut session = Session::new();

    let first = session.on_event(&mut server, Event::Request(EchoCommand::Hello("cb".to_owned())));
    assert_eq!(first, Outcome::Connect("cb".to_owned()));

    let second = session.on_event(&mut server, Event::Connected(7));
    assert_eq!(
        second,
        Outcome::Deliver { handle: 7, response: EchoResponse::IdAssigned("id-1".to_owned()) }
    );

    let third = session.on_event(&mut server, Event::Request(EchoCommand::Message("abc".to_owned())));
    assert_eq!(
        third,
        Outcome::Deliver { handle: 7, response: EchoResponse::EchoResponse("abc".to_owned()) }
    );
    assert_eq!(session.state(), SessionState::Active);
}

#[test]
fn concrete_scenario() {
    // The full exchange: Hello("cb1"), IdAssigned("id-1"), Message("ping\n")
    // echoed, Goodbye answered, and afterwards the lookup of the identifier
    // finds nothing.
    let mut server = Server::new("rendezvous.socket");
    let mut session = Session::new();

    let hello = EchoCommand::Hello("cb1".to_owned());
    let outcome = session.on_event(&mut server, Event::Request(hello));
    assert_eq!(outcome, Outcome::Connect("cb1".to_owned()));

    let outcome = session.on_event(&mut server, Event::Connected(1));
    assert_eq!(
        outcome,
        Outcome::Deliver { handle: 1, response: EchoResponse::IdAssigned("id-1".to_owned()) }
    );
    assert_eq!(server.lookup(1), Some(1));

    let outcome =
        session.on_event(&mut server, Event::Request(EchoCommand::Message("ping\n".to_owned())));
    assert_eq!(
        outcome,
        Outcome::Deliver { handle: 1, response: EchoResponse::EchoResponse("ping\n".to_owned()) }
    );

    let outcome = session.on_event(&mut server, Event::Request(EchoCommand::Goodbye()));
    assert_eq!(outcome, Outcome::Farewell { handle: 1 });
    assert_eq!(session.state(), SessionState::Closed);
    assert_eq!(server.lookup(1), None);
    assert_eq!(server.live_sessions(), 0);
}

#[test]
fn out_of_order_message_rejected() {
    let mut server = Server::new("rendezvous.socket");
    let mut session = Session::new();
    let outcome =
        session.on_event(&mut server, Event::Request(EchoCommand::Message("abc".to_owned())));
    assert_eq!(outcome, Outcome::Reject(SessionError::ProtocolViolation));
    assert_eq!(session.state(), SessionState::Closed);
    assert_eq!(server.live_sessions(), 0);
}

#[test]
fn out_of_order_goodbye_rejected() {
    let mut server = Server::new("rendezvous.socket");
    let mut session = Session::new();
    let outcome = session.on_event(&mut server, Event::Request(EchoCommand::Goodbye()));
    assert_eq!(outcome, Outcome::Reject(SessionError::ProtocolViolation));
    assert_eq!(session.state(), SessionState::Closed);
    assert_eq!(server.live_sessions(), 0);
}

#[test]
fn unreachable_callback_fails_session() {
    let mut server = Server::new("rendezvous.socket");
    let mut session = Session::new();
    session.on_event(&mut server, Event::Request(EchoCommand::Hello("nowhere".to_owned())));
    let outcome = session.on_event(&mut server, Event::ConnectFailed);
    assert_eq!(outcome, Outcome::Reject(SessionError::UnreachableCallback));
    assert_eq!(session.state(), SessionState::Closed);
    assert_eq!(server.live_sessions(), 0);
}

#[test]
fn framing_error_closes_and_cleans_up() {
    let mut server = Server::new("rendezvous.socket");
    let mut session = Session::new();
    session.on_event(&mut server, Event::Request(EchoCommand::Hello("cb".to_owned())));
    session.on_event(&mut server, Event::Connected(3));
    let outcome = session.on_event(&mut server, Event::Malformed);
    assert_eq!(outcome, Outcome::Reject(SessionError::FramingError));
    assert_eq!(session.state(), SessionState::Closed);
    assert_eq!(server.lookup(1), None);
}

#[test]
fn channel_closure_is_implicit_goodbye() {
    let mut server = Server::new("rendezvous.socket");
    let mut session = Session::new();
    session.on_event(&mut server, Event::Request(EchoCommand::Hello("cb".to_owned())));
    session.on_event(&mut server, Event::Connected(3));
    let outcome = session.on_event(&mut server, Event::ChannelClosed);
    assert_eq!(outcome, Outcome::Farewell { handle: 3 });
    assert_eq!(session.state(), SessionState::Closed);
    assert_eq!(server.lookup(1), None);
}

#[test]
fn second_hello_rejected() {
    let mut server = Server::new("rendezvous.socket");
    let mut session = Session::new();
    session.on_event(&mut server, Event::Request(EchoCommand::Hello("cb".to_owned())));
    session.on_event(&mut server, Event::Connected(3));
    let outcome =
        session.on_event(&mut server, Event::Request(EchoCommand::Hello("again".to_owned())));
    assert_eq!(outcome, Outcome::Reject(SessionError::ProtocolViolation));
    assert_eq!(session.state(), SessionState::Closed);
    assert_eq!(server.lookup(1), None);
}

#[test]
fn identifiers_are_unique_across_sessions() {
    let mut server = Server::new("rendezvous.socket");
    let mut ids: Vec<String> = Vec::new();
    for k in 0..3u64 {
        let mut session = Session::new();
        session.on_event(&mut server, Event::Request(EchoCommand::Hello("cb".to_owned())));
        match session.on_event(&mut server, Event::Connected(10 + k)) {
            Outcome::Deliver { response: EchoResponse::IdAssigned(id), .. } => ids.push(id),
            other => panic!("expected an assigned id, got {:?}", other),
        }
    }
    assert_eq!(ids, vec!["id-1".to_owned(), "id-2".to_owned(), "id-3".to_owned()]);
    assert_eq!(server.live_sessions(), 3);
}

#[test]
fn graceful_drain() {
    // Shutdown with two active sessions: each gets exactly one terminal
    // Goodbye, and the coordinator holds the process until both barrier
    // tokens are back.
    let mut server = Server::new("rendezvous.socket");
    let mut coordinator = ShutdownCoordinator::new();

    let mut first = Session::new();
    coordinator.issue_token();
    first.on_event(&mut server, Event::Request(EchoCommand::Hello("cb1".to_owned())));
    first.on_event(&mut server, Event::Connected(21));

    let mut second = Session::new();
    coordinator.issue_token();
    second.on_event(&mut server, Event::Request(EchoCommand::Hello("cb2".to_owned())));
    second.on_event(&mut server, Event::Connected(22));

    assert!(coordinator.trigger());
    assert!(!coordinator.trigger());
    assert!(!coordinator.may_exit());

    assert_eq!(first.on_event(&mut server, Event::Shutdown), Outcome::Farewell { handle: 21 });
    assert_eq!(first.on_event(&mut server, Event::Shutdown), Outcome::Done);
    coordinator.release_token();
    assert!(!coordinator.may_exit());

    assert_eq!(second.on_event(&mut server, Event::Shutdown), Outcome::Farewell { handle: 22 });
    coordinator.release_token();
    assert!(coordinator.may_exit());
    assert!(coordinator.drained());

    assert_eq!(server.live_sessions(), 0);
    assert_eq!(first.state(), SessionState::Closed);
    assert_eq!(second.state(), SessionState::Closed);
}

#[test]
fn live_entries_lists_every_open_callback() {
    let mut server = Server::new("rendezvous.socket");
    for k in 0..2u64 {
        let mut session = Session::new();
        session.on_event(&mut server, Event::Request(EchoCommand::Hello("cb".to_owned())));
        session.on_event(&mut server, Event::Connected(40 + k));
    }
    let mut entries = server.live_entries();
    entries.sort();
    assert_eq!(entries, vec![(1, 40), (2, 41)]);
}

#[test]
fn id_strings_spell_the_counter() {
    assert_eq!(id_string(0), "id-0");
    assert_eq!(id_string(1), "id-1");
    assert_eq!(id_string(42), "id-42");
    assert_eq!(id_string(1234567890), "id-1234567890");
}

#[test]
fn listener_decisions() {
    assert_eq!(listener_action(AcceptEvent::Accepted), ListenerAction::SpawnHandler);
    assert_eq!(listener_action(AcceptEvent::TransientError), ListenerAction::RetryAfterBackoff);
    assert_eq!(listener_action(AcceptEvent::FatalError), ListenerAction::FailListener);
    assert_eq!(listener_action(AcceptEvent::ShutdownSignal), ListenerAction::StopAccepting);
}
