//! The server core: shared state and the per-session state machine.
//!
//! Each accepted connection is driven by one `Session`, which walks
//! `AwaitingHello -> Connecting -> Active -> Closed` (`Connecting` is the
//! suspension point inside `Hello` processing, while the callback connect is
//! in flight).  Sessions share only the `Server`: the registry of live
//! callback channels and the counter that mints identifiers.  The process
//! around the library reads frames, opens connections and writes responses;
//! every decision — what the next state is, what the registry becomes, what
//! is sent where — is made here, by `Session::on_event`, whose behaviour is
//! the specification function `step`.

use vstd::prelude::*;

use crate::ident::{id_chars, id_string, lemma_id_chars_injective};
use crate::message::{CommandView, EchoCommand, EchoResponse, ResponseView};
use crate::registry::Registry;

verus! {

/// Where a session stands in its lifecycle.
#[derive(Clone, Copy, Debug, PartialEq, Eq, Structural)]
pub enum SessionState {
    /// Nothing received yet; only `Hello` is in order.
    AwaitingHello,
    /// `Hello` received; the callback connect is in flight.
    Connecting,
    /// Registered and echoing.
    Active,
    /// Terminal; the session's task ends.
    Closed,
}

/// Why a session failed.  Each is fatal to its one connection, never to the
/// process.
#[derive(Clone, Copy, Debug, PartialEq, Eq, Structural)]
pub enum SessionError {
    /// A malformed or truncated frame arrived on the request channel.
    FramingError,
    /// The callback address named in `Hello` could not be reached.
    UnreachableCallback,
    /// A request arrived out of state-machine order.
    ProtocolViolation,
    /// An active session's own identifier was missing from the registry,
    /// which signals a defect, not a recoverable condition.
    RegistryInvariantViolation,
}

/// What a session's task observed: a decoded request, the fate of the
/// request channel, the shutdown race, or the result of a callback connect.
#[derive(Debug, PartialEq, Eq)]
pub enum Event {
    /// One whole request frame was decoded.
    Request(EchoCommand),
    /// The request channel reached end of stream, or a required callback
    /// write failed; either way the channel is gone.
    ChannelClosed,
    /// The decoder reported a framing error on the request channel.
    Malformed,
    /// The shutdown broadcast won the race against the next request.
    Shutdown,
    /// The callback connect finished; the value is the task's handle for
    /// the new channel.
    Connected(u64),
    /// The callback address was unreachable.
    ConnectFailed,
}

/// Abstract value of an [`Event`].
pub enum EventView {
    Request(CommandView),
    ChannelClosed,
    Malformed,
    Shutdown,
    Connected(u64),
    ConnectFailed,
}

impl View for Event {
    type V = EventView;

    open spec fn view(&self) -> EventView {
        match self {
            Event::Request(command) => EventView::Request(command@),
            Event::ChannelClosed => EventView::ChannelClosed,
            Event::Malformed => EventView::Malformed,
            Event::Shutdown => EventView::Shutdown,
            Event::Connected(handle) => EventView::Connected(*handle),
            Event::ConnectFailed => EventView::ConnectFailed,
        }
    }
}

/// What the session's task must now do.
#[derive(Debug, PartialEq, Eq)]
pub enum Outcome {
    /// Open a callback connection to this address, then feed back
    /// `Connected` or `ConnectFailed`.
    Connect(String),
    /// Send this response over the callback channel with this handle; if
    /// the send fails, feed back `ChannelClosed`.
    Deliver { handle: u64, response: EchoResponse },
    /// Send a terminal `Goodbye` over the callback channel with this
    /// handle, best effort: a failure is swallowed, the peer may already be
    /// gone.
    Farewell { handle: u64 },
    /// The session failed; close the request channel.
    Reject(SessionError),
    /// Nothing to send; the session may have closed quietly.
    Done,
}

/// Abstract value of an [`Outcome`].
pub enum OutcomeView {
    Connect(Seq<char>),
    Deliver { handle: u64, response: ResponseView },
    Farewell { handle: u64 },
    Reject(SessionError),
    Done,
}

impl View for Outcome {
    type V = OutcomeView;

    open spec fn view(&self) -> OutcomeView {
        match self {
            Outcome::Connect(address) => OutcomeView::Connect(address@),
            Outcome::Deliver { handle, response } => OutcomeView::Deliver {
                handle: *handle,
                response: response@,
            },
            Outcome::Farewell { handle } => OutcomeView::Farewell { handle: *handle },
            Outcome::Reject(error) => OutcomeView::Reject(*error),
            Outcome::Done => OutcomeView::Done,
        }
    }
}

/// The state a session shares with nobody: where it stands, and the
/// identifier it was assigned on activation.
pub struct Session {
    state: SessionState,
    id: Option<u64>,
}

/// The state all sessions share: the rendezvous address, the registry of
/// live callback channels, and the identifier counter.
pub struct Server {
    server_socket_path: String,
    registry: Registry,
    next_id: u64,
}

/// Everything one step of the state machine decides.
pub struct StepResult {
    /// The session's next state.
    pub state: SessionState,
    /// The session's identifier afterwards.
    pub id: Option<u64>,
    /// The registry afterwards.
    pub registry: Map<u64, u64>,
    /// The identifier counter afterwards.
    pub next_id: u64,
    /// What the session's task must do.
    pub outcome: OutcomeView,
}

/// Which events can reach a session in which state: connect results arrive
/// exactly while the callback connect is in flight.
pub open spec fn event_fits(state: SessionState, ev: EventView) -> bool {
    match state {
        SessionState::Connecting => ev is Connected || ev is ConnectFailed,
        _ => !(ev is Connected) && !(ev is ConnectFailed),
    }
}

/// One step of the per-session state machine, as a function of the
/// session's state, the shared registry and identifier counter, and the
/// observed event.
pub open spec fn step(
    state: SessionState,
    id: Option<u64>,
    registry: Map<u64, u64>,
    next_id: u64,
    ev: EventView,
) -> StepResult {
    match state {
        SessionState::AwaitingHello => match ev {
            EventView::Request(CommandView::Hello(address)) => StepResult {
                state: SessionState::Connecting,
                id,
                registry,
                next_id,
                outcome: OutcomeView::Connect(address),
            },
            EventView::Request(_) => StepResult {
                state: SessionState::Closed,
                id,
                registry,
                next_id,
                outcome: OutcomeView::Reject(SessionError::ProtocolViolation),
            },
            EventView::Malformed => StepResult {
                state: SessionState::Closed,
                id,
                registry,
                next_id,
                outcome: OutcomeView::Reject(SessionError::FramingError),
            },
            _ => StepResult {
                state: SessionState::Closed,
                id,
                registry,
                next_id,
                outcome: OutcomeView::Done,
            },
        },
        SessionState::Connecting => match ev {
            EventView::Connected(handle) => StepResult {
                state: SessionState::Active,
                id: Some(next_id),
                registry: registry.insert(next_id, handle),
                next_id: (next_id + 1) as u64,
                outcome: OutcomeView::Deliver {
                    handle,
                    response: ResponseView::IdAssigned(id_chars(next_id as nat)),
                },
            },
            EventView::ConnectFailed => StepResult {
                state: SessionState::Closed,
                id,
                registry,
                next_id,
                outcome: OutcomeView::Reject(SessionError::UnreachableCallback),
            },
            _ => StepResult {
                state: SessionState::Closed,
                id,
                registry,
                next_id,
                outcome: OutcomeView::Done,
            },
        },
        SessionState::Active => match id {
            Some(session_id) => match ev {
                EventView::Request(CommandView::Message(payload)) => {
                    if registry.dom().contains(session_id) {
                        StepResult {
                            state: SessionState::Active,
                            id,
                            registry,
                            next_id,
                            outcome: OutcomeView::Deliver {
                                handle: registry[session_id],
                                response: ResponseView::EchoResponse(payload),
                            },
                        }
                    } else {
                        StepResult {
                            state: SessionState::Closed,
                            id,
                            registry,
                            next_id,
                            outcome: OutcomeView::Reject(SessionError::RegistryInvariantViolation),
                        }
                    }
                },
                EventView::Request(CommandView::Goodbye) | EventView::ChannelClosed
                    | EventView::Shutdown => {
                    if registry.dom().contains(session_id) {
                        StepResult {
                            state: SessionState::Closed,
                            id,
                            registry: registry.remove(session_id),
                            next_id,
                            outcome: OutcomeView::Farewell { handle: registry[session_id] },
                        }
                    } else {
                        StepResult {
                            state: SessionState::Closed,
                            id,
                            registry,
                            next_id,
                            outcome: OutcomeView::Reject(SessionError::RegistryInvariantViolation),
                        }
                    }
                },
                EventView::Request(CommandView::Hello(_)) => StepResult {
                    state: SessionState::Closed,
                    id,
                    registry: registry.remove(session_id),
                    next_id,
                    outcome: OutcomeView::Reject(SessionError::ProtocolViolation),
                },
                EventView::Malformed => StepResult {
                    state: SessionState::Closed,
                    id,
                    registry: registry.remove(session_id),
                    next_id,
                    outcome: OutcomeView::Reject(SessionError::FramingError),
                },
                _ => StepResult {
                    state: SessionState::Closed,
                    id,
                    registry,
                    next_id,
                    outcome: OutcomeView::Done,
                },
            },
            None => StepResult {
                state: SessionState::Closed,
                id,
                registry,
                next_id,
                outcome: OutcomeView::Reject(SessionError::RegistryInvariantViolation),
            },
        },
        SessionState::Closed => StepResult {
            state: SessionState::Closed,
            id,
            registry,
            next_id,
            outcome: OutcomeView::Done,
        },
    }
}

impl Server {
    /// The registry's current map.
    pub closed spec fn registry_map(&self) -> Map<u64, u64> {
        self.registry@
    }

    /// The next identifier to be minted.
    pub closed spec fn next_session_id(&self) -> u64 {
        self.next_id
    }

    /// The rendezvous socket path.
    pub closed spec fn spec_socket_path(&self) -> Seq<char> {
        self.server_socket_path@
    }

    /// Well-formedness: the registry is sound and holds only identifiers
    /// minted so far, which is what keeps fresh identifiers fresh.
    pub closed spec fn wf(&self) -> bool {
        &&& self.registry.wf()
        &&& forall|k: u64| self.registry@.dom().contains(k) ==> k < self.next_id
    }

    /// A fresh server core for the given rendezvous socket path: an empty
    /// registry, identifiers minted from one upward.
    pub fn new(server_socket_path: &str) -> (server: Server)
        ensures
            server.wf(),
            server.registry_map() == Map::<u64, u64>::empty(),
            server.next_session_id() == 1,
            server.spec_socket_path() == server_socket_path@,
    {
        Server {
            server_socket_path: server_socket_path.to_owned(),
            registry: Registry::new(),
            next_id: 1,
        }
    }

    /// The rendezvous socket path to bind.
    pub fn socket_path(&self) -> (path: &str)
        ensures
            path@ == self.spec_socket_path(),
    {
        self.server_socket_path.as_str()
    }

    /// Look up the callback handle registered for `id`; `None` means the
    /// session is already closed (or was never registered).
    pub fn lookup(&self, id: u64) -> (handle: Option<u64>)
        requires
            self.wf(),
        ensures
            handle is Some <==> self.registry_map().dom().contains(id),
            handle matches Some(h) ==> self.registry_map()[id] == h,
    {
        self.registry.get(id)
    }

    /// Is there room to mint another identifier?  True for the life of any
    /// real process; the counter never wraps.
    pub fn can_mint(&self) -> (room: bool)
        ensures
            room == (self.next_session_id() < u64::MAX),
    {
        self.next_id < u64::MAX
    }

    /// How many sessions are live in the registry.
    pub fn live_sessions(&self) -> (count: usize)
        requires
            self.wf(),
        ensures
            count == self.registry_map().dom().len(),
    {
        self.registry.len()
    }

    /// Every live entry, one per identifier, for notifying all open
    /// callback channels at shutdown.
    pub fn live_entries(&self) -> (live: Vec<(u64, u64)>)
        requires
            self.wf(),
        ensures
            live@.len() == self.registry_map().dom().len(),
            forall|i: int|
                0 <= i < live@.len() ==> #[trigger] self.registry_map().contains_pair(
                    live@[i].0,
                    live@[i].1,
                ),
    {
        self.registry.entries()
    }
}

impl Session {
    /// Where the session stands.
    pub closed spec fn spec_state(&self) -> SessionState {
        self.state
    }

    /// The identifier assigned on activation, if any.
    pub closed spec fn spec_id(&self) -> Option<u64> {
        self.id
    }

    /// A session agrees with the server it runs under: an identifier is
    /// assigned exactly from `Active` on, and was minted by that server.
    pub open spec fn consistent_with(&self, server: Server) -> bool {
        match self.spec_state() {
            SessionState::AwaitingHello => self.spec_id() is None,
            SessionState::Connecting => self.spec_id() is None,
            SessionState::Active => self.spec_id() matches Some(id) && id
                < server.next_session_id(),
            SessionState::Closed => true,
        }
    }

    /// A fresh session for a newly accepted connection.
    pub fn new() -> (session: Session)
        ensures
            session.spec_state() == SessionState::AwaitingHello,
            session.spec_id() is None,
    {
        Session { state: SessionState::AwaitingHello, id: None }
    }

    /// Where the session stands.
    pub fn state(&self) -> (state: SessionState)
        ensures
            state == self.spec_state(),
    {
        self.state
    }

    /// Can this event reach the session in its current state?  The task
    /// checks this before feeding an event.
    pub fn accepts(&self, event: &Event) -> (fits: bool)
        ensures
            fits == event_fits(self.spec_state(), event@),
    {
        match self.state {
            SessionState::Connecting => match event {
                Event::Connected(_) | Event::ConnectFailed => true,
                _ => false,
            },
            _ => match event {
                Event::Connected(_) | Event::ConnectFailed => false,
                _ => true,
            },
        }
    }

    /// Feed one observed event to the session.  The session, the shared
    /// registry and the identifier counter move exactly as [`step`] says,
    /// and the returned outcome is the action the task must carry out.
    pub fn on_event(&mut self, server: &mut Server, event: Event) -> (outcome: Outcome)
        requires
            old(server).wf(),
            old(self).consistent_with(*old(server)),
            event_fits(old(self).spec_state(), event@),
            old(server).next_session_id() < u64::MAX,
        ensures
            ({
                let r = step(
                    old(self).spec_state(),
                    old(self).spec_id(),
                    old(server).registry_map(),
                    old(server).next_session_id(),
                    event@,
                );
                &&& final(self).spec_state() == r.state
                &&& final(self).spec_id() == r.id
                &&& final(server).registry_map() == r.registry
                &&& final(server).next_session_id() == r.next_id
                &&& outcome@ == r.outcome
            }),
            final(server).wf(),
            final(server).spec_socket_path() == old(server).spec_socket_path(),
            final(self).consistent_with(*final(server)),
    {
        match self.state {
            SessionState::AwaitingHello => match event {
                Event::Request(EchoCommand::Hello(address)) => {
                    self.state = SessionState::Connecting;
                    Outcome::Connect(address)
                },
                Event::Request(_) => {
                    self.state = SessionState::Closed;
                    Outcome::Reject(SessionError::ProtocolViolation)
                },
                Event::Malformed => {
                    self.state = SessionState::Closed;
                    Outcome::Reject(SessionError::FramingError)
                },
                _ => {
                    self.state = SessionState::Closed;
                    Outcome::Done
                },
            },
            SessionState::Connecting => match event {
                Event::Connected(handle) => {
                    let session_id = server.next_id;
                    server.registry.insert(session_id, handle);
                    server.next_id = server.next_id + 1;
                    self.id = Some(session_id);
                    self.state = SessionState::Active;
                    Outcome::Deliver {
                        handle,
                        response: EchoResponse::IdAssigned(id_string(session_id)),
                    }
                },
                Event::ConnectFailed => {
                    self.state = SessionState::Closed;
                    Outcome::Reject(SessionError::UnreachableCallback)
                },
                _ => {
                    self.state = SessionState::Closed;
                    Outcome::Done
                },
            },
            SessionState::Active => {
                let session_id = match self.id {
                    Some(session_id) => session_id,
                    None => {
                        self.state = SessionState::Closed;
                        return Outcome::Reject(SessionError::RegistryInvariantViolation);
                    },
                };
                match event {
                    Event::Request(EchoCommand::Message(payload)) => {
                        match self.registry_handle(server, session_id) {
                            Some(handle) => Outcome::Deliver {
                                handle,
                                response: EchoResponse::EchoResponse(payload),
                            },
                            None => {
                                self.state = SessionState::Closed;
                                Outcome::Reject(SessionError::RegistryInvariantViolation)
                            },
                        }
                    },
                    Event::Request(EchoCommand::Goodbye()) | Event::ChannelClosed
                        | Event::Shutdown => {
                        match self.registry_handle(server, session_id) {
                            Some(handle) => {
                                server.registry.remove(session_id);
                                self.state = SessionState::Closed;
                                Outcome::Farewell { handle }
                            },
                            None => {
                                self.state = SessionState::Closed;
                                Outcome::Reject(SessionError::RegistryInvariantViolation)
                            },
                        }
                    },
                    Event::Request(EchoCommand::Hello(_)) => {
                        server.registry.remove(session_id);
                        self.state = SessionState::Closed;
                        Outcome::Reject(SessionError::ProtocolViolation)
                    },
                    Event::Malformed => {
                        server.registry.remove(session_id);
                        self.state = SessionState::Closed;
                        Outcome::Reject(SessionError::FramingError)
                    },
                    _ => {
                        self.state = SessionState::Closed;
                        Outcome::Done
                    },
                }
            },
            SessionState::Closed => Outcome::Done,
        }
    }

    /// The session's registered callback handle, if its entry is live.
    fn registry_handle(&self, server: &Server, session_id: u64) -> (handle: Option<u64>)
        requires
            server.wf(),
        ensures
            handle is Some <==> server.registry_map().dom().contains(session_id),
            handle matches Some(h) ==> server.registry_map()[session_id] == h,
    {
        server.registry.get(session_id)
    }
}


/// Registry consistency: once a session's entry is gone and its identifier
/// lies below the minting counter — as every minted identifier does — no
/// later step of any session resurrects it, and it stays below the counter.
/// Lookups of that identifier therefore answer "not found" forever.
pub proof fn lemma_no_resurrection(
    state: SessionState,
    id: Option<u64>,
    registry: Map<u64, u64>,
    next_id: u64,
    ev: EventView,
    gone: u64,
)
    requires
        !registry.dom().contains(gone),
        gone < next_id,
        next_id < u64::MAX,
    ensures
        !step(state, id, registry, next_id, ev).registry.dom().contains(gone),
        gone < step(state, id, registry, next_id, ev).next_id,
{
}

/// The identifier counter never moves backward, and a step either keeps a
/// session's identifier or assigns it the counter's current value.
pub proof fn lemma_minting_monotone(
    state: SessionState,
    id: Option<u64>,
    registry: Map<u64, u64>,
    next_id: u64,
    ev: EventView,
)
    requires
        next_id < u64::MAX,
    ensures
        step(state, id, registry, next_id, ev).next_id >= next_id,
        step(state, id, registry, next_id, ev).id == id || (step(
            state,
            id,
            registry,
            next_id,
            ev,
        ).id == Some(next_id) && step(state, id, registry, next_id, ev).next_id == next_id + 1),
{
}

/// Session identity uniqueness: the step that activates a session assigns
/// it the counter's current value, which differs — as a number and as the
/// string sent on the wire — from every identifier minted before, and so
/// from that of every other session activated under the same server.
pub proof fn lemma_identity_uniqueness(
    id: Option<u64>,
    registry: Map<u64, u64>,
    next_id: u64,
    handle: u64,
    earlier_id: u64,
)
    requires
        earlier_id < next_id,
    ensures
        ({
            let r = step(
                SessionState::Connecting,
                id,
                registry,
                next_id,
                EventView::Connected(handle),
            );
            &&& r.id == Some(next_id)
            &&& next_id != earlier_id
            &&& id_chars(next_id as nat) != id_chars(earlier_id as nat)
        }),
{
    if id_chars(next_id as nat) == id_chars(earlier_id as nat) {
        lemma_id_chars_injective(next_id as nat, earlier_id as nat);
    }
}

/// A closed session is terminal: every further event leaves it closed,
/// touches neither the registry nor the counter, and sends nothing.
pub proof fn lemma_closed_is_terminal(
    id: Option<u64>,
    registry: Map<u64, u64>,
    next_id: u64,
    ev: EventView,
)
    ensures
        ({
            let r = step(SessionState::Closed, id, registry, next_id, ev);
            &&& r.state == SessionState::Closed
            &&& r.registry == registry
            &&& r.next_id == next_id
            &&& r.outcome == OutcomeView::Done
        }),
{
}

/// Each session bids farewell at most once: a step that emits the terminal
/// `Goodbye` leaves the session closed and its registry entry removed, and
/// a closed session never emits one again.
pub proof fn lemma_at_most_one_farewell(
    state: SessionState,
    id: Option<u64>,
    registry: Map<u64, u64>,
    next_id: u64,
    ev: EventView,
)
    ensures
        ({
            let r = step(state, id, registry, next_id, ev);
            &&& r.outcome is Farewell ==> r.state == SessionState::Closed && (id matches Some(i)
                && !r.registry.dom().contains(i))
            &&& state == SessionState::Closed ==> !(r.outcome is Farewell)
        }),
{
}

/// Out-of-order rejection: `Message` or `Goodbye` as the first request on a
/// fresh connection closes the session as a protocol violation and never
/// creates a registry entry — the registry and the counter are untouched.
pub proof fn lemma_out_of_order_rejected(
    id: Option<u64>,
    registry: Map<u64, u64>,
    next_id: u64,
    ev: EventView,
)
    requires
        ev matches EventView::Request(c) && !(c is Hello),
    ensures
        ({
            let r = step(SessionState::AwaitingHello, id, registry, next_id, ev);
            &&& r.state == SessionState::Closed
            &&& r.outcome == OutcomeView::Reject(SessionError::ProtocolViolation)
            &&& r.registry == registry
            &&& r.next_id == next_id
        }),
{
}


/// How one accept attempt on the rendezvous channel ended, as the process
/// observed it.
#[derive(Clone, Copy, Debug, PartialEq, Eq, Structural)]
pub enum AcceptEvent {
    /// A peer connected.
    Accepted,
    /// A passing failure, such as no pending connection.
    TransientError,
    /// The listening channel itself is broken.
    FatalError,
    /// The shutdown signal won the race against the next connection.
    ShutdownSignal,
}

/// What the listener loop does next.
#[derive(Clone, Copy, Debug, PartialEq, Eq, Structural)]
pub enum ListenerAction {
    /// Spawn a handler for the new connection, with a fresh session, a
    /// fresh shutdown subscription and one barrier token.
    SpawnHandler,
    /// Retry the accept after a short backoff; the operator never sees it.
    RetryAfterBackoff,
    /// Fatal: stop the listener and propagate the failure to the root.
    FailListener,
    /// Stop accepting new work and begin the drain.
    StopAccepting,
}

/// The listener's decision for each accept outcome.
pub open spec fn spec_listener_action(event: AcceptEvent) -> ListenerAction {
    match event {
        AcceptEvent::Accepted => ListenerAction::SpawnHandler,
        AcceptEvent::TransientError => ListenerAction::RetryAfterBackoff,
        AcceptEvent::FatalError => ListenerAction::FailListener,
        AcceptEvent::ShutdownSignal => ListenerAction::StopAccepting,
    }
}

/// Decide what the listener loop does after one accept attempt.
pub fn listener_action(event: AcceptEvent) -> (action: ListenerAction)
    ensures
        action == spec_listener_action(event),
{
    match event {
        AcceptEvent::Accepted => ListenerAction::SpawnHandler,
        AcceptEvent::TransientError => ListenerAction::RetryAfterBackoff,
        AcceptEvent::FatalError => ListenerAction::FailListener,
        AcceptEvent::ShutdownSignal => ListenerAction::StopAccepting,
    }
}

} // verus!
