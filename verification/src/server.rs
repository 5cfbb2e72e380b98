//! The connection server's decision logic as a state machine. The
//! transport loop performs the I/O — accepting, serving, sleeping — and
//! feeds every outcome back as an event; the machine decides the next
//! state and action. The guarantees live here: accepting stops the
//! moment the shutdown signal fires, a connection serving a request
//! finishes it before closing, and the server reaches `Stopped` only
//! once every connection has finished.

use vstd::prelude::*;

verus! {

/// The server's state: accepting connections, draining the open ones
/// after the shutdown signal, or stopped.
#[derive(Debug, Clone, Copy, PartialEq, Eq, Structural)]
pub enum ServerState {
    /// Listening and serving; `open` connections are in flight.
    Accepting { open: u64 },
    /// The shutdown signal fired: no new connections, `open` still
    /// draining.
    ShuttingDown { open: u64 },
    /// Every connection has finished; the server's top-level call
    /// returns.
    Stopped,
}

/// What the transport loop observed.
#[derive(Debug, Clone, Copy, PartialEq, Eq, Structural)]
pub enum ServerEvent {
    /// A new connection was accepted.
    Accepted,
    /// Accepting failed; `transient` when the peer gave up before the
    /// handshake finished.
    AcceptFailed { transient: bool },
    /// The shutdown signal fired.
    ShutdownSignalled,
    /// One connection unit completed.
    ConnectionFinished,
}

/// What the transport loop must do next.
#[derive(Debug, Clone, Copy, PartialEq, Eq, Structural)]
pub enum ServerAction {
    /// Spawn a unit serving the accepted connection.
    ServeConnection,
    /// Keep accepting at once.
    KeepAccepting,
    /// Log the accept error and accept again after a backoff delay.
    RetryAfterBackoff,
    /// Close the listener and signal every open connection to drain.
    BeginDrain,
    /// Everything has drained: return to the caller.
    Finish,
    /// Keep waiting for the remaining connections.
    Wait,
}

/// How many connections are in flight in a state.
pub open spec fn server_open(s: ServerState) -> int {
    match s {
        ServerState::Accepting { open } => open as int,
        ServerState::ShuttingDown { open } => open as int,
        ServerState::Stopped => 0,
    }
}

/// Which events a state admits: a stopped server receives nothing, a
/// draining server only connection completions, and a completion needs a
/// connection in flight.
pub open spec fn server_event_admitted(s: ServerState, e: ServerEvent) -> bool {
    match s {
        ServerState::Accepting { open } => match e {
            ServerEvent::Accepted => open < u64::MAX,
            ServerEvent::ConnectionFinished => open > 0,
            _ => true,
        },
        ServerState::ShuttingDown { open } => e is ConnectionFinished && open > 0,
        ServerState::Stopped => false,
    }
}

/// The transition table.
pub open spec fn spec_server_step(s: ServerState, e: ServerEvent) -> (ServerState, ServerAction) {
    match s {
        ServerState::Accepting { open } => match e {
            ServerEvent::Accepted => (
                ServerState::Accepting { open: (open + 1) as u64 },
                ServerAction::ServeConnection,
            ),
            ServerEvent::AcceptFailed { transient } => (
                s,
                if transient {
                    ServerAction::KeepAccepting
                } else {
                    ServerAction::RetryAfterBackoff
                },
            ),
            ServerEvent::ShutdownSignalled => if open == 0 {
                (ServerState::Stopped, ServerAction::Finish)
            } else {
                (ServerState::ShuttingDown { open }, ServerAction::BeginDrain)
            },
            ServerEvent::ConnectionFinished => (
                ServerState::Accepting { open: (open - 1) as u64 },
                ServerAction::KeepAccepting,
            ),
        },
        ServerState::ShuttingDown { open } => if open == 1 {
            (ServerState::Stopped, ServerAction::Finish)
        } else {
            (ServerState::ShuttingDown { open: (open - 1) as u64 }, ServerAction::Wait)
        },
        ServerState::Stopped => (s, ServerAction::Wait),
    }
}

/// One decision step of the server.
pub fn server_step(s: ServerState, e: ServerEvent) -> (r: (ServerState, ServerAction))
    requires
        server_event_admitted(s, e),
    ensures
        r == spec_server_step(s, e),
{
    match s {
        ServerState::Accepting { open } => match e {
            ServerEvent::Accepted => (
                ServerState::Accepting { open: open + 1 },
                ServerAction::ServeConnection,
            ),
            ServerEvent::AcceptFailed { transient } => (
                s,
                if transient {
                    ServerAction::KeepAccepting
                } else {
                    ServerAction::RetryAfterBackoff
                },
            ),
            ServerEvent::ShutdownSignalled => if open == 0 {
                (ServerState::Stopped, ServerAction::Finish)
            } else {
                (ServerState::ShuttingDown { open }, ServerAction::BeginDrain)
            },
            ServerEvent::ConnectionFinished => (
                ServerState::Accepting { open: open - 1 },
                ServerAction::KeepAccepting,
            ),
        },
        ServerState::ShuttingDown { open } => if open == 1 {
            (ServerState::Stopped, ServerAction::Finish)
        } else {
            (ServerState::ShuttingDown { open: open - 1 }, ServerAction::Wait)
        },
        ServerState::Stopped => (s, ServerAction::Wait),
    }
}

/// Whether an accept error is a transient peer-side connection error:
/// the loop goes on at once rather than backing off.
#[derive(Debug, Clone, Copy, PartialEq, Eq, Structural)]
pub enum AcceptErrorKind {
    ConnectionRefused,
    ConnectionAborted,
    ConnectionReset,
    Other,
}

/// Classifies an accept error: peer-side connection errors are
/// transient.
pub fn is_connection_error(kind: &AcceptErrorKind) -> (r: bool)
    ensures
        r == (kind is ConnectionRefused || kind is ConnectionAborted || kind is ConnectionReset),
{
    match kind {
        AcceptErrorKind::ConnectionRefused => true,
        AcceptErrorKind::ConnectionAborted => true,
        AcceptErrorKind::ConnectionReset => true,
        AcceptErrorKind::Other => false,
    }
}

/// The server stops only once no connection is open: a step ends in
/// `Stopped` only from a state with no connection in flight, or by the
/// last open connection finishing.
pub proof fn lemma_stop_requires_drained(s: ServerState, e: ServerEvent)
    requires
        server_event_admitted(s, e),
    ensures
        spec_server_step(s, e).0 is Stopped ==> server_open(s) == 0 || (server_open(s) == 1
            && e is ConnectionFinished),
{
}

/// A step never loses track of a connection: the count after a step is
/// the count before, adjusted exactly by the event.
pub proof fn lemma_open_accounting(s: ServerState, e: ServerEvent)
    requires
        server_event_admitted(s, e),
    ensures
        server_open(spec_server_step(s, e).0) == server_open(s) + (if e is Accepted {
            1int
        } else if e is ConnectionFinished {
            -1int
        } else {
            0int
        }),
{
}

/// After the shutdown signal the listener accepts nothing further: no
/// admitted event grows the connection count of a draining server.
pub proof fn lemma_no_accept_after_shutdown(s: ServerState, e: ServerEvent)
    requires
        server_event_admitted(s, e),
        s is ShuttingDown,
    ensures
        server_open(spec_server_step(s, e).0) < server_open(s),
{
}

/// The state after draining `k` connection completions.
pub open spec fn drain_steps(s: ServerState, k: nat) -> ServerState
    decreases k,
{
    if k == 0 {
        s
    } else {
        drain_steps(spec_server_step(s, ServerEvent::ConnectionFinished).0, (k - 1) as nat)
    }
}

/// Draining terminates, and not before every connection finished: from a
/// draining state with `n` open connections, exactly `n` completions
/// reach `Stopped`, and no smaller number does.
pub proof fn lemma_drain_completes(n: u64)
    requires
        n > 0,
    ensures
        drain_steps(ServerState::ShuttingDown { open: n }, n as nat) is Stopped,
        forall|k: nat| k < n ==> !(#[trigger] drain_steps(
            ServerState::ShuttingDown { open: n },
            k,
        ) is Stopped),
    decreases n,
{
    let s = ServerState::ShuttingDown { open: n };
    if n == 1 {
        lemma_drain_shift(s, 0nat);
        assert(drain_steps(s, 1nat) == spec_server_step(s, ServerEvent::ConnectionFinished).0);
        assert forall|k: nat| k < 1 implies !(#[trigger] drain_steps(s, k) is Stopped) by {
            assert(drain_steps(s, 0nat) == s);
        }
    } else {
        let s1 = ServerState::ShuttingDown { open: (n - 1) as u64 };
        lemma_drain_completes((n - 1) as u64);
        lemma_drain_shift(s, (n - 1) as nat);
        assert forall|k: nat| k < n implies !(#[trigger] drain_steps(s, k) is Stopped) by {
            if k == 0 {
                assert(drain_steps(s, 0nat) == s);
            } else {
                lemma_drain_shift(s, (k - 1) as nat);
                assert(drain_steps(s, k) == drain_steps(s1, (k - 1) as nat));
            }
        }
        assert(drain_steps(s, n as nat) == drain_steps(s1, (n - 1) as nat));
    }
}

/// Unfolding one completion at the front of a drain run.
proof fn lemma_drain_shift(s: ServerState, k: nat)
    ensures
        drain_steps(s, k + 1) == drain_steps(spec_server_step(s, ServerEvent::ConnectionFinished).0, k),
    decreases k,
{
}

/// One connection unit's state: between requests, serving one, finishing
/// the in-flight request after the shutdown signal, or closed.
#[derive(Debug, Clone, Copy, PartialEq, Eq, Structural)]
pub enum ConnState {
    /// Open, no request in progress.
    Idle,
    /// A request is being handled.
    Busy,
    /// The shutdown signal fired while a request was in progress; it is
    /// being finished, after which the connection closes.
    DrainingBusy,
    /// The connection is closed.
    Closed,
}

/// What one connection unit observed.
#[derive(Debug, Clone, Copy, PartialEq, Eq, Structural)]
pub enum ConnEvent {
    /// The peer sent a request.
    RequestArrived,
    /// The response for the request in progress was written back.
    ResponseSent,
    /// The shutdown signal fired.
    ShutdownSignalled,
    /// The peer closed the connection.
    PeerClosed,
}

/// What the connection unit must do next.
#[derive(Debug, Clone, Copy, PartialEq, Eq, Structural)]
pub enum ConnAction {
    /// Evaluate the request against the registry and respond.
    BeginLookup,
    /// Wait for the next request.
    AwaitNext,
    /// Finish the request in progress; no new request starts a lookup.
    FinishRequest,
    /// Send the protocol's going-away indication and close.
    GoAwayAndClose,
    /// A request arrived while draining: it starts no lookup.
    RejectRequest,
    /// Close without further work.
    CloseOnly,
}

/// Which events a connection state admits.
pub open spec fn conn_event_admitted(s: ConnState, e: ConnEvent) -> bool {
    match s {
        ConnState::Idle => !(e is ResponseSent),
        ConnState::Busy => !(e is RequestArrived),
        ConnState::DrainingBusy => true,
        ConnState::Closed => false,
    }
}

/// The per-connection transition table.
pub open spec fn spec_conn_step(s: ConnState, e: ConnEvent) -> (ConnState, ConnAction) {
    match s {
        ConnState::Idle => match e {
            ConnEvent::RequestArrived => (ConnState::Busy, ConnAction::BeginLookup),
            ConnEvent::ShutdownSignalled => (ConnState::Closed, ConnAction::GoAwayAndClose),
            _ => (ConnState::Closed, ConnAction::CloseOnly),
        },
        ConnState::Busy => match e {
            ConnEvent::ResponseSent => (ConnState::Idle, ConnAction::AwaitNext),
            ConnEvent::ShutdownSignalled => (ConnState::DrainingBusy, ConnAction::FinishRequest),
            _ => (ConnState::Closed, ConnAction::CloseOnly),
        },
        ConnState::DrainingBusy => match e {
            ConnEvent::ResponseSent => (ConnState::Closed, ConnAction::GoAwayAndClose),
            ConnEvent::RequestArrived => (ConnState::DrainingBusy, ConnAction::RejectRequest),
            ConnEvent::ShutdownSignalled => (ConnState::DrainingBusy, ConnAction::FinishRequest),
            ConnEvent::PeerClosed => (ConnState::Closed, ConnAction::CloseOnly),
        },
        ConnState::Closed => (s, ConnAction::CloseOnly),
    }
}

/// One decision step of a connection unit.
pub fn conn_step(s: ConnState, e: ConnEvent) -> (r: (ConnState, ConnAction))
    requires
        conn_event_admitted(s, e),
    ensures
        r == spec_conn_step(s, e),
{
    match s {
        ConnState::Idle => match e {
            ConnEvent::RequestArrived => (ConnState::Busy, ConnAction::BeginLookup),
            ConnEvent::ShutdownSignalled => (ConnState::Closed, ConnAction::GoAwayAndClose),
            _ => (ConnState::Closed, ConnAction::CloseOnly),
        },
        ConnState::Busy => match e {
            ConnEvent::ResponseSent => (ConnState::Idle, ConnAction::AwaitNext),
            ConnEvent::ShutdownSignalled => (ConnState::DrainingBusy, ConnAction::FinishRequest),
            _ => (ConnState::Closed, ConnAction::CloseOnly),
        },
        ConnState::DrainingBusy => match e {
            ConnEvent::ResponseSent => (ConnState::Closed, ConnAction::GoAwayAndClose),
            ConnEvent::RequestArrived => (ConnState::DrainingBusy, ConnAction::RejectRequest),
            ConnEvent::ShutdownSignalled => (ConnState::DrainingBusy, ConnAction::FinishRequest),
            ConnEvent::PeerClosed => (ConnState::Closed, ConnAction::CloseOnly),
        },
        ConnState::Closed => (s, ConnAction::CloseOnly),
    }
}

/// A connection with a request in progress survives the shutdown signal:
/// the signal never closes a busy connection, the request is finished
/// first, and a draining connection closes only once its response was
/// returned or the peer itself went away.
pub proof fn lemma_drain_finishes_in_flight(e: ConnEvent)
    ensures
        spec_conn_step(ConnState::Busy, ConnEvent::ShutdownSignalled) == (
            ConnState::DrainingBusy,
            ConnAction::FinishRequest,
        ),
        spec_conn_step(ConnState::DrainingBusy, e).0 is Closed ==> e is ResponseSent
            || e is PeerClosed,
        spec_conn_step(ConnState::DrainingBusy, ConnEvent::ResponseSent).1
            == ConnAction::GoAwayAndClose,
{
}

/// A draining connection never begins a stub lookup: no event after the
/// shutdown signal produces one.
pub proof fn lemma_no_lookup_while_draining(e: ConnEvent)
    ensures
        !(spec_conn_step(ConnState::DrainingBusy, e).1 is BeginLookup),
        !(spec_conn_step(ConnState::Idle, ConnEvent::ShutdownSignalled).1 is BeginLookup),
{
}

} // verus!
