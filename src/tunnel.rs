//! The per-connection relay of the tunnel and its accept loop, as state
//! machines: the caller performs each returned action (a handshake, a
//! socket open, a write) and hands back what came of it as the next event.
use vstd::prelude::*;

verus! {

/// Size of each of the two intermediate buffers of a relay.
pub const RELAY_BUFFER_SIZE: usize = 8192;

/// The metadata of the synthetic HTTP response sent once per virtual
/// connection, in order: status 200, JSON content type and permissive CORS
/// headers.
pub open spec fn handshake_pairs() -> Seq<(Seq<char>, Seq<char>)> {
    seq![
        ("HttpStatus"@, "200"@),
        ("HttpHeader:Content-Type"@, "application/json"@),
        ("HttpHeader:Access-Control-Allow-Origin"@, "*"@),
        ("HttpHeader:Access-Control-Allow-Methods"@, "GET, POST, OPTIONS"@),
        ("HttpHeader:Access-Control-Allow-Headers"@, "Content-Type, Authorization"@),
    ]
}

/// The view of a list of string pairs.
pub open spec fn pairs_view(v: Seq<(String, String)>) -> Seq<(Seq<char>, Seq<char>)> {
    v.map_values(|p: (String, String)| (p.0@, p.1@))
}

/// No key occurs twice in a list of pairs.
pub open spec fn keys_distinct(s: Seq<(Seq<char>, Seq<char>)>) -> bool {
    forall|i: int, j: int| 0 <= i < j < s.len() ==> s[i].0 != s[j].0
}

/// Builds the handshake metadata; its keys are pairwise distinct.
pub fn handshake_metadata() -> (r: Vec<(String, String)>)
    ensures
        pairs_view(r@) == handshake_pairs(),
        keys_distinct(handshake_pairs()),
{
    proof {
        reveal_strlit("HttpStatus");
        reveal_strlit("HttpHeader:Content-Type");
        reveal_strlit("HttpHeader:Access-Control-Allow-Origin");
        reveal_strlit("HttpHeader:Access-Control-Allow-Methods");
        reveal_strlit("HttpHeader:Access-Control-Allow-Headers");
        let s = handshake_pairs();
        assert(s[0].0[4] != s[1].0[4]);
        assert(s[0].0[4] != s[2].0[4]);
        assert(s[0].0[4] != s[3].0[4]);
        assert(s[0].0[4] != s[4].0[4]);
        assert(s[1].0.len() != s[2].0.len());
        assert(s[1].0.len() != s[3].0.len());
        assert(s[1].0.len() != s[4].0.len());
        assert(s[2].0[32] != s[3].0[32]);
        assert(s[2].0[32] != s[4].0[32]);
        assert(s[3].0[32] != s[4].0[32]);
    }
    let mut r: Vec<(String, String)> = Vec::new();
    r.push((String::from_str("HttpStatus"), String::from_str("200")));
    r.push((String::from_str("HttpHeader:Content-Type"), String::from_str("application/json")));
    r.push(
        (String::from_str("HttpHeader:Access-Control-Allow-Origin"), String::from_str("*")),
    );
    r.push(
        (
            String::from_str("HttpHeader:Access-Control-Allow-Methods"),
            String::from_str("GET, POST, OPTIONS"),
        ),
    );
    r.push(
        (
            String::from_str("HttpHeader:Access-Control-Allow-Headers"),
            String::from_str("Content-Type, Authorization"),
        ),
    );
    assert(pairs_view(r@) =~= handshake_pairs());
    r
}

/// Where one virtual connection stands. `Relaying` is the only state that
/// loops; `Closed`, `HandshakeFailed` and `Failed` are terminal.
#[derive(PartialEq, Eq, Structural, Clone, Copy, Debug)]
pub enum RelayState {
    Accepted,
    Handshaking,
    Relaying,
    Closed,
    HandshakeFailed,
    Failed,
}

/// What the caller observed since the last action.
pub enum RelayEvent {
    /// The connection request was handed to its task.
    Begin,
    /// The handshake response was sent and the virtual stream is open.
    HandshakeAccepted,
    /// The transport could not complete the handshake.
    HandshakeRefused,
    /// The local socket is open.
    LocalOpened,
    /// Bytes read from the virtual stream; empty at end of stream.
    TunnelData(Vec<u8>),
    /// The virtual stream signalled that no more data comes.
    TunnelEnd,
    /// Bytes read from the local socket; empty at end of stream.
    LocalData(Vec<u8>),
    /// A read, a write or the local connect failed.
    IoFailed,
}

/// What the caller must do next.
pub enum RelayAction {
    /// Send the handshake metadata and obtain the virtual stream.
    Respond,
    /// Open a TCP connection to 127.0.0.1 on this port.
    OpenLocal(u16),
    /// Wait for data on whichever side is ready first.
    AwaitEither,
    /// Write all of these bytes to the local socket.
    WriteLocal(Vec<u8>),
    /// Write all of these bytes to the virtual stream.
    WriteTunnel(Vec<u8>),
    /// Release both streams: the relay ended cleanly.
    Finish,
    /// Release whatever is held: the connection failed.
    Abandon,
    /// Nothing: the connection is already over.
    Idle,
}

/// Whether the connection is over.
pub open spec fn is_terminal(s: RelayState) -> bool {
    s == RelayState::Closed || s == RelayState::HandshakeFailed || s == RelayState::Failed
}

/// The transition of a connection on one event.
pub open spec fn relay_next(s: RelayState, e: RelayEvent, port: u16) -> (RelayState, RelayAction) {
    match s {
        RelayState::Accepted => match e {
            RelayEvent::Begin => (RelayState::Handshaking, RelayAction::Respond),
            _ => (RelayState::Accepted, RelayAction::Idle),
        },
        RelayState::Handshaking => match e {
            RelayEvent::HandshakeAccepted => (RelayState::Relaying, RelayAction::OpenLocal(port)),
            RelayEvent::HandshakeRefused => (RelayState::HandshakeFailed, RelayAction::Abandon),
            RelayEvent::IoFailed => (RelayState::HandshakeFailed, RelayAction::Abandon),
            _ => (RelayState::Handshaking, RelayAction::Idle),
        },
        RelayState::Relaying => match e {
            RelayEvent::LocalOpened => (RelayState::Relaying, RelayAction::AwaitEither),
            RelayEvent::TunnelData(b) => if b@.len() == 0 {
                (RelayState::Closed, RelayAction::Finish)
            } else {
                (RelayState::Relaying, RelayAction::WriteLocal(b))
            },
            RelayEvent::TunnelEnd => (RelayState::Closed, RelayAction::Finish),
            RelayEvent::LocalData(b) => if b@.len() == 0 {
                (RelayState::Closed, RelayAction::Finish)
            } else {
                (RelayState::Relaying, RelayAction::WriteTunnel(b))
            },
            RelayEvent::IoFailed => (RelayState::Failed, RelayAction::Abandon),
            _ => (RelayState::Relaying, RelayAction::AwaitEither),
        },
        _ => (s, RelayAction::Idle),
    }
}

/// One connection's relay, from acceptance to its end.
pub struct Relay {
    pub state: RelayState,
    pub local_port: u16,
}

impl Relay {
    /// A relay for a connection just accepted, bridging to `local_port`.
    pub fn new(local_port: u16) -> (r: Relay)
        ensures
            r.state == RelayState::Accepted,
            r.local_port == local_port,
    {
        Relay { state: RelayState::Accepted, local_port }
    }

    /// Advances the relay on `event` and returns what to do next.
    pub fn on_event(&mut self, event: RelayEvent) -> (r: RelayAction)
        ensures
            (final(self).state, r) == relay_next(old(self).state, event, old(self).local_port),
            final(self).local_port == old(self).local_port,
    {
        let port = self.local_port;
        match self.state {
            RelayState::Accepted => match event {
                RelayEvent::Begin => {
                    self.state = RelayState::Handshaking;
                    RelayAction::Respond
                },
                _ => RelayAction::Idle,
            },
            RelayState::Handshaking => match event {
                RelayEvent::HandshakeAccepted => {
                    self.state = RelayState::Relaying;
                    RelayAction::OpenLocal(port)
                },
                RelayEvent::HandshakeRefused | RelayEvent::IoFailed => {
                    self.state = RelayState::HandshakeFailed;
                    RelayAction::Abandon
                },
                _ => RelayAction::Idle,
            },
            RelayState::Relaying => match event {
                RelayEvent::LocalOpened => RelayAction::AwaitEither,
                RelayEvent::TunnelData(b) => {
                    if b.len() == 0 {
                        self.state = RelayState::Closed;
                        RelayAction::Finish
                    } else {
                        RelayAction::WriteLocal(b)
                    }
                },
                RelayEvent::TunnelEnd => {
                    self.state = RelayState::Closed;
                    RelayAction::Finish
                },
                RelayEvent::LocalData(b) => {
                    if b.len() == 0 {
                        self.state = RelayState::Closed;
                        RelayAction::Finish
                    } else {
                        RelayAction::WriteTunnel(b)
                    }
                },
                RelayEvent::IoFailed => {
                    self.state = RelayState::Failed;
                    RelayAction::Abandon
                },
                _ => RelayAction::AwaitEither,
            },
            _ => RelayAction::Idle,
        }
    }

    /// Whether the connection is over.
    pub fn is_finished(&self) -> (r: bool)
        ensures
            r == is_terminal(self.state),
    {
        match self.state {
            RelayState::Closed | RelayState::HandshakeFailed | RelayState::Failed => true,
            _ => false,
        }
    }
}

/// The state and the actions after a sequence of events, from state `s`.
pub open spec fn relay_run(s: RelayState, events: Seq<RelayEvent>, port: u16) -> (RelayState, Seq<
    RelayAction,
>)
    decreases events.len(),
{
    if events.len() == 0 {
        (s, Seq::empty())
    } else {
        let before = relay_run(s, events.drop_last(), port);
        let step = relay_next(before.0, events.last(), port);
        (step.0, before.1.push(step.1))
    }
}

/// The bytes that a sequence of actions writes to the local socket, in order.
pub open spec fn written_to_local(actions: Seq<RelayAction>) -> Seq<u8>
    decreases actions.len(),
{
    if actions.len() == 0 {
        Seq::empty()
    } else {
        written_to_local(actions.drop_last()) + match actions.last() {
            RelayAction::WriteLocal(b) => b@,
            _ => Seq::empty(),
        }
    }
}

/// The bytes that a sequence of actions writes to the virtual stream, in order.
pub open spec fn written_to_tunnel(actions: Seq<RelayAction>) -> Seq<u8>
    decreases actions.len(),
{
    if actions.len() == 0 {
        Seq::empty()
    } else {
        written_to_tunnel(actions.drop_last()) + match actions.last() {
            RelayAction::WriteTunnel(b) => b@,
            _ => Seq::empty(),
        }
    }
}

/// The bytes read from the virtual stream in a sequence of events, in order.
pub open spec fn read_from_tunnel(events: Seq<RelayEvent>) -> Seq<u8>
    decreases events.len(),
{
    if events.len() == 0 {
        Seq::empty()
    } else {
        read_from_tunnel(events.drop_last()) + match events.last() {
            RelayEvent::TunnelData(b) => b@,
            _ => Seq::empty(),
        }
    }
}

/// The bytes read from the local socket in a sequence of events, in order.
pub open spec fn read_from_local(events: Seq<RelayEvent>) -> Seq<u8>
    decreases events.len(),
{
    if events.len() == 0 {
        Seq::empty()
    } else {
        read_from_local(events.drop_last()) + match events.last() {
            RelayEvent::LocalData(b) => b@,
            _ => Seq::empty(),
        }
    }
}

/// A read of some bytes from either side.
pub open spec fn is_data_event(e: RelayEvent) -> bool {
    match e {
        RelayEvent::TunnelData(b) => b@.len() > 0,
        RelayEvent::LocalData(b) => b@.len() > 0,
        _ => false,
    }
}

/// An end of stream on either side.
pub open spec fn is_end_event(e: RelayEvent) -> bool {
    match e {
        RelayEvent::TunnelData(b) => b@.len() == 0,
        RelayEvent::LocalData(b) => b@.len() == 0,
        RelayEvent::TunnelEnd => true,
        _ => false,
    }
}

/// Running a relay on `a` and then on `b` is running it on `a + b`.
pub proof fn lemma_relay_run_append(
    s: RelayState,
    a: Seq<RelayEvent>,
    b: Seq<RelayEvent>,
    port: u16,
)
    ensures
        relay_run(s, a + b, port).0 == relay_run(relay_run(s, a, port).0, b, port).0,
        relay_run(s, a + b, port).1 == relay_run(s, a, port).1 + relay_run(
            relay_run(s, a, port).0,
            b,
            port,
        ).1,
    decreases b.len(),
{
    if b.len() == 0 {
        assert(a + b =~= a);
        assert(relay_run(s, a, port).1 + Seq::<RelayAction>::empty() =~= relay_run(s, a, port).1);
    } else {
        assert((a + b).drop_last() =~= a + b.drop_last());
        assert((a + b).last() == b.last());
        lemma_relay_run_append(s, a, b.drop_last(), port);
        let mid = relay_run(s, a, port);
        let rest = relay_run(mid.0, b.drop_last(), port);
        let step = relay_next(rest.0, b.last(), port);
        assert((mid.1 + rest.1).push(step.1) =~= mid.1 + rest.1.push(step.1));
    }
}

/// While both sides only deliver data, the relay keeps relaying, and it
/// writes to each side exactly the bytes read from the other, in the order
/// they were read, however they were split into reads.
pub proof fn lemma_relay_forwards_verbatim(events: Seq<RelayEvent>, port: u16)
    requires
        forall|i: int| 0 <= i < events.len() ==> is_data_event(#[trigger] events[i]),
    ensures
        relay_run(RelayState::Relaying, events, port).0 == RelayState::Relaying,
        written_to_local(relay_run(RelayState::Relaying, events, port).1) == read_from_tunnel(
            events,
        ),
        written_to_tunnel(relay_run(RelayState::Relaying, events, port).1) == read_from_local(
            events,
        ),
    decreases events.len(),
{
    if events.len() > 0 {
        let init = events.drop_last();
        assert forall|i: int| 0 <= i < init.len() implies is_data_event(#[trigger] init[i]) by {
            assert(init[i] == events[i]);
        }
        assert(is_data_event(events[events.len() - 1]));
        lemma_relay_forwards_verbatim(init, port);
        let before = relay_run(RelayState::Relaying, init, port);
        let acts = relay_run(RelayState::Relaying, events, port).1;
        assert(acts.drop_last() =~= before.1);
        match events.last() {
            RelayEvent::TunnelData(b) => {
                assert(read_from_local(events) =~= read_from_local(init) + Seq::<u8>::empty());
                assert(written_to_tunnel(acts) =~= written_to_tunnel(before.1) + Seq::<
                    u8,
                >::empty());
            },
            RelayEvent::LocalData(b) => {
                assert(read_from_tunnel(events) =~= read_from_tunnel(init) + Seq::<u8>::empty());
                assert(written_to_local(acts) =~= written_to_local(before.1) + Seq::<
                    u8,
                >::empty());
            },
            _ => {},
        }
    }
}

/// Once a connection is over, no event moves it and no action writes.
pub proof fn lemma_relay_terminal_is_inert(s: RelayState, events: Seq<RelayEvent>, port: u16)
    requires
        is_terminal(s),
    ensures
        relay_run(s, events, port).0 == s,
        relay_run(s, events, port).1.len() == events.len(),
        forall|i: int|
            0 <= i < events.len() ==> #[trigger] relay_run(s, events, port).1[i] is Idle,
    decreases events.len(),
{
    if events.len() > 0 {
        lemma_relay_terminal_is_inert(s, events.drop_last(), port);
        let acts = relay_run(s, events, port).1;
        assert forall|i: int| 0 <= i < events.len() implies #[trigger] acts[i] is Idle by {
            if i < events.len() - 1 {
                assert(acts[i] == relay_run(s, events.drop_last(), port).1[i]);
            }
        }
    }
}

/// An end of stream on either side while relaying closes the relay, which
/// releases both streams at once and writes nothing afterwards, whatever
/// comes later.
pub proof fn lemma_relay_teardown(end: RelayEvent, later: Seq<RelayEvent>, port: u16)
    requires
        is_end_event(end),
    ensures
        relay_run(RelayState::Relaying, seq![end] + later, port).0 == RelayState::Closed,
        relay_run(RelayState::Relaying, seq![end] + later, port).1[0] is Finish,
        forall|i: int|
            1 <= i < later.len() + 1 ==> #[trigger] relay_run(
                RelayState::Relaying,
                seq![end] + later,
                port,
            ).1[i] is Idle,
{
    let first = seq![end];
    lemma_relay_run_append(RelayState::Relaying, first, later, port);
    assert(first.drop_last() =~= Seq::<RelayEvent>::empty());
    assert(first.last() == end);
    assert(relay_run(RelayState::Relaying, first.drop_last(), port).0 == RelayState::Relaying);
    let head = relay_run(RelayState::Relaying, first, port);
    assert(head.0 == RelayState::Closed);
    assert(head.1.len() == 1);
    lemma_relay_terminal_is_inert(RelayState::Closed, later, port);
    let acts = relay_run(RelayState::Relaying, first + later, port).1;
    let tail = relay_run(RelayState::Closed, later, port).1;
    assert forall|i: int| 1 <= i < later.len() + 1 implies #[trigger] acts[i] is Idle by {
        assert(acts[i] == tail[i - 1]);
    }
}

/// The events of a relay whose local side echoes: each chunk read from the
/// virtual stream is written to the local socket, which sends the same
/// chunk back.
pub open spec fn echo_events(chunks: Seq<Vec<u8>>) -> Seq<RelayEvent>
    decreases chunks.len(),
{
    if chunks.len() == 0 {
        Seq::empty()
    } else {
        echo_events(chunks.drop_last()) + seq![
            RelayEvent::TunnelData(chunks.last()),
            RelayEvent::LocalData(chunks.last()),
        ]
    }
}

/// The bytes of a sequence of chunks, one after the other.
pub open spec fn concat_chunks(chunks: Seq<Vec<u8>>) -> Seq<u8>
    decreases chunks.len(),
{
    if chunks.len() == 0 {
        Seq::empty()
    } else {
        concat_chunks(chunks.drop_last()) + chunks.last()@
    }
}

/// What an echo reads on each side, and that it reads data only.
proof fn lemma_echo_reads(chunks: Seq<Vec<u8>>)
    requires
        forall|i: int| 0 <= i < chunks.len() ==> (#[trigger] chunks[i])@.len() > 0,
    ensures
        read_from_tunnel(echo_events(chunks)) == concat_chunks(chunks),
        read_from_local(echo_events(chunks)) == concat_chunks(chunks),
        echo_events(chunks).len() == 2 * chunks.len(),
        forall|i: int|
            0 <= i < echo_events(chunks).len() ==> is_data_event(#[trigger] echo_events(chunks)[i]),
    decreases chunks.len(),
{
    if chunks.len() > 0 {
        let init = chunks.drop_last();
        let c = chunks.last();
        assert forall|i: int| 0 <= i < init.len() implies (#[trigger] init[i])@.len() > 0 by {
            assert(init[i] == chunks[i]);
        }
        assert(c == chunks[chunks.len() - 1]);
        lemma_echo_reads(init);
        let e0 = echo_events(init);
        let e = echo_events(chunks);
        let e1 = e0.push(RelayEvent::TunnelData(c));
        assert(e =~= e1.push(RelayEvent::LocalData(c)));
        assert(e.drop_last() =~= e1);
        assert(e1.drop_last() =~= e0);
        assert(e.last() == RelayEvent::LocalData(c));
        assert(e1.last() == RelayEvent::TunnelData(c));
        assert(read_from_tunnel(e1) == read_from_tunnel(e0) + c@);
        assert(read_from_tunnel(e) == read_from_tunnel(e1) + Seq::<u8>::empty());
        assert(read_from_tunnel(e) =~= read_from_tunnel(e0) + c@);
        assert(read_from_local(e1) == read_from_local(e0) + Seq::<u8>::empty());
        assert(read_from_local(e) == read_from_local(e1) + c@);
        assert(read_from_local(e) =~= read_from_local(e0) + c@);
        assert forall|i: int| 0 <= i < e.len() implies is_data_event(#[trigger] e[i]) by {
            if i < e0.len() {
                assert(e[i] == e0[i]);
            }
        }
    }
}

/// Relayed through a local socket that echoes, the bytes written into the
/// virtual stream come back out of it verbatim and in order, however they
/// were split into writes; the relay stays open throughout.
pub proof fn lemma_relay_echo_round_trip(chunks: Seq<Vec<u8>>, port: u16)
    requires
        forall|i: int| 0 <= i < chunks.len() ==> (#[trigger] chunks[i])@.len() > 0,
    ensures
        relay_run(RelayState::Relaying, echo_events(chunks), port).0 == RelayState::Relaying,
        written_to_local(relay_run(RelayState::Relaying, echo_events(chunks), port).1)
            == concat_chunks(chunks),
        written_to_tunnel(relay_run(RelayState::Relaying, echo_events(chunks), port).1)
            == concat_chunks(chunks),
{
    lemma_echo_reads(chunks);
    lemma_relay_forwards_verbatim(echo_events(chunks), port);
}

/// What one call of the tunnel session's accept primitive gave.
#[derive(PartialEq, Eq, Structural, Clone, Copy, Debug)]
pub enum AcceptEvent {
    /// A new inbound connection request.
    Incoming,
    /// The transport shut the session down.
    SessionClosed,
    /// The session failed.
    SessionFailed,
}

/// What the accept loop does next.
#[derive(PartialEq, Eq, Structural, Clone, Copy, Debug)]
pub enum AcceptAction {
    /// Hand the request to a new relay task of its own, then accept again.
    Dispatch,
    /// Accept no more; relays already running drain on their own.
    Shutdown,
    /// Accept no more and report the session failure to the process.
    Fail,
}

/// The transition of the accept loop, open or not, on one accept outcome.
/// It reads nothing of any connection: no relay can stop or stall it.
pub open spec fn accept_next(open: bool, e: AcceptEvent) -> (bool, AcceptAction) {
    if !open {
        (false, AcceptAction::Shutdown)
    } else {
        match e {
            AcceptEvent::Incoming => (true, AcceptAction::Dispatch),
            AcceptEvent::SessionClosed => (false, AcceptAction::Shutdown),
            AcceptEvent::SessionFailed => (false, AcceptAction::Fail),
        }
    }
}

/// Whether the loop is still open after a sequence of accept outcomes.
pub open spec fn accept_run(open: bool, events: Seq<AcceptEvent>) -> bool
    decreases events.len(),
{
    if events.len() == 0 {
        open
    } else {
        accept_next(accept_run(open, events.drop_last()), events.last()).0
    }
}

/// The accept loop of one tunnel session.
pub struct AcceptLoop {
    pub open: bool,
}

impl AcceptLoop {
    /// A loop over a session just established.
    pub fn new() -> (r: AcceptLoop)
        ensures
            r.open,
    {
        AcceptLoop { open: true }
    }

    /// Advances the loop on the outcome of one accept call.
    pub fn on_event(&mut self, event: AcceptEvent) -> (r: AcceptAction)
        ensures
            (final(self).open, r) == accept_next(old(self).open, event),
    {
        if !self.open {
            return AcceptAction::Shutdown;
        }
        match event {
            AcceptEvent::Incoming => AcceptAction::Dispatch,
            AcceptEvent::SessionClosed => {
                self.open = false;
                AcceptAction::Shutdown
            },
            AcceptEvent::SessionFailed => {
                self.open = false;
                AcceptAction::Fail
            },
        }
    }
}

/// The events of a connection that opens and then relays `data`.
pub open spec fn opened_then(data: Seq<RelayEvent>) -> Seq<RelayEvent> {
    seq![RelayEvent::Begin, RelayEvent::HandshakeAccepted, RelayEvent::LocalOpened] + data
}

/// However connection N ended (a refused handshake or a failed relay
/// included), the loop, open after accepting the requests so far, accepts
/// and dispatches the next request, and the relay of connection N+1 carries
/// its bytes both ways as if connection N had never been.
pub proof fn lemma_accept_isolation(
    accepted: Seq<AcceptEvent>,
    earlier: Seq<RelayEvent>,
    data: Seq<RelayEvent>,
    port: u16,
)
    requires
        is_terminal(relay_run(RelayState::Accepted, earlier, port).0),
        forall|i: int| 0 <= i < accepted.len() ==> #[trigger] accepted[i] == AcceptEvent::Incoming,
        forall|i: int| 0 <= i < data.len() ==> is_data_event(#[trigger] data[i]),
    ensures
        accept_run(true, accepted),
        accept_next(accept_run(true, accepted), AcceptEvent::Incoming) == (
        true,
        AcceptAction::Dispatch,
        ),
        relay_run(RelayState::Accepted, opened_then(data), port).0 == RelayState::Relaying,
        written_to_local(relay_run(RelayState::Accepted, opened_then(data), port).1)
            == read_from_tunnel(data),
        written_to_tunnel(relay_run(RelayState::Accepted, opened_then(data), port).1)
            == read_from_local(data),
    decreases accepted.len(),
{
    if accepted.len() > 0 {
        let init = accepted.drop_last();
        assert forall|i: int| 0 <= i < init.len() implies #[trigger] init[i]
            == AcceptEvent::Incoming by {
            assert(init[i] == accepted[i]);
        }
        assert(accepted[accepted.len() - 1] == AcceptEvent::Incoming);
        lemma_accept_isolation(init, earlier, data, port);
    } else {
        let opening = seq![RelayEvent::Begin, RelayEvent::HandshakeAccepted, RelayEvent::LocalOpened];
        lemma_relay_run_append(RelayState::Accepted, opening, data, port);
        let o1 = opening.drop_last();
        let o2 = o1.drop_last();
        let o3 = o2.drop_last();
        assert(o3 =~= Seq::<RelayEvent>::empty());
        assert(o2 =~= seq![RelayEvent::Begin]);
        assert(o1 =~= seq![RelayEvent::Begin, RelayEvent::HandshakeAccepted]);
        assert(o2.last() == RelayEvent::Begin);
        assert(o1.last() == RelayEvent::HandshakeAccepted);
        assert(opening.last() == RelayEvent::LocalOpened);
        assert(relay_run(RelayState::Accepted, o3, port).0 == RelayState::Accepted);
        assert(relay_run(RelayState::Accepted, o2, port).0 == RelayState::Handshaking);
        assert(relay_run(RelayState::Accepted, o1, port).0 == RelayState::Relaying);
        let head = relay_run(RelayState::Accepted, opening, port);
        assert(head.0 == RelayState::Relaying);
        assert(head.1.len() == 3);
        let a1 = relay_run(RelayState::Accepted, o1, port).1;
        let a2 = relay_run(RelayState::Accepted, o2, port).1;
        let a3 = relay_run(RelayState::Accepted, o3, port).1;
        assert(head.1.drop_last() =~= a1);
        assert(a1.drop_last() =~= a2);
        assert(a2.drop_last() =~= a3);
        assert(head.1.last() is AwaitEither);
        assert(a1.last() is OpenLocal);
        assert(a2.last() is Respond);
        assert(a3.len() == 0);
        assert(a2.len() == 1);
        assert(written_to_local(a3) =~= Seq::<u8>::empty());
        assert(written_to_tunnel(a3) =~= Seq::<u8>::empty());
        assert(written_to_local(a2) =~= Seq::<u8>::empty());
        assert(written_to_local(a1) =~= Seq::<u8>::empty());
        assert(written_to_local(head.1) =~= Seq::<u8>::empty());
        assert(written_to_tunnel(a2) =~= Seq::<u8>::empty());
        assert(written_to_tunnel(a1) =~= Seq::<u8>::empty());
        assert(written_to_tunnel(head.1) =~= Seq::<u8>::empty());
        lemma_relay_forwards_verbatim(data, port);
        lemma_written_concat(head.1, relay_run(RelayState::Relaying, data, port).1);
        assert(Seq::<u8>::empty() + read_from_tunnel(data) =~= read_from_tunnel(data));
        assert(Seq::<u8>::empty() + read_from_local(data) =~= read_from_local(data));
    }
}

/// What two sequences of actions write, one after the other.
pub proof fn lemma_written_concat(a: Seq<RelayAction>, b: Seq<RelayAction>)
    ensures
        written_to_local(a + b) == written_to_local(a) + written_to_local(b),
        written_to_tunnel(a + b) == written_to_tunnel(a) + written_to_tunnel(b),
    decreases b.len(),
{
    if b.len() == 0 {
        assert(a + b =~= a);
        assert(written_to_local(a) + Seq::<u8>::empty() =~= written_to_local(a));
        assert(written_to_tunnel(a) + Seq::<u8>::empty() =~= written_to_tunnel(a));
    } else {
        assert((a + b).drop_last() =~= a + b.drop_last());
        assert((a + b).last() == b.last());
        lemma_written_concat(a, b.drop_last());
        let wl = written_to_local(a);
        let wt = written_to_tunnel(a);
        let bl = written_to_local(b.drop_last());
        let bt = written_to_tunnel(b.drop_last());
        match b.last() {
            RelayAction::WriteLocal(x) => {
                assert(wl + bl + x@ =~= wl + (bl + x@));
                assert(wt + bt + Seq::<u8>::empty() =~= wt + (bt + Seq::<u8>::empty()));
            },
            RelayAction::WriteTunnel(x) => {
                assert(wl + bl + Seq::<u8>::empty() =~= wl + (bl + Seq::<u8>::empty()));
                assert(wt + bt + x@ =~= wt + (bt + x@));
            },
            _ => {
                assert(wl + bl + Seq::<u8>::empty() =~= wl + (bl + Seq::<u8>::empty()));
                assert(wt + bt + Seq::<u8>::empty() =~= wt + (bt + Seq::<u8>::empty()));
            },
        }
    }
}

} // verus!