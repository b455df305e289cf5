//! The per-connection state machine: a connection starts fresh, becomes
//! a client on its first client message or a peer on `PeerAnnounce`, and
//! cross-role messages are rejected. A client's cursor walks
//! `Active -> WaitingForNext -> Active -> ... -> Stopped`, delivering at
//! most `batch_size` events per batch and `max_events` overall, and says
//! `AwaitingEvents` at most once, when it first catches the tail. The
//! handler decides; the caller performs the I/O and produce submissions
//! the outputs ask for and feeds results back.

use vstd::prelude::*;
use crate::codec::{CursorInfo, ErrorMessage, EventAck, ProduceEvent, ProtocolMessage};
use crate::event::{EventView, FloEventId, OwnedFloEvent, RecvEvent};
use crate::glob::{glob_matches, is_valid_glob, matches_glob, valid_glob};
use crate::versionvec::{contains_actor, seq_get, VersionVector};
use crate::wire::{CursorInfoView, ErrorKind, ErrorView, MsgView, ProduceView};

verus! {

/// The batch size a cursor uses when the client never set one.
pub const DEFAULT_BATCH_SIZE: u32 = 10000;

/// What a connection has shown itself to be.
#[derive(Debug, Clone, Copy, PartialEq, Eq, Structural)]
pub enum ConnectionMode {
    Fresh,
    Client,
    Peer,
}

/// Where a cursor stands in its batching cycle.
#[derive(Debug, Clone, Copy, PartialEq, Eq, Structural)]
pub enum CursorPhase {
    Active,
    WaitingForNext,
    Stopped,
}

/// A live subscription: its correlation id, namespace glob, remaining
/// event budget, batch bookkeeping, and whether `AwaitingEvents` was
/// already said.
#[derive(Debug, Clone)]
pub struct ConsumerCursor {
    pub op_id: u32,
    pub namespace: String,
    pub remaining_events: u64,
    pub batch_size: u32,
    pub batch_remaining: u32,
    pub phase: CursorPhase,
    pub awaiting_sent: bool,
}

/// What a cursor denotes.
pub struct CursorView {
    pub op_id: u32,
    pub namespace: Seq<char>,
    pub remaining_events: u64,
    pub batch_size: u32,
    pub batch_remaining: u32,
    pub phase: CursorPhase,
    pub awaiting_sent: bool,
}

impl View for ConsumerCursor {
    type V = CursorView;

    open spec fn view(&self) -> CursorView {
        CursorView {
            op_id: self.op_id,
            namespace: self.namespace@,
            remaining_events: self.remaining_events,
            batch_size: self.batch_size,
            batch_remaining: self.batch_remaining,
            phase: self.phase,
            awaiting_sent: self.awaiting_sent,
        }
    }
}

/// What a connection handler denotes.
pub struct HandlerView {
    pub mode: ConnectionMode,
    pub batch_size: u32,
    pub cursor: Option<CursorView>,
    pub version_vector: Seq<FloEventId>,
}

/// The per-connection state machine.
#[derive(Debug)]
pub struct ConnectionHandler {
    pub connection_id: usize,
    pub mode: ConnectionMode,
    pub batch_size: u32,
    pub cursor: Option<ConsumerCursor>,
    pub version_vector: VersionVector,
}

impl View for ConnectionHandler {
    type V = HandlerView;

    open spec fn view(&self) -> HandlerView {
        HandlerView {
            mode: self.mode,
            batch_size: self.batch_size,
            cursor: match self.cursor {
                Some(c) => Some(c@),
                None => None,
            },
            version_vector: self.version_vector@,
        }
    }
}

/// The outcome the handler reported to the original caller of a message.
pub type ConnectionHandlerResult = Result<(), String>;

/// What one inbound message asks of the surrounding I/O: the frames to
/// send back, a produce to submit to the stream engine, or a replicated
/// event from a peer to persist.
#[derive(Debug)]
pub struct HandlerOutput {
    pub replies: Vec<ProtocolMessage>,
    pub produce: Option<ProduceEvent>,
    pub peer_event: Option<OwnedFloEvent>,
}

/// What `HandlerOutput` denotes.
pub struct OutputView {
    pub replies: Seq<MsgView>,
    pub produce: Option<ProduceView>,
    pub peer_event: Option<EventView>,
}

impl View for HandlerOutput {
    type V = OutputView;

    open spec fn view(&self) -> OutputView {
        OutputView {
            replies: self.replies@.map_values(|m: ProtocolMessage| m@),
            produce: match self.produce {
                Some(p) => Some(p@),
                None => None,
            },
            peer_event: match self.peer_event {
                Some(e) => Some(e@),
                None => None,
            },
        }
    }
}

/// An error reply carrying `kind` and echoing `op_id`.
pub open spec fn err_reply(op_id: u32, kind: ErrorKind, description: Seq<char>) -> MsgView {
    MsgView::Error(ErrorView { op_id, kind, description })
}

/// Whether a message is one only clients send.
pub open spec fn is_client_msg(m: MsgView) -> bool {
    m is ProduceEvent || m is StartConsuming || m is SetBatchSize || m is UpdateMarker
        || m is ClientAuth || m is NextBatch || m is StopConsuming
}

/// The batch size a cursor is actually given: the client's setting,
/// clamped to at least one so a batch always makes progress.
pub open spec fn effective_batch_size(n: u32) -> u32 {
    if n == 0 {
        1
    } else {
        n
    }
}

/// The handler after one inbound message, with everything it sends or
/// asks for. This is the whole connection protocol:
/// - a fresh connection becomes a client on any client message and a
///   peer on `PeerAnnounce`; cross-role traffic earns
///   `InvalidConsumerState`;
/// - `StartConsuming` makes a cursor, validating the glob, answered by
///   `CursorCreated`; a second cursor is refused;
/// - `SetBatchSize` is refused while a cursor is active or waiting;
/// - `UpdateMarker` accumulates into the version vector, refusing a
///   second marker for the same actor with `InvalidVersionVector`;
/// - `NextBatch` re-arms a waiting cursor; `StopConsuming` drops the
///   cursor;
/// - `ProduceEvent` is handed to the stream engine; `ReceiveEvent` from
///   a peer is handed to the store; server-only frames from the wire are
///   refused.
pub open spec fn handler_step(h: HandlerView, m: MsgView) -> (HandlerView, OutputView) {
    let no_out = OutputView { replies: Seq::empty(), produce: None, peer_event: None };
    if is_client_msg(m) && h.mode is Peer {
        (
            h,
            OutputView {
                replies: seq![
                    err_reply(
                        crate::wire::msg_op_id(m),
                        ErrorKind::InvalidConsumerState,
                        "client message on a peer connection"@,
                    ),
                ],
                produce: None,
                peer_event: None,
            },
        )
    } else {
        match m {
            MsgView::ProduceEvent(p) => (
                HandlerView { mode: ConnectionMode::Client, ..h },
                OutputView { replies: Seq::empty(), produce: Some(p), peer_event: None },
            ),
            MsgView::ClientAuth { namespace, username, password } => (
                HandlerView { mode: ConnectionMode::Client, ..h },
                OutputView {
                    replies: seq![
                        err_reply(
                            0,
                            ErrorKind::InvalidConsumerState,
                            "authentication is not supported"@,
                        ),
                    ],
                    produce: None,
                    peer_event: None,
                },
            ),
            MsgView::StartConsuming(c) => {
                let h2 = HandlerView { mode: ConnectionMode::Client, ..h };
                if h.cursor is Some {
                    (
                        h2,
                        OutputView {
                            replies: seq![
                                err_reply(
                                    c.op_id,
                                    ErrorKind::InvalidConsumerState,
                                    "a cursor already exists"@,
                                ),
                            ],
                            produce: None,
                            peer_event: None,
                        },
                    )
                } else if !valid_glob(c.namespace) {
                    (
                        h2,
                        OutputView {
                            replies: seq![
                                err_reply(
                                    c.op_id,
                                    ErrorKind::InvalidNamespaceGlob,
                                    "invalid namespace glob pattern"@,
                                ),
                            ],
                            produce: None,
                            peer_event: None,
                        },
                    )
                } else {
                    let eff = effective_batch_size(h.batch_size);
                    (
                        HandlerView {
                            mode: ConnectionMode::Client,
                            cursor: Some(
                                CursorView {
                                    op_id: c.op_id,
                                    namespace: c.namespace,
                                    remaining_events: c.max_events,
                                    batch_size: eff,
                                    batch_remaining: eff,
                                    phase: CursorPhase::Active,
                                    awaiting_sent: false,
                                },
                            ),
                            ..h
                        },
                        OutputView {
                            replies: seq![
                                MsgView::CursorCreated(
                                    CursorInfoView { op_id: c.op_id, batch_size: eff },
                                ),
                            ],
                            produce: None,
                            peer_event: None,
                        },
                    )
                }
            },
            MsgView::SetBatchSize(n) => {
                let h2 = HandlerView { mode: ConnectionMode::Client, ..h };
                if h.cursor matches Some(c) && (c.phase is Active || c.phase is WaitingForNext) {
                    (
                        h2,
                        OutputView {
                            replies: seq![
                                err_reply(
                                    0,
                                    ErrorKind::InvalidConsumerState,
                                    "cannot set batch size while consuming"@,
                                ),
                            ],
                            produce: None,
                            peer_event: None,
                        },
                    )
                } else {
                    (
                        HandlerView { mode: ConnectionMode::Client, batch_size: n, ..h },
                        no_out,
                    )
                }
            },
            MsgView::UpdateMarker(id) => {
                let h2 = HandlerView { mode: ConnectionMode::Client, ..h };
                if id.event_counter > 0 && contains_actor(h.version_vector, id.actor) {
                    (
                        h2,
                        OutputView {
                            replies: seq![
                                err_reply(
                                    0,
                                    ErrorKind::InvalidVersionVector,
                                    "actor already has a marker"@,
                                ),
                            ],
                            produce: None,
                            peer_event: None,
                        },
                    )
                } else if id.event_counter > 0 {
                    (
                        HandlerView {
                            mode: ConnectionMode::Client,
                            version_vector: h.version_vector.push(id),
                            ..h
                        },
                        no_out,
                    )
                } else {
                    (h2, no_out)
                }
            },
            MsgView::NextBatch => {
                let h2 = HandlerView { mode: ConnectionMode::Client, ..h };
                match h.cursor {
                    Some(c) => {
                        if c.phase is WaitingForNext {
                            (
                                HandlerView {
                                    mode: ConnectionMode::Client,
                                    cursor: Some(
                                        CursorView {
                                            batch_remaining: c.batch_size,
                                            phase: CursorPhase::Active,
                                            ..c
                                        },
                                    ),
                                    ..h
                                },
                                no_out,
                            )
                        } else {
                            (
                                h2,
                                OutputView {
                                    replies: seq![
                                        err_reply(
                                            0,
                                            ErrorKind::InvalidConsumerState,
                                            "no batch is pending"@,
                                        ),
                                    ],
                                    produce: None,
                                    peer_event: None,
                                },
                            )
                        }
                    },
                    None => (
                        h2,
                        OutputView {
                            replies: seq![
                                err_reply(
                                    0,
                                    ErrorKind::InvalidConsumerState,
                                    "no batch is pending"@,
                                ),
                            ],
                            produce: None,
                            peer_event: None,
                        },
                    ),
                }
            },
            MsgView::StopConsuming => (
                HandlerView { mode: ConnectionMode::Client, cursor: None, ..h },
                no_out,
            ),
            MsgView::PeerAnnounce(cs) => {
                if h.mode is Client {
                    (
                        h,
                        OutputView {
                            replies: seq![
                                err_reply(
                                    0,
                                    ErrorKind::InvalidConsumerState,
                                    "peer message on a client connection"@,
                                ),
                            ],
                            produce: None,
                            peer_event: None,
                        },
                    )
                } else {
                    (HandlerView { mode: ConnectionMode::Peer, ..h }, no_out)
                }
            },
            MsgView::PeerUpdate(cs) => {
                if h.mode is Peer {
                    (h, no_out)
                } else {
                    (
                        h,
                        OutputView {
                            replies: seq![
                                err_reply(
                                    0,
                                    ErrorKind::InvalidConsumerState,
                                    "peer message on a client connection"@,
                                ),
                            ],
                            produce: None,
                            peer_event: None,
                        },
                    )
                }
            },
            MsgView::ReceiveEvent(e) => {
                if h.mode is Peer {
                    (
                        h,
                        OutputView { replies: Seq::empty(), produce: None, peer_event: Some(e) },
                    )
                } else {
                    (
                        h,
                        OutputView {
                            replies: seq![
                                err_reply(
                                    0,
                                    ErrorKind::InvalidConsumerState,
                                    "event outside a peer connection"@,
                                ),
                            ],
                            produce: None,
                            peer_event: None,
                        },
                    )
                }
            },
            _ => (
                h,
                OutputView {
                    replies: seq![
                        err_reply(
                            crate::wire::msg_op_id(m),
                            ErrorKind::InvalidConsumerState,
                            "unexpected server frame"@,
                        ),
                    ],
                    produce: None,
                    peer_event: None,
                },
            ),
        }
    }
}

impl ConnectionHandler {
    /// The structural invariant: the version vector is well formed, and
    /// a cursor's batch bookkeeping stays within its batch size, with at
    /// least one slot left while it is active.
    pub open spec fn wf(&self) -> bool {
        &&& self.version_vector.wf()
        &&& match self@.cursor {
            Some(c) => {
                &&& c.batch_size >= 1
                &&& c.batch_remaining <= c.batch_size
                &&& (c.phase is Active ==> c.batch_remaining >= 1)
            },
            None => true,
        }
    }

    pub fn new(connection_id: usize) -> (r: ConnectionHandler)
        ensures
            r.wf(),
            r.connection_id == connection_id,
            r@.mode is Fresh,
            r@.batch_size == DEFAULT_BATCH_SIZE,
            r@.cursor is None,
            r@.version_vector == Seq::<FloEventId>::empty(),
    {
        ConnectionHandler {
            connection_id,
            mode: ConnectionMode::Fresh,
            batch_size: DEFAULT_BATCH_SIZE,
            cursor: None,
            version_vector: VersionVector::new(),
        }
    }

    /// Drives the state machine by one inbound message: exactly
    /// `handler_step` of the old state.
    pub fn handle_message(&mut self, message: ProtocolMessage) -> (r: HandlerOutput)
        requires
            old(self).wf(),
        ensures
            final(self).wf(),
            final(self).connection_id == old(self).connection_id,
            final(self)@ == handler_step(old(self)@, message@).0,
            r@ == handler_step(old(self)@, message@).1,
    {
        let is_client = match &message {
            ProtocolMessage::ProduceEvent(_) => true,
            ProtocolMessage::StartConsuming(_) => true,
            ProtocolMessage::SetBatchSize(_) => true,
            ProtocolMessage::UpdateMarker(_) => true,
            ProtocolMessage::ClientAuth { .. } => true,
            ProtocolMessage::NextBatch => true,
            ProtocolMessage::StopConsuming => true,
            _ => false,
        };
        if is_client && matches!(self.mode, ConnectionMode::Peer) {
            let op_id = message.get_op_id();
            return reply1(
                    mk_error(
                        op_id,
                        ErrorKind::InvalidConsumerState,
                        "client message on a peer connection",
                    )
            );
        }
        match message {
            ProtocolMessage::ProduceEvent(p) => {
                self.mode = ConnectionMode::Client;
                produce_output(p)
            },
            ProtocolMessage::ClientAuth { namespace, username, password } => {
                self.mode = ConnectionMode::Client;
                reply1(
                        mk_error(
                            0,
                            ErrorKind::InvalidConsumerState,
                            "authentication is not supported",
                        )
            )
            },
            ProtocolMessage::StartConsuming(c) => {
                self.mode = ConnectionMode::Client;
                if self.cursor.is_some() {
                    return reply1(
                            mk_error(
                                c.op_id,
                                ErrorKind::InvalidConsumerState,
                                "a cursor already exists",
                            )
            );
                }
                if !is_valid_glob(c.namespace.as_str()) {
                    return reply1(
                            mk_error(
                                c.op_id,
                                ErrorKind::InvalidNamespaceGlob,
                                "invalid namespace glob pattern",
                            )
            );
                }
                let eff: u32 = if self.batch_size == 0 {
                    1
                } else {
                    self.batch_size
                };
                self.cursor = Some(
                    ConsumerCursor {
                        op_id: c.op_id,
                        namespace: c.namespace,
                        remaining_events: c.max_events,
                        batch_size: eff,
                        batch_remaining: eff,
                        phase: CursorPhase::Active,
                        awaiting_sent: false,
                    },
                );
                reply1(
                        ProtocolMessage::CursorCreated(
                            CursorInfo { op_id: c.op_id, batch_size: eff },
                        )
            )
            },
            ProtocolMessage::SetBatchSize(n) => {
                self.mode = ConnectionMode::Client;
                let consuming = match &self.cursor {
                    Some(c) => matches!(c.phase, CursorPhase::Active)
                        || matches!(c.phase, CursorPhase::WaitingForNext),
                    None => false,
                };
                if consuming {
                    reply1(
                            mk_error(
                                0,
                                ErrorKind::InvalidConsumerState,
                                "cannot set batch size while consuming",
                            )
            )
                } else {
                    self.batch_size = n;
                    no_output()
                }
            },
            ProtocolMessage::UpdateMarker(id) => {
                self.mode = ConnectionMode::Client;
                match self.version_vector.add(id) {
                    Ok(()) => no_output(),
                    Err(kind) => reply1(mk_error(0, kind, "actor already has a marker")),
                }
            },
            ProtocolMessage::NextBatch => {
                self.mode = ConnectionMode::Client;
                let waiting = match &self.cursor {
                    Some(c) => matches!(c.phase, CursorPhase::WaitingForNext),
                    None => false,
                };
                if waiting {
                    match &mut self.cursor {
                        Some(c) => {
                            c.batch_remaining = c.batch_size;
                            c.phase = CursorPhase::Active;
                        },
                        None => {},
                    }
                    no_output()
                } else {
                    reply1(
                            mk_error(0, ErrorKind::InvalidConsumerState, "no batch is pending")
            )
                }
            },
            ProtocolMessage::StopConsuming => {
                self.mode = ConnectionMode::Client;
                self.cursor = None;
                no_output()
            },
            ProtocolMessage::PeerAnnounce(cs) => {
                if matches!(self.mode, ConnectionMode::Client) {
                    reply1(
                            mk_error(
                                0,
                                ErrorKind::InvalidConsumerState,
                                "peer message on a client connection",
                            )
            )
                } else {
                    self.mode = ConnectionMode::Peer;
                    no_output()
                }
            },
            ProtocolMessage::PeerUpdate(cs) => {
                if matches!(self.mode, ConnectionMode::Peer) {
                    no_output()
                } else {
                    reply1(
                            mk_error(
                                0,
                                ErrorKind::InvalidConsumerState,
                                "peer message on a client connection",
                            )
            )
                }
            },
            ProtocolMessage::ReceiveEvent(ev) => {
                if matches!(self.mode, ConnectionMode::Peer) {
                    peer_event_output(ev.into_owned())
                } else {
                    reply1(
                            mk_error(
                                0,
                                ErrorKind::InvalidConsumerState,
                                "event outside a peer connection",
                            )
            )
                }
            },
            other => {
                let op_id = other.get_op_id();
                reply1(
                        mk_error(op_id, ErrorKind::InvalidConsumerState, "unexpected server frame")
            )
            },
        }
    }
}

/// An output with no replies and nothing to do.
fn no_output() -> (r: HandlerOutput)
    ensures
        r@ == (OutputView {
            replies: Seq::<MsgView>::empty(),
            produce: None,
            peer_event: None,
        }),
{
    let out = HandlerOutput { replies: Vec::new(), produce: None, peer_event: None };
    proof {
        assert(out@.replies =~= Seq::<MsgView>::empty());
    }
    out
}

/// An output that only sends one frame back.
fn reply1(message: ProtocolMessage) -> (r: HandlerOutput)
    ensures
        r@ == (OutputView { replies: seq![message@], produce: None, peer_event: None }),
{
    let ghost mv = message@;
    let out = HandlerOutput { replies: vec![message], produce: None, peer_event: None };
    proof {
        assert(out@.replies =~= seq![mv]);
    }
    out
}

/// An output that only submits a produce request.
fn produce_output(p: ProduceEvent) -> (r: HandlerOutput)
    ensures
        r@ == (OutputView {
            replies: Seq::<MsgView>::empty(),
            produce: Some(p@),
            peer_event: None,
        }),
{
    let ghost pv = p@;
    let out = HandlerOutput { replies: Vec::new(), produce: Some(p), peer_event: None };
    proof {
        assert(out@.replies =~= Seq::<MsgView>::empty());
    }
    out
}

/// An output that only hands a replicated event to the store.
fn peer_event_output(e: OwnedFloEvent) -> (r: HandlerOutput)
    ensures
        r@ == (OutputView {
            replies: Seq::<MsgView>::empty(),
            produce: None,
            peer_event: Some(e@),
        }),
{
    let ghost ev = e@;
    let out = HandlerOutput { replies: Vec::new(), produce: None, peer_event: Some(e) };
    proof {
        assert(out@.replies =~= Seq::<MsgView>::empty());
    }
    out
}

/// Builds an error reply message.
fn mk_error(op_id: u32, kind: ErrorKind, description: &str) -> (r: ProtocolMessage)
    ensures
        r@ == err_reply(op_id, kind, description@),
{
    ProtocolMessage::Error(
        ErrorMessage { op_id, kind, description: description.to_owned() },
    )
}


/// Whether a cursor in this state forwards this event: it is active,
/// has budget left, the namespace matches its glob, and the event lies
/// beyond the connection's per-actor read position.
pub open spec fn delivers(h: HandlerView, e: EventView) -> bool {
    match h.cursor {
        Some(c) => {
            &&& c.phase is Active
            &&& c.remaining_events > 0
            &&& glob_matches(c.namespace, e.namespace)
            &&& e.id.event_counter > seq_get(h.version_vector, e.id.actor)
        },
        None => false,
    }
}

/// The handler and the frames sent after one event is fanned in. When
/// the cursor delivers, the event goes out as a `ReceiveEvent`; after
/// exactly `batch_size` deliveries since the last re-arm, `EndOfBatch`
/// follows and the cursor waits; when the event budget runs out,
/// `EndOfBatch` follows and the cursor stops.
pub open spec fn deliver_step(h: HandlerView, e: EventView) -> (HandlerView, Seq<MsgView>) {
    if !delivers(h, e) {
        (h, Seq::empty())
    } else {
        let c = h.cursor->Some_0;
        let rem = (c.remaining_events - 1) as u64;
        let brem = (c.batch_remaining - 1) as u32;
        if rem == 0 {
            (
                HandlerView {
                    cursor: Some(
                        CursorView {
                            remaining_events: 0,
                            batch_remaining: brem,
                            phase: CursorPhase::Stopped,
                            ..c
                        },
                    ),
                    ..h
                },
                seq![MsgView::ReceiveEvent(e), MsgView::EndOfBatch],
            )
        } else if brem == 0 {
            (
                HandlerView {
                    cursor: Some(
                        CursorView {
                            remaining_events: rem,
                            batch_remaining: 0,
                            phase: CursorPhase::WaitingForNext,
                            ..c
                        },
                    ),
                    ..h
                },
                seq![MsgView::ReceiveEvent(e), MsgView::EndOfBatch],
            )
        } else {
            (
                HandlerView {
                    cursor: Some(
                        CursorView { remaining_events: rem, batch_remaining: brem, ..c },
                    ),
                    ..h
                },
                seq![MsgView::ReceiveEvent(e)],
            )
        }
    }
}

impl ConnectionHandler {
    /// Fans one appended event into this connection: exactly
    /// `deliver_step` of the old state. A delivered event always
    /// satisfies `counter > 0` on the wire because the store only holds
    /// such events; events at or below an `UpdateMarker` the client set
    /// are never delivered.
    pub fn handle_event(&mut self, event: &OwnedFloEvent) -> (r: Vec<ProtocolMessage>)
        requires
            old(self).wf(),
        ensures
            final(self).wf(),
            final(self).connection_id == old(self).connection_id,
            final(self)@ == deliver_step(old(self)@, event@).0,
            r@.map_values(|m: ProtocolMessage| m@) == deliver_step(old(self)@, event@).1,
    {
        let deliver = match &self.cursor {
            Some(c) => matches!(c.phase, CursorPhase::Active) && c.remaining_events > 0
                && matches_glob(c.namespace.as_str(), event.namespace.as_str())
                && event.id.event_counter > self.version_vector.get(event.id.actor),
            None => false,
        };
        if !deliver {
            let out: Vec<ProtocolMessage> = Vec::new();
            proof {
                assert(out@.map_values(|m: ProtocolMessage| m@) =~= Seq::<MsgView>::empty());
            }
            return out;
        }
        let reply = ProtocolMessage::ReceiveEvent(
            RecvEvent::Owned(crate::event::clone_event(event)),
        );
        let ghost rv = reply@;
        match &mut self.cursor {
            Some(c) => {
                c.remaining_events = c.remaining_events - 1;
                c.batch_remaining = c.batch_remaining - 1;
                if c.remaining_events == 0 {
                    c.phase = CursorPhase::Stopped;
                    let out = vec![reply, ProtocolMessage::EndOfBatch];
                    proof {
                        assert(out@.map_values(|m: ProtocolMessage| m@) =~= seq![
                            rv,
                            MsgView::EndOfBatch,
                        ]);
                    }
                    out
                } else if c.batch_remaining == 0 {
                    c.phase = CursorPhase::WaitingForNext;
                    let out = vec![reply, ProtocolMessage::EndOfBatch];
                    proof {
                        assert(out@.map_values(|m: ProtocolMessage| m@) =~= seq![
                            rv,
                            MsgView::EndOfBatch,
                        ]);
                    }
                    out
                } else {
                    let out = vec![reply];
                    proof {
                        assert(out@.map_values(|m: ProtocolMessage| m@) =~= seq![rv]);
                    }
                    out
                }
            },
            None => {
                let out: Vec<ProtocolMessage> = Vec::new();
                proof {
                    assert(out@.map_values(|m: ProtocolMessage| m@) =~= Seq::<MsgView>::empty());
                }
                out
            },
        }
    }

    /// Notes that the cursor has caught the tail of the persisted log:
    /// `AwaitingEvents` goes out the first time this happens to an
    /// active cursor, and never again, however often the tail is
    /// reached.
    pub fn on_caught_up(&mut self) -> (r: Vec<ProtocolMessage>)
        requires
            old(self).wf(),
        ensures
            final(self).wf(),
            final(self).connection_id == old(self).connection_id,
            match old(self)@.cursor {
                Some(c) => {
                    if c.phase is Active && !c.awaiting_sent {
                        &&& r@.map_values(|m: ProtocolMessage| m@) == seq![MsgView::AwaitingEvents]
                        &&& final(self)@ == (HandlerView {
                            cursor: Some(CursorView { awaiting_sent: true, ..c }),
                            ..old(self)@
                        })
                    } else {
                        &&& r@.map_values(|m: ProtocolMessage| m@) == Seq::<MsgView>::empty()
                        &&& final(self)@ == old(self)@
                    }
                },
                None => r@.map_values(|m: ProtocolMessage| m@) == Seq::<MsgView>::empty()
                    && final(self)@ == old(self)@,
            },
    {
        let fire = match &self.cursor {
            Some(c) => matches!(c.phase, CursorPhase::Active) && !c.awaiting_sent,
            None => false,
        };
        if fire {
            match &mut self.cursor {
                Some(c) => {
                    c.awaiting_sent = true;
                },
                None => {},
            }
            let out = vec![ProtocolMessage::AwaitingEvents];
            proof {
                assert(out@.map_values(|m: ProtocolMessage| m@) =~= seq![MsgView::AwaitingEvents]);
            }
            out
        } else {
            let out: Vec<ProtocolMessage> = Vec::new();
            proof {
                assert(out@.map_values(|m: ProtocolMessage| m@) =~= Seq::<MsgView>::empty());
            }
            out
        }
    }
}

/// The reply a producer gets once the stream engine has settled its
/// request: an `AckEvent` echoing the `op_id` and carrying the id the
/// event was assigned, or an `Error` echoing the `op_id` with the
/// engine's error kind.
pub fn produce_reply(op_id: u32, outcome: Result<FloEventId, ErrorKind>) -> (r: ProtocolMessage)
    ensures
        outcome matches Ok(id) ==> r@ == MsgView::AckEvent(
            crate::wire::AckView { op_id, event_id: id },
        ),
        outcome matches Err(kind) ==> r@ == err_reply(op_id, kind, "produce failed"@),
{
    match outcome {
        Ok(event_id) => ProtocolMessage::AckEvent(EventAck { op_id, event_id }),
        Err(kind) => mk_error(op_id, kind, "produce failed"),
    }
}

} // verus!
