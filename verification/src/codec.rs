//! The wire protocol spoken between clients and servers: the message
//! types and the encoder that writes each one in the frame layout of
//! `wire::enc_msg`. Large event payloads are not part of a frame; the
//! caller appends them after the header, as `get_body` exposes.

use vstd::prelude::*;
use crate::event::{bytes_eq, clone_event, opt_id_eq, FloEventId, OwnedFloEvent, RecvEvent};
use crate::headers;
use crate::ser::{push_bool, push_str, push_u16, push_u32, push_u64, push_u8};
use crate::wire::{
    cluster_state_wf, enc_cluster_state, enc_id, enc_member, enc_members, enc_msg, enc_opt_id,
    enc_vv, kind_byte, lemma_enc_members_snoc, lemma_enc_vv_snoc, msg_op_id, wire_wf, AckView,
    ClusterStateView, ConsumerStartView, CursorInfoView, ErrorKind, ErrorView, MemberView, MsgView,
    ProduceView,
};

verus! {

/// An error reply, echoing the `op_id` of the request it answers.
#[derive(Debug, Clone)]
pub struct ErrorMessage {
    pub op_id: u32,
    pub kind: ErrorKind,
    pub description: String,
}

impl View for ErrorMessage {
    type V = ErrorView;

    open spec fn view(&self) -> ErrorView {
        ErrorView { op_id: self.op_id, kind: self.kind, description: self.description@ }
    }
}

impl PartialEq for ErrorMessage {
    fn eq(&self, other: &ErrorMessage) -> (r: bool) {
        self.op_id == other.op_id && self.kind == other.kind && self.description
            == other.description
    }
}

impl vstd::std_specs::cmp::PartialEqSpecImpl for ErrorMessage {
    open spec fn obeys_eq_spec() -> bool {
        true
    }

    open spec fn eq_spec(&self, other: &ErrorMessage) -> bool {
        self@ == other@
    }
}

/// A producer's request to publish one event; the payload of `data`
/// bytes follows the frame.
#[derive(Debug, Clone)]
pub struct ProduceEvent {
    pub op_id: u32,
    pub namespace: String,
    pub parent_id: Option<FloEventId>,
    pub data: Vec<u8>,
}

impl View for ProduceEvent {
    type V = ProduceView;

    open spec fn view(&self) -> ProduceView {
        ProduceView {
            op_id: self.op_id,
            namespace: self.namespace@,
            parent_id: self.parent_id,
            data: self.data@,
        }
    }
}

impl PartialEq for ProduceEvent {
    fn eq(&self, other: &ProduceEvent) -> (r: bool) {
        self.op_id == other.op_id && self.namespace == other.namespace && opt_id_eq(
            self.parent_id,
            other.parent_id,
        ) && bytes_eq(self.data.as_slice(), other.data.as_slice())
    }
}

impl vstd::std_specs::cmp::PartialEqSpecImpl for ProduceEvent {
    open spec fn obeys_eq_spec() -> bool {
        true
    }

    open spec fn eq_spec(&self, other: &ProduceEvent) -> bool {
        self@ == other@
    }
}

/// The server's acknowledgement that a produced event was persisted,
/// carrying the id it was assigned.
#[derive(Debug, Clone, Copy, PartialEq, Eq, Structural)]
pub struct EventAck {
    pub op_id: u32,
    pub event_id: FloEventId,
}

impl View for EventAck {
    type V = AckView;

    open spec fn view(&self) -> AckView {
        AckView { op_id: self.op_id, event_id: self.event_id }
    }
}

/// A consumer's request to start reading events matching a namespace
/// glob, up to `max_events` of them.
#[derive(Debug, Clone)]
pub struct ConsumerStart {
    pub op_id: u32,
    pub max_events: u64,
    pub namespace: String,
}

impl View for ConsumerStart {
    type V = ConsumerStartView;

    open spec fn view(&self) -> ConsumerStartView {
        ConsumerStartView {
            op_id: self.op_id,
            max_events: self.max_events,
            namespace: self.namespace@,
        }
    }
}

impl PartialEq for ConsumerStart {
    fn eq(&self, other: &ConsumerStart) -> (r: bool) {
        self.op_id == other.op_id && self.max_events == other.max_events && self.namespace
            == other.namespace
    }
}

impl vstd::std_specs::cmp::PartialEqSpecImpl for ConsumerStart {
    open spec fn obeys_eq_spec() -> bool {
        true
    }

    open spec fn eq_spec(&self, other: &ConsumerStart) -> bool {
        self@ == other@
    }
}

/// One known member of the cluster; the address is its textual
/// `host:port` form, exactly as carried on the wire. The library keeps
/// the address as plain text and never parses it into a socket address:
/// the decoder accepts any UTF-8 string here, and the dialling caller
/// resolves it.
#[derive(Debug, Clone)]
pub struct ClusterMember {
    pub addr: String,
    pub actor_id: u16,
    pub connected: bool,
}

impl View for ClusterMember {
    type V = MemberView;

    open spec fn view(&self) -> MemberView {
        MemberView { actor_id: self.actor_id, addr: self.addr@, connected: self.connected }
    }
}

impl PartialEq for ClusterMember {
    fn eq(&self, other: &ClusterMember) -> (r: bool) {
        self.actor_id == other.actor_id && self.addr == other.addr && self.connected
            == other.connected
    }
}

impl vstd::std_specs::cmp::PartialEqSpecImpl for ClusterMember {
    open spec fn obeys_eq_spec() -> bool {
        true
    }

    open spec fn eq_spec(&self, other: &ClusterMember) -> bool {
        self@ == other@
    }
}

/// One replica's record of the cluster: its own actor id and listening
/// port, its version vector, and the other members it knows of.
#[derive(Debug, Clone)]
pub struct ClusterState {
    pub actor_id: u16,
    pub actor_port: u16,
    pub version_vector: Vec<FloEventId>,
    pub other_members: Vec<ClusterMember>,
}

impl View for ClusterState {
    type V = ClusterStateView;

    open spec fn view(&self) -> ClusterStateView {
        ClusterStateView {
            actor_id: self.actor_id,
            actor_port: self.actor_port,
            version_vector: self.version_vector@,
            other_members: self.other_members@.map_values(|m: ClusterMember| m@),
        }
    }
}

fn vv_vec_eq(a: &Vec<FloEventId>, b: &Vec<FloEventId>) -> (r: bool)
    ensures
        r == (a@ == b@),
{
    if a.len() != b.len() {
        proof {
            assert(a@ != b@);
        }
        return false;
    }
    let n = a.len();
    let mut i: usize = 0;
    while i < n
        invariant
            n == a.len() == b.len(),
            0 <= i <= n,
            forall|j: int| 0 <= j < i ==> a@[j] == b@[j],
        decreases n - i,
    {
        if a[i] != b[i] {
            proof {
                assert(a@[i as int] != b@[i as int]);
            }
            return false;
        }
        i += 1;
    }
    proof {
        assert(a@ =~= b@);
    }
    true
}

fn members_vec_eq(a: &Vec<ClusterMember>, b: &Vec<ClusterMember>) -> (r: bool)
    ensures
        r == (a@.map_values(|m: ClusterMember| m@) == b@.map_values(|m: ClusterMember| m@)),
{
    let ghost av = a@.map_values(|m: ClusterMember| m@);
    let ghost bv = b@.map_values(|m: ClusterMember| m@);
    if a.len() != b.len() {
        proof {
            assert(av.len() != bv.len());
        }
        return false;
    }
    let n = a.len();
    let mut i: usize = 0;
    while i < n
        invariant
            n == a.len() == b.len(),
            av == a@.map_values(|m: ClusterMember| m@),
            bv == b@.map_values(|m: ClusterMember| m@),
            av.len() == bv.len() == n,
            0 <= i <= n,
            forall|j: int| 0 <= j < i ==> av[j] == bv[j],
        decreases n - i,
    {
        if !(a[i] == b[i]) {
            proof {
                assert(av[i as int] != bv[i as int]);
            }
            return false;
        }
        i += 1;
    }
    proof {
        assert(av =~= bv);
    }
    true
}

impl PartialEq for ClusterState {
    fn eq(&self, other: &ClusterState) -> (r: bool) {
        self.actor_id == other.actor_id && self.actor_port == other.actor_port && vv_vec_eq(
            &self.version_vector,
            &other.version_vector,
        ) && members_vec_eq(&self.other_members, &other.other_members)
    }
}

impl vstd::std_specs::cmp::PartialEqSpecImpl for ClusterState {
    open spec fn obeys_eq_spec() -> bool {
        true
    }

    open spec fn eq_spec(&self, other: &ClusterState) -> bool {
        self@ == other@
    }
}

/// The server's reply to `StartConsuming`, reporting the batch size the
/// cursor will actually use.
#[derive(Debug, Clone, Copy, PartialEq, Eq, Structural)]
pub struct CursorInfo {
    pub op_id: u32,
    pub batch_size: u32,
}

impl View for CursorInfo {
    type V = CursorInfoView;

    open spec fn view(&self) -> CursorInfoView {
        CursorInfoView { op_id: self.op_id, batch_size: self.batch_size }
    }
}

/// Every distinct message that can cross the wire.
#[derive(Debug, Clone)]
pub enum ProtocolMessage {
    /// A client's intent to publish an event; answered by `AckEvent` or
    /// `Error`.
    ProduceEvent(ProduceEvent),
    /// A complete event, sent to consumers and to peer servers.
    ReceiveEvent(RecvEvent),
    /// Acknowledges that a produced event was persisted.
    AckEvent(EventAck),
    /// A client setting its current position in the stream.
    UpdateMarker(FloEventId),
    /// A client's request to start reading events.
    StartConsuming(ConsumerStart),
    /// Confirms a cursor created by `StartConsuming`.
    CursorCreated(CursorInfo),
    /// Tells the server to stop sending events, freeing the connection
    /// for another query.
    StopConsuming,
    /// Sets the consumer batch size; an error while consuming.
    SetBatchSize(u32),
    /// The client is ready for the next batch.
    NextBatch,
    /// The server has sent a full batch and awaits `NextBatch`.
    EndOfBatch,
    /// The consumer has caught the tail of the stream; sent at most once
    /// per cursor.
    AwaitingEvents,
    /// A server announcing itself and its view of the cluster to a peer.
    PeerAnnounce(ClusterState),
    /// A server updating a peer with its current cluster view.
    PeerUpdate(ClusterState),
    /// Speculative credentials message; carried on the wire but never
    /// honoured.
    ClientAuth { namespace: String, username: String, password: String },
    /// An error response to any other message.
    Error(ErrorMessage),
}

impl View for ProtocolMessage {
    type V = MsgView;

    open spec fn view(&self) -> MsgView {
        match self {
            ProtocolMessage::ProduceEvent(p) => MsgView::ProduceEvent(p@),
            ProtocolMessage::ReceiveEvent(e) => MsgView::ReceiveEvent(e@),
            ProtocolMessage::AckEvent(a) => MsgView::AckEvent(a@),
            ProtocolMessage::UpdateMarker(id) => MsgView::UpdateMarker(*id),
            ProtocolMessage::StartConsuming(c) => MsgView::StartConsuming(c@),
            ProtocolMessage::CursorCreated(c) => MsgView::CursorCreated(c@),
            ProtocolMessage::StopConsuming => MsgView::StopConsuming,
            ProtocolMessage::SetBatchSize(n) => MsgView::SetBatchSize(*n),
            ProtocolMessage::NextBatch => MsgView::NextBatch,
            ProtocolMessage::EndOfBatch => MsgView::EndOfBatch,
            ProtocolMessage::AwaitingEvents => MsgView::AwaitingEvents,
            ProtocolMessage::PeerAnnounce(cs) => MsgView::PeerAnnounce(cs@),
            ProtocolMessage::PeerUpdate(cs) => MsgView::PeerUpdate(cs@),
            ProtocolMessage::ClientAuth { namespace, username, password } => MsgView::ClientAuth {
                namespace: namespace@,
                username: username@,
                password: password@,
            },
            ProtocolMessage::Error(e) => MsgView::Error(e@),
        }
    }
}

fn recv_events_eq(a: &RecvEvent, b: &RecvEvent) -> (r: bool)
    ensures
        r == (a@ == b@),
{
    let ea = a.to_owned();
    let eb = b.to_owned();
    ea.id == eb.id && ea.timestamp == eb.timestamp && opt_id_eq(ea.parent_id, eb.parent_id)
        && ea.namespace == eb.namespace && bytes_eq(ea.data.as_slice(), eb.data.as_slice())
}

impl PartialEq for RecvEvent {
    fn eq(&self, other: &RecvEvent) -> (r: bool) {
        recv_events_eq(self, other)
    }
}

impl vstd::std_specs::cmp::PartialEqSpecImpl for RecvEvent {
    open spec fn obeys_eq_spec() -> bool {
        true
    }

    open spec fn eq_spec(&self, other: &RecvEvent) -> bool {
        self@ == other@
    }
}

impl PartialEq for ProtocolMessage {
    fn eq(&self, other: &ProtocolMessage) -> (r: bool) {
        match (self, other) {
            (ProtocolMessage::ProduceEvent(a), ProtocolMessage::ProduceEvent(b)) => *a == *b,
            (ProtocolMessage::ReceiveEvent(a), ProtocolMessage::ReceiveEvent(b)) => *a == *b,
            (ProtocolMessage::AckEvent(a), ProtocolMessage::AckEvent(b)) => *a == *b,
            (ProtocolMessage::UpdateMarker(a), ProtocolMessage::UpdateMarker(b)) => *a == *b,
            (ProtocolMessage::StartConsuming(a), ProtocolMessage::StartConsuming(b)) => *a == *b,
            (ProtocolMessage::CursorCreated(a), ProtocolMessage::CursorCreated(b)) => *a == *b,
            (ProtocolMessage::StopConsuming, ProtocolMessage::StopConsuming) => true,
            (ProtocolMessage::SetBatchSize(a), ProtocolMessage::SetBatchSize(b)) => *a == *b,
            (ProtocolMessage::NextBatch, ProtocolMessage::NextBatch) => true,
            (ProtocolMessage::EndOfBatch, ProtocolMessage::EndOfBatch) => true,
            (ProtocolMessage::AwaitingEvents, ProtocolMessage::AwaitingEvents) => true,
            (ProtocolMessage::PeerAnnounce(a), ProtocolMessage::PeerAnnounce(b)) => *a == *b,
            (ProtocolMessage::PeerUpdate(a), ProtocolMessage::PeerUpdate(b)) => *a == *b,
            (
                ProtocolMessage::ClientAuth { namespace: na, username: ua, password: pa },
                ProtocolMessage::ClientAuth { namespace: nb, username: ub, password: pb },
            ) => *na == *nb && *ua == *ub && *pa == *pb,
            (ProtocolMessage::Error(a), ProtocolMessage::Error(b)) => *a == *b,
            _ => {
                proof {
                    assert(self@ != other@);
                }
                false
            },
        }
    }
}

impl vstd::std_specs::cmp::PartialEqSpecImpl for ProtocolMessage {
    open spec fn obeys_eq_spec() -> bool {
        true
    }

    open spec fn eq_spec(&self, other: &ProtocolMessage) -> bool {
        self@ == other@
    }
}

fn push_id(buf: &mut Vec<u8>, id: FloEventId)
    ensures
        final(buf)@ == old(buf)@ + enc_id(id),
{
    push_u64(buf, id.event_counter);
    push_u16(buf, id.actor);
    proof {
        assert(buf@ =~= old(buf)@ + enc_id(id));
    }
}

fn push_opt_id(buf: &mut Vec<u8>, p: Option<FloEventId>)
    ensures
        final(buf)@ == old(buf)@ + enc_opt_id(p),
{
    match p {
        Some(id) => push_id(buf, id),
        None => {
            push_u64(buf, 0);
            push_u16(buf, 0);
            proof {
                assert(buf@ =~= old(buf)@ + enc_opt_id(p));
            }
        },
    }
}

fn push_cluster_state(buf: &mut Vec<u8>, tag: u8, state: &ClusterState)
    requires
        cluster_state_wf(state@),
    ensures
        final(buf)@ == old(buf)@ + enc_cluster_state(tag, state@),
{
    let ghost start = buf@;
    push_u8(buf, tag);
    push_u16(buf, state.actor_id);
    push_u16(buf, state.actor_port);
    push_u16(buf, state.version_vector.len() as u16);
    let ghost head = buf@;
    let n = state.version_vector.len();
    let mut i: usize = 0;
    while i < n
        invariant
            n == state.version_vector.len(),
            0 <= i <= n,
            buf@ == head + enc_vv(state.version_vector@.take(i as int)),
        decreases n - i,
    {
        push_id(buf, state.version_vector[i]);
        proof {
            lemma_enc_vv_snoc(state.version_vector@, i as int);
            assert(buf@ =~= head + enc_vv(state.version_vector@.take(i + 1)));
        }
        i += 1;
    }
    proof {
        assert(state.version_vector@.take(n as int) =~= state.version_vector@);
    }
    push_u16(buf, state.other_members.len() as u16);
    let ghost mid = buf@;
    let ghost mviews = state@.other_members;
    let m = state.other_members.len();
    let mut k: usize = 0;
    while k < m
        invariant
            m == state.other_members.len(),
            mviews == state@.other_members,
            mviews.len() == m,
            cluster_state_wf(state@),
            0 <= k <= m,
            buf@ == mid + enc_members(mviews.take(k as int)),
        decreases m - k,
    {
        let ghost before = buf@;
        let mem = &state.other_members[k];
        proof {
            assert(mviews[k as int] == state.other_members@[k as int]@);
            assert(str_fits_member(mviews[k as int]));
        }
        push_u16(buf, mem.actor_id);
        push_str(buf, mem.addr.as_str());
        push_bool(buf, mem.connected);
        proof {
            assert(buf@ =~= before + enc_member(mviews[k as int]));
            lemma_enc_members_snoc(mviews, k as int);
            assert(buf@ =~= mid + enc_members(mviews.take(k + 1)));
        }
        k += 1;
    }
    proof {
        assert(mviews.take(m as int) =~= mviews);
        assert(buf@ =~= start + enc_cluster_state(tag, state@));
    }
}

/// Whether a member's address fits its length prefix; spelled out so the
/// encoder loop can name it.
pub open spec fn str_fits_member(m: MemberView) -> bool {
    crate::ser::str_fits(m.addr)
}

impl ErrorKind {
    /// The error kind a serialized byte denotes, or the byte itself when
    /// it denotes none.
    pub fn from_u8(byte: u8) -> (r: Result<ErrorKind, u8>)
        ensures
            crate::wire::is_kind_byte(byte) ==> r == Ok::<ErrorKind, u8>(
                crate::wire::kind_of_byte(byte),
            ),
            !crate::wire::is_kind_byte(byte) ==> r == Err::<ErrorKind, u8>(byte),
    {
        match byte {
            headers::ERROR_INVALID_NAMESPACE => Ok(ErrorKind::InvalidNamespaceGlob),
            headers::ERROR_INVALID_CONSUMER_STATE => Ok(ErrorKind::InvalidConsumerState),
            headers::ERROR_INVALID_VERSION_VECTOR => Ok(ErrorKind::InvalidVersionVector),
            headers::ERROR_STORAGE_ENGINE_IO => Ok(ErrorKind::StorageEngineError),
            other => Err(other),
        }
    }

    /// The one-byte wire form of this error kind.
    pub fn u8_value(&self) -> (r: u8)
        ensures
            r == kind_byte(*self),
    {
        match self {
            ErrorKind::InvalidNamespaceGlob => headers::ERROR_INVALID_NAMESPACE,
            ErrorKind::InvalidConsumerState => headers::ERROR_INVALID_CONSUMER_STATE,
            ErrorKind::InvalidVersionVector => headers::ERROR_INVALID_VERSION_VECTOR,
            ErrorKind::StorageEngineError => headers::ERROR_STORAGE_ENGINE_IO,
        }
    }
}

fn str_fits_check(s: &str) -> (r: bool)
    ensures
        r == crate::ser::str_fits(s@),
{
    s.as_bytes().len() <= 65535
}

fn opt_id_ok(p: &Option<FloEventId>) -> (r: bool)
    ensures
        r == (p matches Some(id) ==> id.event_counter > 0),
{
    match p {
        Some(id) => id.event_counter > 0,
        None => true,
    }
}

fn cluster_state_ok(cs: &ClusterState) -> (r: bool)
    ensures
        r == cluster_state_wf(cs@),
{
    if cs.version_vector.len() > 65535 {
        return false;
    }
    let n = cs.version_vector.len();
    let mut i: usize = 0;
    while i < n
        invariant
            n == cs.version_vector@.len(),
            0 <= i <= n,
            forall|j: int| 0 <= j < i ==> #[trigger] cs.version_vector@[j].event_counter > 0,
        decreases n - i,
    {
        if cs.version_vector[i].event_counter == 0 {
            return false;
        }
        i += 1;
    }
    let mut a: usize = 0;
    while a < n
        invariant
            n == cs.version_vector@.len(),
            0 <= a <= n,
            forall|x: int, y: int|
                0 <= x < y < n && x < a ==> cs.version_vector@[x].actor != cs.version_vector@[
                    y
                ].actor,
        decreases n - a,
    {
        let mut b: usize = a + 1;
        while b < n
            invariant
                n == cs.version_vector@.len(),
                0 <= a < n,
                a < b <= n,
                forall|y: int|
                    a < y < b ==> cs.version_vector@[a as int].actor != cs.version_vector@[
                        y
                    ].actor,
            decreases n - b,
        {
            if cs.version_vector[a].actor == cs.version_vector[b].actor {
                proof {
                    assert(!crate::wire::vv_actors_unique(cs.version_vector@)) by {
                        assert(0 <= a < b < cs.version_vector@.len() && cs.version_vector@[
                            a as int].actor == cs.version_vector@[b as int].actor);
                    }
                }
                return false;
            }
            b = b + 1;
        }
        a = a + 1;
    }
    if cs.other_members.len() > 65535 {
        return false;
    }
    let ghost mviews = cs@.other_members;
    let m = cs.other_members.len();
    let mut k: usize = 0;
    while k < m
        invariant
            m == cs.other_members@.len(),
            mviews == cs@.other_members,
            mviews.len() == m,
            0 <= k <= m,
            forall|j: int| 0 <= j < k ==> crate::ser::str_fits(#[trigger] mviews[j].addr),
        decreases m - k,
    {
        proof {
            assert(mviews[k as int] == cs.other_members@[k as int]@);
        }
        if !str_fits_check(cs.other_members[k].addr.as_str()) {
            proof {
                assert(!crate::ser::str_fits(mviews[k as int].addr));
            }
            return false;
        }
        k = k + 1;
    }
    true
}

impl ProtocolMessage {
    /// Whether this message fits the frame layout, so that `serialize`
    /// may be called on it: every string fits its length prefix, payload
    /// lengths fit their field, present parent ids are non-zero, and
    /// cluster-state bodies are well formed.
    pub fn is_wire_encodable(&self) -> (r: bool)
        ensures
            r == wire_wf(self@),
    {
        match self {
            ProtocolMessage::ProduceEvent(p) => str_fits_check(p.namespace.as_str())
                && p.data.len() <= 0xFFFFFFFF && opt_id_ok(&p.parent_id),
            ProtocolMessage::ReceiveEvent(ev) => {
                let e = ev.to_owned();
                e.id.event_counter > 0 && str_fits_check(e.namespace.as_str()) && e.data.len()
                    <= 0xFFFFFFFF && opt_id_ok(&e.parent_id)
            },
            ProtocolMessage::StartConsuming(c) => str_fits_check(c.namespace.as_str()),
            ProtocolMessage::PeerAnnounce(cs) => cluster_state_ok(cs),
            ProtocolMessage::PeerUpdate(cs) => cluster_state_ok(cs),
            ProtocolMessage::ClientAuth { namespace, username, password } => str_fits_check(
                namespace.as_str(),
            ) && str_fits_check(username.as_str()) && str_fits_check(password.as_str()),
            ProtocolMessage::Error(e) => str_fits_check(e.description.as_str()),
            _ => true,
        }
    }

    /// Appends this message's header bytes to `buf` and returns how many
    /// were written: exactly `enc_msg` of this message. The payload of a
    /// `ProduceEvent` or `ReceiveEvent` is not written; the caller
    /// appends `get_body` itself.
    #[verifier::rlimit(50)]
    pub fn serialize(&self, buf: &mut Vec<u8>) -> (n: usize)
        requires
            wire_wf(self@),
        ensures
            final(buf)@ == old(buf)@ + enc_msg(self@),
            n == enc_msg(self@).len(),
    {
        let start = buf.len();
        match self {
            ProtocolMessage::ProduceEvent(p) => {
                push_u8(buf, headers::PRODUCE_EVENT);
                push_str(buf, p.namespace.as_str());
                push_opt_id(buf, p.parent_id);
                push_u32(buf, p.op_id);
                push_u32(buf, p.data.len() as u32);
                proof {
                    assert(buf@ =~= old(buf)@ + enc_msg(self@));
                }
            },
            ProtocolMessage::ReceiveEvent(ev) => {
                push_u8(buf, headers::RECEIVE_EVENT);
                push_id(buf, ev.id());
                push_opt_id(buf, ev.parent_id());
                push_u64(buf, ev.timestamp().millis);
                push_str(buf, ev.namespace());
                push_u32(buf, ev.data_len());
                proof {
                    assert(buf@ =~= old(buf)@ + enc_msg(self@));
                }
            },
            ProtocolMessage::AckEvent(a) => {
                push_u8(buf, headers::ACK_HEADER);
                push_u32(buf, a.op_id);
                push_id(buf, a.event_id);
                proof {
                    assert(buf@ =~= old(buf)@ + enc_msg(self@));
                }
            },
            ProtocolMessage::UpdateMarker(id) => {
                push_u8(buf, headers::UPDATE_MARKER);
                push_id(buf, *id);
                proof {
                    assert(buf@ =~= old(buf)@ + enc_msg(self@));
                }
            },
            ProtocolMessage::StartConsuming(c) => {
                push_u8(buf, headers::START_CONSUMING);
                push_u32(buf, c.op_id);
                push_str(buf, c.namespace.as_str());
                push_u64(buf, c.max_events);
                proof {
                    assert(buf@ =~= old(buf)@ + enc_msg(self@));
                }
            },
            ProtocolMessage::CursorCreated(c) => {
                push_u8(buf, headers::CURSOR_CREATED);
                push_u32(buf, c.op_id);
                push_u32(buf, c.batch_size);
                proof {
                    assert(buf@ =~= old(buf)@ + enc_msg(self@));
                }
            },
            ProtocolMessage::StopConsuming => {
                push_u8(buf, headers::STOP_CONSUMING);
                proof {
                    assert(buf@ =~= old(buf)@ + enc_msg(self@));
                }
            },
            ProtocolMessage::SetBatchSize(size) => {
                push_u8(buf, headers::SET_BATCH_SIZE);
                push_u32(buf, *size);
                proof {
                    assert(buf@ =~= old(buf)@ + enc_msg(self@));
                }
            },
            ProtocolMessage::NextBatch => {
                push_u8(buf, headers::NEXT_BATCH);
                proof {
                    assert(buf@ =~= old(buf)@ + enc_msg(self@));
                }
            },
            ProtocolMessage::EndOfBatch => {
                push_u8(buf, headers::END_OF_BATCH);
                proof {
                    assert(buf@ =~= old(buf)@ + enc_msg(self@));
                }
            },
            ProtocolMessage::AwaitingEvents => {
                push_u8(buf, headers::AWAITING_EVENTS);
                proof {
                    assert(buf@ =~= old(buf)@ + enc_msg(self@));
                }
            },
            ProtocolMessage::PeerAnnounce(cs) => {
                push_cluster_state(buf, headers::PEER_ANNOUNCE, cs);
                proof {
                    assert(buf@ =~= old(buf)@ + enc_msg(self@));
                }
            },
            ProtocolMessage::PeerUpdate(cs) => {
                push_cluster_state(buf, headers::PEER_UPDATE, cs);
                proof {
                    assert(buf@ =~= old(buf)@ + enc_msg(self@));
                }
            },
            ProtocolMessage::ClientAuth { namespace, username, password } => {
                push_u8(buf, headers::CLIENT_AUTH);
                push_str(buf, namespace.as_str());
                push_str(buf, username.as_str());
                push_str(buf, password.as_str());
                proof {
                    assert(buf@ =~= old(buf)@ + enc_msg(self@));
                }
            },
            ProtocolMessage::Error(e) => {
                push_u8(buf, headers::ERROR_HEADER);
                push_u32(buf, e.op_id);
                push_u8(buf, e.kind.u8_value());
                push_str(buf, e.description.as_str());
                proof {
                    assert(buf@ =~= old(buf)@ + enc_msg(self@));
                }
            },
        }
        buf.len() - start
    }

    /// The payload bytes that follow this message's header, if its kind
    /// carries one.
    pub fn get_body(&self) -> (r: Option<&Vec<u8>>)
        ensures
            self@ matches MsgView::ProduceEvent(p) ==> r matches Some(d) && d@ == p.data,
            self@ matches MsgView::ReceiveEvent(e) ==> r matches Some(d) && d@ == e.data,
            !(self@ is ProduceEvent || self@ is ReceiveEvent) ==> r is None,
    {
        match self {
            ProtocolMessage::ProduceEvent(produce) => Some(&produce.data),
            ProtocolMessage::ReceiveEvent(event) => {
                let data = match event {
                    RecvEvent::Owned(owned) => &owned.data,
                    RecvEvent::Ref(arc) => &arc.data,
                };
                Some(data)
            },
            _ => None,
        }
    }

    /// The `op_id` this message carries, or 0 for kinds that carry none.
    pub fn get_op_id(&self) -> (r: u32)
        ensures
            r == msg_op_id(self@),
    {
        match self {
            ProtocolMessage::ProduceEvent(produce) => produce.op_id,
            ProtocolMessage::StartConsuming(start) => start.op_id,
            ProtocolMessage::CursorCreated(info) => info.op_id,
            ProtocolMessage::Error(err) => err.op_id,
            ProtocolMessage::AckEvent(ack) => ack.op_id,
            _ => 0,
        }
    }
}

/// Rebuilds a message so that any event it carries is owned outright,
/// leaving what it denotes unchanged.
pub fn message_to_owned(message: ProtocolMessage) -> (r: ProtocolMessage)
    ensures
        r@ == message@,
        r matches ProtocolMessage::ReceiveEvent(e) ==> e is Owned,
{
    match message {
        ProtocolMessage::ReceiveEvent(event) => ProtocolMessage::ReceiveEvent(
            RecvEvent::Owned(event.into_owned()),
        ),
        other => other,
    }
}

} // verus!
