//! The mathematical form of every wire frame: what each message encodes
//! to, byte for byte, and which messages fit the frame layout at all.
//! The encoder in `codec` and the decoder in `parse` are both held to
//! these functions.

use vstd::prelude::*;
use vstd::utf8::encode_utf8;
use crate::event::{EventView, FloEventId};
use crate::headers;
use crate::ser::{be16, be32, be64, bool_byte, enc_str, str_fits};

verus! {

/// The error classes a server can report, as carried in an `Error` frame.
#[derive(Debug, Clone, Copy, PartialEq, Eq, Structural)]
pub enum ErrorKind {
    /// The namespace provided by a consumer was an invalid glob pattern.
    InvalidNamespaceGlob,
    /// The connection was in the wrong state for the attempted operation.
    InvalidConsumerState,
    /// A version vector held more than one entry for some actor.
    InvalidVersionVector,
    /// The storage engine could not read or write events.
    StorageEngineError,
}

/// The one-byte wire form of an error kind.
pub open spec fn kind_byte(k: ErrorKind) -> u8 {
    match k {
        ErrorKind::InvalidNamespaceGlob => headers::ERROR_INVALID_NAMESPACE,
        ErrorKind::InvalidConsumerState => headers::ERROR_INVALID_CONSUMER_STATE,
        ErrorKind::InvalidVersionVector => headers::ERROR_INVALID_VERSION_VECTOR,
        ErrorKind::StorageEngineError => headers::ERROR_STORAGE_ENGINE_IO,
    }
}

/// Whether a byte is the wire form of some error kind.
pub open spec fn is_kind_byte(b: u8) -> bool {
    b == headers::ERROR_INVALID_NAMESPACE || b == headers::ERROR_INVALID_CONSUMER_STATE || b
        == headers::ERROR_INVALID_VERSION_VECTOR || b == headers::ERROR_STORAGE_ENGINE_IO
}

/// The error kind a byte denotes.
pub open spec fn kind_of_byte(b: u8) -> ErrorKind {
    if b == headers::ERROR_INVALID_NAMESPACE {
        ErrorKind::InvalidNamespaceGlob
    } else if b == headers::ERROR_INVALID_CONSUMER_STATE {
        ErrorKind::InvalidConsumerState
    } else if b == headers::ERROR_INVALID_VERSION_VECTOR {
        ErrorKind::InvalidVersionVector
    } else {
        ErrorKind::StorageEngineError
    }
}

/// What a `ProduceEvent` frame denotes.
pub struct ProduceView {
    pub op_id: u32,
    pub namespace: Seq<char>,
    pub parent_id: Option<FloEventId>,
    pub data: Seq<u8>,
}

/// What an `AckEvent` frame denotes.
pub struct AckView {
    pub op_id: u32,
    pub event_id: FloEventId,
}

/// What a `StartConsuming` frame denotes.
pub struct ConsumerStartView {
    pub op_id: u32,
    pub max_events: u64,
    pub namespace: Seq<char>,
}

/// What a `CursorCreated` frame denotes.
pub struct CursorInfoView {
    pub op_id: u32,
    pub batch_size: u32,
}

/// What an `Error` frame denotes.
pub struct ErrorView {
    pub op_id: u32,
    pub kind: ErrorKind,
    pub description: Seq<char>,
}

/// One known member of the cluster, as carried inside a cluster-state
/// body; the address is its textual `host:port` form.
pub struct MemberView {
    pub actor_id: u16,
    pub addr: Seq<char>,
    pub connected: bool,
}

/// One replica's view of the cluster, as carried in `PeerAnnounce` and
/// `PeerUpdate` frames.
pub struct ClusterStateView {
    pub actor_id: u16,
    pub actor_port: u16,
    pub version_vector: Seq<FloEventId>,
    pub other_members: Seq<MemberView>,
}

/// What any frame denotes.
pub enum MsgView {
    ProduceEvent(ProduceView),
    ReceiveEvent(EventView),
    AckEvent(AckView),
    UpdateMarker(FloEventId),
    StartConsuming(ConsumerStartView),
    CursorCreated(CursorInfoView),
    StopConsuming,
    SetBatchSize(u32),
    NextBatch,
    EndOfBatch,
    AwaitingEvents,
    PeerAnnounce(ClusterStateView),
    PeerUpdate(ClusterStateView),
    ClientAuth { namespace: Seq<char>, username: Seq<char>, password: Seq<char> },
    Error(ErrorView),
}

/// An event id on the wire: counter then actor, big-endian.
pub open spec fn enc_id(id: FloEventId) -> Seq<u8> {
    be64(id.event_counter) + be16(id.actor)
}

/// An optional event id: `None` is written as the all-zero id.
pub open spec fn enc_opt_id(p: Option<FloEventId>) -> Seq<u8> {
    match p {
        Some(id) => enc_id(id),
        None => be64(0) + be16(0),
    }
}

/// A version vector body: its entries in order.
pub open spec fn enc_vv(ids: Seq<FloEventId>) -> Seq<u8>
    decreases ids.len(),
{
    if ids.len() == 0 {
        Seq::empty()
    } else {
        enc_id(ids[0]) + enc_vv(ids.drop_first())
    }
}

/// One cluster member on the wire.
pub open spec fn enc_member(m: MemberView) -> Seq<u8> {
    be16(m.actor_id) + enc_str(m.addr) + seq![bool_byte(m.connected)]
}

/// A member list body: its entries in order.
pub open spec fn enc_members(ms: Seq<MemberView>) -> Seq<u8>
    decreases ms.len(),
{
    if ms.len() == 0 {
        Seq::empty()
    } else {
        enc_member(ms[0]) + enc_members(ms.drop_first())
    }
}

/// A cluster-state body after its tag: actor id, port, counted version
/// vector, counted member list.
pub open spec fn enc_cluster_state(tag: u8, cs: ClusterStateView) -> Seq<u8> {
    seq![tag] + be16(cs.actor_id) + be16(cs.actor_port) + be16(
        cs.version_vector.len() as u16,
    ) + enc_vv(cs.version_vector) + be16(cs.other_members.len() as u16) + enc_members(
        cs.other_members,
    )
}

/// The header bytes of a frame: everything the encoder writes. For
/// `ProduceEvent` and `ReceiveEvent` the payload follows separately.
pub open spec fn enc_msg(m: MsgView) -> Seq<u8> {
    match m {
        MsgView::ProduceEvent(p) => seq![headers::PRODUCE_EVENT] + enc_str(p.namespace)
            + enc_opt_id(p.parent_id) + be32(p.op_id) + be32(p.data.len() as u32),
        MsgView::ReceiveEvent(e) => seq![headers::RECEIVE_EVENT] + enc_id(e.id) + enc_opt_id(
            e.parent_id,
        ) + be64(e.timestamp) + enc_str(e.namespace) + be32(e.data.len() as u32),
        MsgView::AckEvent(a) => seq![headers::ACK_HEADER] + be32(a.op_id) + enc_id(a.event_id),
        MsgView::UpdateMarker(id) => seq![headers::UPDATE_MARKER] + enc_id(id),
        MsgView::StartConsuming(c) => seq![headers::START_CONSUMING] + be32(c.op_id) + enc_str(
            c.namespace,
        ) + be64(c.max_events),
        MsgView::CursorCreated(c) => seq![headers::CURSOR_CREATED] + be32(c.op_id) + be32(
            c.batch_size,
        ),
        MsgView::StopConsuming => seq![headers::STOP_CONSUMING],
        MsgView::SetBatchSize(n) => seq![headers::SET_BATCH_SIZE] + be32(n),
        MsgView::NextBatch => seq![headers::NEXT_BATCH],
        MsgView::EndOfBatch => seq![headers::END_OF_BATCH],
        MsgView::AwaitingEvents => seq![headers::AWAITING_EVENTS],
        MsgView::PeerAnnounce(cs) => enc_cluster_state(headers::PEER_ANNOUNCE, cs),
        MsgView::PeerUpdate(cs) => enc_cluster_state(headers::PEER_UPDATE, cs),
        MsgView::ClientAuth { namespace, username, password } => seq![headers::CLIENT_AUTH]
            + enc_str(namespace) + enc_str(username) + enc_str(password),
        MsgView::Error(e) => seq![headers::ERROR_HEADER] + be32(e.op_id) + seq![kind_byte(e.kind)]
            + enc_str(e.description),
    }
}

/// The whole frame the decoder consumes: the header, then, for
/// `ReceiveEvent` only, the payload bytes. A `ProduceEvent` payload is
/// streamed by the caller and never part of the frame.
pub open spec fn enc_frame(m: MsgView) -> Seq<u8> {
    match m {
        MsgView::ReceiveEvent(e) => enc_msg(m) + e.data,
        _ => enc_msg(m),
    }
}

/// Whether every actor id occurs at most once in a version vector.
pub open spec fn vv_actors_unique(ids: Seq<FloEventId>) -> bool {
    forall|i: int, j: int|
        0 <= i < j < ids.len() ==> ids[i].actor != ids[j].actor
}

/// A well-formed version vector body: unique actors, no zero counters.
pub open spec fn vv_wf(ids: Seq<FloEventId>) -> bool {
    &&& ids.len() <= u16::MAX
    &&& vv_actors_unique(ids)
    &&& forall|i: int| 0 <= i < ids.len() ==> #[trigger] ids[i].event_counter > 0
}

/// A well-formed cluster state for the wire.
pub open spec fn cluster_state_wf(cs: ClusterStateView) -> bool {
    &&& vv_wf(cs.version_vector)
    &&& cs.other_members.len() <= u16::MAX
    &&& forall|i: int|
        0 <= i < cs.other_members.len() ==> str_fits(#[trigger] cs.other_members[i].addr)
}

/// Whether a message fits the frame layout: every string fits its `u16`
/// length prefix, payload lengths fit their `u32` field, a present
/// parent id has a non-zero counter (the all-zero id means "none" on the
/// wire), a `ReceiveEvent` id is non-zero, and cluster-state bodies are
/// well formed.
pub open spec fn wire_wf(m: MsgView) -> bool {
    match m {
        MsgView::ProduceEvent(p) => {
            &&& str_fits(p.namespace)
            &&& p.data.len() <= u32::MAX
            &&& (p.parent_id matches Some(id) ==> id.event_counter > 0)
        },
        MsgView::ReceiveEvent(e) => {
            &&& e.id.event_counter > 0
            &&& str_fits(e.namespace)
            &&& e.data.len() <= u32::MAX
            &&& (e.parent_id matches Some(id) ==> id.event_counter > 0)
        },
        MsgView::StartConsuming(c) => str_fits(c.namespace),
        MsgView::PeerAnnounce(cs) => cluster_state_wf(cs),
        MsgView::PeerUpdate(cs) => cluster_state_wf(cs),
        MsgView::ClientAuth { namespace, username, password } => str_fits(namespace) && str_fits(
            username,
        ) && str_fits(password),
        MsgView::Error(e) => str_fits(e.description),
        _ => true,
    }
}

/// The `op_id` a message carries, or 0 for kinds that carry none.
pub open spec fn msg_op_id(m: MsgView) -> u32 {
    match m {
        MsgView::ProduceEvent(p) => p.op_id,
        MsgView::StartConsuming(c) => c.op_id,
        MsgView::CursorCreated(c) => c.op_id,
        MsgView::Error(e) => e.op_id,
        MsgView::AckEvent(a) => a.op_id,
        _ => 0,
    }
}

/// What a frame decodes back to: the message itself, except that a
/// `ProduceEvent` comes back with an empty payload, since only its
/// header is framed; the declared length survives as the capacity of the
/// payload buffer.
pub open spec fn decoded_form(m: MsgView) -> MsgView {
    match m {
        MsgView::ProduceEvent(p) => MsgView::ProduceEvent(
            ProduceView { op_id: p.op_id, namespace: p.namespace, parent_id: p.parent_id, data: Seq::empty() },
        ),
        _ => m,
    }
}

/// Appending one entry to a version vector appends its encoding.
pub proof fn lemma_enc_vv_snoc(ids: Seq<FloEventId>, n: int)
    requires
        0 <= n < ids.len(),
    ensures
        enc_vv(ids.take(n + 1)) == enc_vv(ids.take(n)) + enc_id(ids[n]),
    decreases n,
{
    let s1 = ids.take(n + 1);
    let s0 = ids.take(n);
    assert(s1.len() == n + 1);
    assert(enc_vv(s1) == enc_id(s1[0]) + enc_vv(s1.drop_first()));
    if n == 0 {
        assert(s1.drop_first() =~= Seq::<FloEventId>::empty());
        assert(s0 =~= Seq::<FloEventId>::empty());
        assert(enc_vv(Seq::<FloEventId>::empty()) == Seq::<u8>::empty());
        assert(s1[0] == ids[0]);
        assert(enc_id(ids[0]) + Seq::<u8>::empty() =~= Seq::<u8>::empty() + enc_id(ids[0]));
    } else {
        let tl = ids.drop_first();
        assert(s1.drop_first() =~= tl.take(n));
        assert(s0.drop_first() =~= tl.take(n - 1));
        lemma_enc_vv_snoc(tl, n - 1);
        assert(tl[n - 1] == ids[n]);
        assert(enc_vv(tl.take(n)) == enc_vv(tl.take(n - 1)) + enc_id(ids[n]));
        assert(enc_vv(s0) == enc_id(s0[0]) + enc_vv(tl.take(n - 1)));
        assert(s0[0] == ids[0] && s1[0] == ids[0]);
        assert(enc_id(ids[0]) + (enc_vv(tl.take(n - 1)) + enc_id(ids[n])) =~= (enc_id(ids[0])
            + enc_vv(tl.take(n - 1))) + enc_id(ids[n]));
    }
}

/// Appending one member to a member list appends its encoding.
pub proof fn lemma_enc_members_snoc(ms: Seq<MemberView>, n: int)
    requires
        0 <= n < ms.len(),
    ensures
        enc_members(ms.take(n + 1)) == enc_members(ms.take(n)) + enc_member(ms[n]),
    decreases n,
{
    let s1 = ms.take(n + 1);
    let s0 = ms.take(n);
    assert(s1.len() == n + 1);
    assert(enc_members(s1) == enc_member(s1[0]) + enc_members(s1.drop_first()));
    if n == 0 {
        assert(s1.drop_first() =~= Seq::<MemberView>::empty());
        assert(s0 =~= Seq::<MemberView>::empty());
        assert(enc_members(Seq::<MemberView>::empty()) == Seq::<u8>::empty());
        assert(s1[0] == ms[0]);
        assert(enc_member(ms[0]) + Seq::<u8>::empty() =~= Seq::<u8>::empty() + enc_member(ms[0]));
    } else {
        let tl = ms.drop_first();
        assert(s1.drop_first() =~= tl.take(n));
        assert(s0.drop_first() =~= tl.take(n - 1));
        lemma_enc_members_snoc(tl, n - 1);
        assert(tl[n - 1] == ms[n]);
        assert(enc_members(tl.take(n)) == enc_members(tl.take(n - 1)) + enc_member(ms[n]));
        assert(enc_members(s0) == enc_member(s0[0]) + enc_members(tl.take(n - 1)));
        assert(s0[0] == ms[0] && s1[0] == ms[0]);
        assert(enc_member(ms[0]) + (enc_members(tl.take(n - 1)) + enc_member(ms[n])) =~= (
        enc_member(ms[0]) + enc_members(tl.take(n - 1))) + enc_member(ms[n]));
    }
}

} // verus!
