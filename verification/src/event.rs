//! Event identity: the `(actor, counter)` event id, millisecond timestamps,
//! and the event record itself in its owned and shared-read-only forms.

use vstd::prelude::*;
use std::sync::Arc;

verus! {

/// A server instance with a globally unique id; the sole issuer of event
/// counters under that id.
pub type ActorId = u16;

/// Per-actor sequence number of an event; zero denotes "none".
pub type EventCounter = u64;

/// Globally unique event identifier. Within one actor, ids are ordered by
/// `(event_counter, actor)`; across actors only the version vector gives
/// an order.
#[derive(Debug, Clone, Copy, PartialEq, Eq, Structural, Hash)]
pub struct FloEventId {
    pub event_counter: EventCounter,
    pub actor: ActorId,
}

impl FloEventId {
    pub fn new(actor: ActorId, event_counter: EventCounter) -> (r: FloEventId)
        ensures
            r.actor == actor,
            r.event_counter == event_counter,
    {
        FloEventId { event_counter, actor }
    }

    /// A counter of zero stands for a null id on the wire.
    pub open spec fn spec_is_zero(&self) -> bool {
        self.event_counter == 0
    }

    #[verifier::when_used_as_spec(spec_is_zero)]
    pub fn is_zero(&self) -> (r: bool)
        ensures
            r == self.spec_is_zero(),
    {
        self.event_counter == 0
    }
}

/// Milliseconds since the Unix epoch.
#[derive(Debug, Clone, Copy, PartialEq, Eq, Structural, Hash)]
pub struct Timestamp {
    pub millis: u64,
}

/// The mathematical content of an event record: what both event
/// representations denote.
pub struct EventView {
    pub id: FloEventId,
    pub timestamp: u64,
    pub parent_id: Option<FloEventId>,
    pub namespace: Seq<char>,
    pub data: Seq<u8>,
}

/// An immutable event record, owned outright.
#[derive(Debug, Clone)]
pub struct OwnedFloEvent {
    pub id: FloEventId,
    pub timestamp: Timestamp,
    pub parent_id: Option<FloEventId>,
    pub namespace: String,
    pub data: Vec<u8>,
}

impl View for OwnedFloEvent {
    type V = EventView;

    open spec fn view(&self) -> EventView {
        EventView {
            id: self.id,
            timestamp: self.timestamp.millis,
            parent_id: self.parent_id,
            namespace: self.namespace@,
            data: self.data@,
        }
    }
}

impl OwnedFloEvent {
    pub fn new(
        id: FloEventId,
        parent_id: Option<FloEventId>,
        timestamp: Timestamp,
        namespace: String,
        data: Vec<u8>,
    ) -> (r: OwnedFloEvent)
        ensures
            r@ == (EventView {
                id,
                timestamp: timestamp.millis,
                parent_id,
                namespace: namespace@,
                data: data@,
            }),
    {
        OwnedFloEvent { id, timestamp, parent_id, namespace, data }
    }
}

/// Compares two byte slices for equality of contents.
pub fn bytes_eq(a: &[u8], b: &[u8]) -> (r: bool)
    ensures
        r == (a@ == b@),
{
    if a.len() != b.len() {
        proof {
            assert(a@ != b@);
        }
        return false;
    }
    let n = a.len();
    let mut i: usize = 0;
    while i < n
        invariant
            n == a@.len() == b@.len(),
            0 <= i <= n,
            forall|j: int| 0 <= j < i ==> a@[j] == b@[j],
        decreases n - i,
    {
        if a[i] != b[i] {
            proof {
                assert(a@[i as int] != b@[i as int]);
            }
            return false;
        }
        i += 1;
    }
    proof {
        assert(a@ =~= b@);
    }
    true
}

/// Compares two strings by their UTF-8 bytes; equal bytes decode to
/// equal characters.
pub fn str_eq(a: &str, b: &str) -> (r: bool)
    ensures
        r == (a@ == b@),
{
    let r = bytes_eq(a.as_bytes(), b.as_bytes());
    proof {
        if r {
            vstd::utf8::encode_utf8_decode_utf8(a@);
            vstd::utf8::encode_utf8_decode_utf8(b@);
        }
    }
    r
}

/// Compares two optional event ids.
pub fn opt_id_eq(a: Option<FloEventId>, b: Option<FloEventId>) -> (r: bool)
    ensures
        r == (a == b),
{
    match (a, b) {
        (Some(x), Some(y)) => x == y,
        (None, None) => true,
        _ => false,
    }
}

/// Copies an event field by field; the copy denotes the same `EventView`.
pub fn clone_event(e: &OwnedFloEvent) -> (r: OwnedFloEvent)
    ensures
        r@ == e@,
{
    OwnedFloEvent {
        id: e.id,
        timestamp: e.timestamp,
        parent_id: e.parent_id,
        namespace: e.namespace.clone(),
        data: e.data.clone(),
    }
}

/// An event as received or broadcast: either owned outright or behind a
/// shared reference-counted handle, so that fan-out to many consumers
/// needs no per-cursor payload copy. Both forms expose the same
/// accessors and denote the same `EventView`.
#[derive(Debug, Clone)]
pub enum RecvEvent {
    Owned(OwnedFloEvent),
    Ref(Arc<OwnedFloEvent>),
}

impl View for RecvEvent {
    type V = EventView;

    open spec fn view(&self) -> EventView {
        match self {
            RecvEvent::Owned(e) => e@,
            RecvEvent::Ref(e) => e@,
        }
    }
}

impl RecvEvent {
    pub fn id(&self) -> (r: FloEventId)
        ensures
            r == self@.id,
    {
        match self {
            RecvEvent::Owned(e) => e.id,
            RecvEvent::Ref(e) => e.id,
        }
    }

    pub fn timestamp(&self) -> (r: Timestamp)
        ensures
            r.millis == self@.timestamp,
    {
        match self {
            RecvEvent::Owned(e) => e.timestamp,
            RecvEvent::Ref(e) => e.timestamp,
        }
    }

    pub fn parent_id(&self) -> (r: Option<FloEventId>)
        ensures
            r == self@.parent_id,
    {
        match self {
            RecvEvent::Owned(e) => e.parent_id,
            RecvEvent::Ref(e) => e.parent_id,
        }
    }

    pub fn namespace(&self) -> (r: &str)
        ensures
            r@ == self@.namespace,
    {
        match self {
            RecvEvent::Owned(e) => e.namespace.as_str(),
            RecvEvent::Ref(e) => e.namespace.as_str(),
        }
    }

    /// Payload length as carried on the wire, where it is a `u32`.
    pub fn data_len(&self) -> (r: u32)
        requires
            self@.data.len() <= u32::MAX,
        ensures
            r == self@.data.len(),
    {
        let n = match self {
            RecvEvent::Owned(e) => e.data.len(),
            RecvEvent::Ref(e) => e.data.len(),
        };
        n as u32
    }

    pub fn data(&self) -> (r: &[u8])
        ensures
            r@ == self@.data,
    {
        match self {
            RecvEvent::Owned(e) => e.data.as_slice(),
            RecvEvent::Ref(e) => e.data.as_slice(),
        }
    }

    /// Converts to an owned event, copying only for the shared form.
    pub fn into_owned(self) -> (r: OwnedFloEvent)
        ensures
            r@ == self@,
    {
        match self {
            RecvEvent::Owned(e) => e,
            RecvEvent::Ref(a) => clone_event(&a),
        }
    }

    pub fn to_owned(&self) -> (r: OwnedFloEvent)
        ensures
            r@ == self@,
    {
        match self {
            RecvEvent::Owned(e) => clone_event(e),
            RecvEvent::Ref(a) => clone_event(a),
        }
    }
}

} // verus!
