//! The incremental frame decoder. Given any byte slice it returns the
//! first complete message and how many bytes it consumed, or "incomplete"
//! with a lower bound on the frame's total length, or an error for a
//! framing violation. Every executable reader is pinned to a spec-level
//! parser, and `laws` proves the decoder against the encoder.

use vstd::prelude::*;
use vstd::utf8::{decode_utf8, valid_utf8};
use crate::event::{EventView, FloEventId, OwnedFloEvent, RecvEvent, Timestamp};
use crate::headers;
use crate::ser::{be16_val, be32_val, be64_val};
use crate::wire::{
    is_kind_byte, kind_of_byte, vv_actors_unique, AckView, ClusterStateView, ConsumerStartView,
    CursorInfoView, ErrorView, MemberView, MsgView, ProduceView,
};
use crate::codec::{
    ClusterMember, ClusterState, ConsumerStart, CursorInfo, ErrorMessage, EventAck, ProduceEvent,
    ProtocolMessage,
};

verus! {

/// Outcome of running the decoder over a byte slice: the parsed value
/// with the count of bytes consumed; or "incomplete", with a lower bound
/// on how many bytes the whole frame occupies, counted from the start of
/// the given slice; or a framing error.
#[derive(Debug, PartialEq)]
pub enum Decoded<T> {
    Done(T, usize),
    Incomplete(u64),
    Error,
}

/// The spec-level outcome: the denoted value and the position after it,
/// or the frame-length lower bound, or a framing error.
pub enum SpecDec<T> {
    Done(T, int),
    Incomplete(int),
    Error,
}

/// Clamps a frame-length bound into the `u64` the decoder reports; real
/// frames are far below the clamp.
pub open spec fn sat64(n: int) -> u64 {
    if n > u64::MAX {
        u64::MAX
    } else if n < 0 {
        0
    } else {
        n as u64
    }
}

pub open spec fn sp_u8(b: Seq<u8>, pos: int) -> SpecDec<u8> {
    if pos + 1 <= b.len() {
        SpecDec::Done(b[pos], pos + 1)
    } else {
        SpecDec::Incomplete(pos + 1)
    }
}

pub open spec fn sp_u16(b: Seq<u8>, pos: int) -> SpecDec<u16> {
    if pos + 2 <= b.len() {
        SpecDec::Done(be16_val(b[pos], b[pos + 1]), pos + 2)
    } else {
        SpecDec::Incomplete(pos + 2)
    }
}

pub open spec fn sp_u32(b: Seq<u8>, pos: int) -> SpecDec<u32> {
    if pos + 4 <= b.len() {
        SpecDec::Done(be32_val(b[pos], b[pos + 1], b[pos + 2], b[pos + 3]), pos + 4)
    } else {
        SpecDec::Incomplete(pos + 4)
    }
}

pub open spec fn sp_u64(b: Seq<u8>, pos: int) -> SpecDec<u64> {
    if pos + 8 <= b.len() {
        SpecDec::Done(
            be64_val(
                b[pos],
                b[pos + 1],
                b[pos + 2],
                b[pos + 3],
                b[pos + 4],
                b[pos + 5],
                b[pos + 6],
                b[pos + 7],
            ),
            pos + 8,
        )
    } else {
        SpecDec::Incomplete(pos + 8)
    }
}

/// A length-prefixed string: the byte count, then that many UTF-8 bytes.
/// Invalid UTF-8 is a framing error.
pub open spec fn sp_str(b: Seq<u8>, pos: int) -> SpecDec<Seq<char>> {
    match sp_u16(b, pos) {
        SpecDec::Done(n, p) => {
            if p + n > b.len() {
                SpecDec::Incomplete(p + n)
            } else {
                let bytes = b.subrange(p, p + n);
                if valid_utf8(bytes) {
                    SpecDec::Done(decode_utf8(bytes), p + n)
                } else {
                    SpecDec::Error
                }
            }
        },
        SpecDec::Incomplete(n) => SpecDec::Incomplete(n),
        SpecDec::Error => SpecDec::Error,
    }
}

/// An event id field: counter then actor; an all-zero counter denotes
/// "none".
pub open spec fn sp_opt_id(b: Seq<u8>, pos: int) -> SpecDec<Option<FloEventId>> {
    if pos + 10 <= b.len() {
        match (sp_u64(b, pos), sp_u16(b, pos + 8)) {
            (SpecDec::Done(counter, _), SpecDec::Done(actor, _)) => SpecDec::Done(
                if counter > 0 {
                    Some(FloEventId { event_counter: counter, actor })
                } else {
                    None
                },
                pos + 10,
            ),
            _ => SpecDec::Error,
        }
    } else {
        SpecDec::Incomplete(pos + 10)
    }
}

/// An event id field where "none" is forbidden: a zero counter is a
/// framing error.
pub open spec fn sp_nonzero_id(b: Seq<u8>, pos: int) -> SpecDec<FloEventId> {
    match sp_opt_id(b, pos) {
        SpecDec::Done(opt, p) => match opt {
            Some(id) => SpecDec::Done(id, p),
            None => SpecDec::Error,
        },
        SpecDec::Incomplete(n) => SpecDec::Incomplete(n),
        SpecDec::Error => SpecDec::Error,
    }
}

/// An event id field read verbatim, zero counter and all, as the
/// `UpdateMarker` and `AckEvent` bodies do.
pub open spec fn sp_raw_id(b: Seq<u8>, pos: int) -> SpecDec<FloEventId> {
    if pos + 10 <= b.len() {
        match (sp_u64(b, pos), sp_u16(b, pos + 8)) {
            (SpecDec::Done(counter, _), SpecDec::Done(actor, _)) => SpecDec::Done(
                FloEventId { event_counter: counter, actor },
                pos + 10,
            ),
            _ => SpecDec::Error,
        }
    } else {
        SpecDec::Incomplete(pos + 10)
    }
}

impl<T> Decoded<T> {
    /// Whether this outcome reports the spec outcome `s`, with the view
    /// of the parsed value given by `f`.
    pub open spec fn reports<V>(self, s: SpecDec<V>, f: spec_fn(T) -> V) -> bool {
        match s {
            SpecDec::Done(v, p) => self matches Decoded::Done(x, q) && f(x) == v && q == p,
            SpecDec::Incomplete(n) => self matches Decoded::Incomplete(m) && m == sat64(n),
            SpecDec::Error => self is Error,
        }
    }
}

/// `pos + k` clamped to `u64`, as reported in `Incomplete`.
fn sat_add(pos: usize, k: u64) -> (r: u64)
    ensures
        r == sat64(pos + k),
{
    if pos as u64 > u64::MAX - k {
        u64::MAX
    } else {
        pos as u64 + k
    }
}

fn rd_u8(buf: &[u8], pos: usize) -> (r: Decoded<u8>)
    requires
        pos <= buf@.len(),
    ensures
        r.reports(sp_u8(buf@, pos as int), |x: u8| x),
        r matches Decoded::Done(x, q) ==> q <= buf@.len(),
{
    if buf.len() - pos >= 1 {
        Decoded::Done(buf[pos], pos + 1)
    } else {
        Decoded::Incomplete(sat_add(pos, 1))
    }
}

fn rd_u16(buf: &[u8], pos: usize) -> (r: Decoded<u16>)
    requires
        pos <= buf@.len(),
    ensures
        r.reports(sp_u16(buf@, pos as int), |x: u16| x),
        r matches Decoded::Done(x, q) ==> q <= buf@.len(),
{
    if buf.len() - pos >= 2 {
        let v: u16 = (buf[pos] as u16) * 0x100 + (buf[pos + 1] as u16);
        Decoded::Done(v, pos + 2)
    } else {
        Decoded::Incomplete(sat_add(pos, 2))
    }
}

fn rd_u32(buf: &[u8], pos: usize) -> (r: Decoded<u32>)
    requires
        pos <= buf@.len(),
    ensures
        r.reports(sp_u32(buf@, pos as int), |x: u32| x),
        r matches Decoded::Done(x, q) ==> q <= buf@.len(),
{
    if buf.len() - pos >= 4 {
        let v: u32 = (buf[pos] as u32) * 0x1000000 + (buf[pos + 1] as u32) * 0x10000 + (buf[pos
            + 2] as u32) * 0x100 + (buf[pos + 3] as u32);
        Decoded::Done(v, pos + 4)
    } else {
        Decoded::Incomplete(sat_add(pos, 4))
    }
}

fn rd_u64(buf: &[u8], pos: usize) -> (r: Decoded<u64>)
    requires
        pos <= buf@.len(),
    ensures
        r.reports(sp_u64(buf@, pos as int), |x: u64| x),
        r matches Decoded::Done(x, q) ==> q <= buf@.len(),
{
    if buf.len() - pos >= 8 {
        let v: u64 = (buf[pos] as u64) * 0x100000000000000 + (buf[pos + 1] as u64)
            * 0x1000000000000 + (buf[pos + 2] as u64) * 0x10000000000 + (buf[pos + 3] as u64)
            * 0x100000000 + (buf[pos + 4] as u64) * 0x1000000 + (buf[pos + 5] as u64) * 0x10000 + (
        buf[pos + 6] as u64) * 0x100 + (buf[pos + 7] as u64);
        Decoded::Done(v, pos + 8)
    } else {
        Decoded::Incomplete(sat_add(pos, 8))
    }
}

/// Relies on `str::from_utf8`: it returns `Ok` exactly when the bytes
/// are valid UTF-8, and the resulting string views those same bytes, so
/// its characters are their UTF-8 decoding.
#[verifier::external_body]
fn utf8_to_string(bytes: &[u8]) -> (r: Option<String>)
    ensures
        r matches Some(s) ==> valid_utf8(bytes@) && s@ == decode_utf8(bytes@),
        r is None ==> !valid_utf8(bytes@),
{
    std::str::from_utf8(bytes).ok().map(|s| s.to_string())
}

fn rd_str(buf: &[u8], pos: usize) -> (r: Decoded<String>)
    requires
        pos <= buf@.len(),
    ensures
        r.reports(sp_str(buf@, pos as int), |x: String| x@),
        r matches Decoded::Done(x, q) ==> q <= buf@.len(),
{
    match rd_u16(buf, pos) {
        Decoded::Done(n16, p) => {
            let n = n16 as usize;
            if buf.len() - p < n {
                Decoded::Incomplete(sat_add(p, n as u64))
            } else {
                let bytes = vstd::slice::slice_subrange(buf, p, p + n);
                match utf8_to_string(bytes) {
                    Some(s) => Decoded::Done(s, p + n),
                    None => Decoded::Error,
                }
            }
        },
        Decoded::Incomplete(n) => Decoded::Incomplete(n),
        Decoded::Error => Decoded::Error,
    }
}

fn rd_opt_id(buf: &[u8], pos: usize) -> (r: Decoded<Option<FloEventId>>)
    requires
        pos <= buf@.len(),
    ensures
        r.reports(sp_opt_id(buf@, pos as int), |x: Option<FloEventId>| x),
        r matches Decoded::Done(x, q) ==> q <= buf@.len(),
{
    if buf.len() - pos >= 10 {
        let counter = match rd_u64(buf, pos) {
            Decoded::Done(c, _) => c,
            _ => {
                return Decoded::Error;
            },
        };
        let actor = match rd_u16(buf, pos + 8) {
            Decoded::Done(a, _) => a,
            _ => {
                return Decoded::Error;
            },
        };
        let id = if counter > 0 {
            Some(FloEventId { event_counter: counter, actor })
        } else {
            None
        };
        Decoded::Done(id, pos + 10)
    } else {
        Decoded::Incomplete(sat_add(pos, 10))
    }
}

fn rd_nonzero_id(buf: &[u8], pos: usize) -> (r: Decoded<FloEventId>)
    requires
        pos <= buf@.len(),
    ensures
        r.reports(sp_nonzero_id(buf@, pos as int), |x: FloEventId| x),
        r matches Decoded::Done(x, q) ==> q <= buf@.len(),
{
    match rd_opt_id(buf, pos) {
        Decoded::Done(opt, p) => match opt {
            Some(id) => Decoded::Done(id, p),
            None => Decoded::Error,
        },
        Decoded::Incomplete(n) => Decoded::Incomplete(n),
        Decoded::Error => Decoded::Error,
    }
}

fn rd_raw_id(buf: &[u8], pos: usize) -> (r: Decoded<FloEventId>)
    requires
        pos <= buf@.len(),
    ensures
        r.reports(sp_raw_id(buf@, pos as int), |x: FloEventId| x),
        r matches Decoded::Done(x, q) ==> q <= buf@.len(),
{
    if buf.len() - pos >= 10 {
        let counter = match rd_u64(buf, pos) {
            Decoded::Done(c, _) => c,
            _ => {
                return Decoded::Error;
            },
        };
        let actor = match rd_u16(buf, pos + 8) {
            Decoded::Done(a, _) => a,
            _ => {
                return Decoded::Error;
            },
        };
        Decoded::Done(FloEventId { event_counter: counter, actor }, pos + 10)
    } else {
        Decoded::Incomplete(sat_add(pos, 10))
    }
}


/// Prepends already-parsed entries to the outcome of parsing the rest of
/// a counted list.
pub open spec fn dec_continue<T>(acc: Seq<T>, s: SpecDec<Seq<T>>) -> SpecDec<Seq<T>> {
    match s {
        SpecDec::Done(rest, p) => SpecDec::Done(acc + rest, p),
        SpecDec::Incomplete(n) => SpecDec::Incomplete(n),
        SpecDec::Error => SpecDec::Error,
    }
}

/// `count` version-vector entries, each a non-zero event id.
pub open spec fn sp_vv_entries(b: Seq<u8>, pos: int, count: int) -> SpecDec<Seq<FloEventId>>
    decreases count,
{
    if count <= 0 {
        SpecDec::Done(Seq::empty(), pos)
    } else {
        match sp_nonzero_id(b, pos) {
            SpecDec::Done(id, p) => match sp_vv_entries(b, p, count - 1) {
                SpecDec::Done(rest, p2) => SpecDec::Done(seq![id] + rest, p2),
                SpecDec::Incomplete(n) => SpecDec::Incomplete(n),
                SpecDec::Error => SpecDec::Error,
            },
            SpecDec::Incomplete(n) => SpecDec::Incomplete(n),
            SpecDec::Error => SpecDec::Error,
        }
    }
}

/// One cluster member: actor id, textual address, connected flag. The
/// flag byte reads as true exactly when it is 1. The address is
/// validated only as UTF-8: whether its `host:port` text names a
/// reachable socket is for the dialling caller to decide, since socket
/// address types stay outside the verified library.
pub open spec fn sp_member(b: Seq<u8>, pos: int) -> SpecDec<MemberView> {
    match sp_u16(b, pos) {
        SpecDec::Done(actor, p1) => match sp_str(b, p1) {
            SpecDec::Done(addr, p2) => match sp_u8(b, p2) {
                SpecDec::Done(byte, p3) => SpecDec::Done(
                    MemberView { actor_id: actor, addr, connected: byte == 1 },
                    p3,
                ),
                SpecDec::Incomplete(n) => SpecDec::Incomplete(n),
                SpecDec::Error => SpecDec::Error,
            },
            SpecDec::Incomplete(n) => SpecDec::Incomplete(n),
            SpecDec::Error => SpecDec::Error,
        },
        SpecDec::Incomplete(n) => SpecDec::Incomplete(n),
        SpecDec::Error => SpecDec::Error,
    }
}

/// `count` cluster members.
pub open spec fn sp_members(b: Seq<u8>, pos: int, count: int) -> SpecDec<Seq<MemberView>>
    decreases count,
{
    if count <= 0 {
        SpecDec::Done(Seq::empty(), pos)
    } else {
        match sp_member(b, pos) {
            SpecDec::Done(m, p) => match sp_members(b, p, count - 1) {
                SpecDec::Done(rest, p2) => SpecDec::Done(seq![m] + rest, p2),
                SpecDec::Incomplete(n) => SpecDec::Incomplete(n),
                SpecDec::Error => SpecDec::Error,
            },
            SpecDec::Incomplete(n) => SpecDec::Incomplete(n),
            SpecDec::Error => SpecDec::Error,
        }
    }
}

/// A cluster-state body: actor id, port, counted version vector, counted
/// member list. A version vector naming an actor twice is rejected here,
/// at decode time.
pub open spec fn sp_cluster_state(b: Seq<u8>, pos: int) -> SpecDec<ClusterStateView> {
    match sp_u16(b, pos) {
        SpecDec::Done(actor_id, p1) => match sp_u16(b, p1) {
            SpecDec::Done(port, p2) => match sp_u16(b, p2) {
                SpecDec::Done(vv_len, p3) => match sp_vv_entries(b, p3, vv_len as int) {
                    SpecDec::Done(ids, p4) => if !vv_actors_unique(ids) {
                        SpecDec::Error
                    } else {
                        match sp_u16(b, p4) {
                            SpecDec::Done(m_len, p5) => match sp_members(b, p5, m_len as int) {
                                SpecDec::Done(ms, p6) => SpecDec::Done(
                                    ClusterStateView {
                                        actor_id,
                                        actor_port: port,
                                        version_vector: ids,
                                        other_members: ms,
                                    },
                                    p6,
                                ),
                                SpecDec::Incomplete(n) => SpecDec::Incomplete(n),
                                SpecDec::Error => SpecDec::Error,
                            },
                            SpecDec::Incomplete(n) => SpecDec::Incomplete(n),
                            SpecDec::Error => SpecDec::Error,
                        }
                    },
                    SpecDec::Incomplete(n) => SpecDec::Incomplete(n),
                    SpecDec::Error => SpecDec::Error,
                },
                SpecDec::Incomplete(n) => SpecDec::Incomplete(n),
                SpecDec::Error => SpecDec::Error,
            },
            SpecDec::Incomplete(n) => SpecDec::Incomplete(n),
            SpecDec::Error => SpecDec::Error,
        },
        SpecDec::Incomplete(n) => SpecDec::Incomplete(n),
        SpecDec::Error => SpecDec::Error,
    }
}

fn rd_vv(buf: &[u8], pos: usize, count: u16) -> (r: Decoded<Vec<FloEventId>>)
    requires
        pos <= buf@.len(),
    ensures
        r.reports(sp_vv_entries(buf@, pos as int, count as int), |v: Vec<FloEventId>| v@),
        r matches Decoded::Done(x, q) ==> q <= buf@.len(),
{
    let ghost total = sp_vv_entries(buf@, pos as int, count as int);
    let mut ids: Vec<FloEventId> = Vec::new();
    let mut p: usize = pos;
    let mut i: u16 = 0;
    while i < count
        invariant
            pos <= buf@.len(),
            p <= buf@.len(),
            0 <= i <= count,
            ids@.len() == i as int,
            total == sp_vv_entries(buf@, pos as int, count as int),
            total == dec_continue(ids@, sp_vv_entries(buf@, p as int, count - i)),
        decreases count - i,
    {
        let ghost prev_ids = ids@;
        let ghost k = (count - i) as int;
        match rd_nonzero_id(buf, p) {
            Decoded::Done(id, p2) => {
                proof {
                    let s2 = sp_vv_entries(buf@, p2 as int, k - 1);
                    match s2 {
                        SpecDec::Done(rest, q) => {
                            assert(prev_ids + (seq![id] + rest) =~= (prev_ids + seq![id]) + rest);
                            assert(prev_ids.push(id) =~= prev_ids + seq![id]);
                        },
                        SpecDec::Incomplete(n) => {},
                        SpecDec::Error => {},
                    }
                }
                ids.push(id);
                p = p2;
                i = i + 1;
            },
            Decoded::Incomplete(n) => {
                return Decoded::Incomplete(n);
            },
            Decoded::Error => {
                return Decoded::Error;
            },
        }
    }
    proof {
        assert(ids@ + Seq::<FloEventId>::empty() =~= ids@);
    }
    Decoded::Done(ids, p)
}

fn rd_member(buf: &[u8], pos: usize) -> (r: Decoded<ClusterMember>)
    requires
        pos <= buf@.len(),
    ensures
        r.reports(sp_member(buf@, pos as int), |m: ClusterMember| m@),
        r matches Decoded::Done(x, q) ==> q <= buf@.len(),
{
    let actor_id = match rd_u16(buf, pos) {
        Decoded::Done(a, _) => a,
        Decoded::Incomplete(n) => {
            return Decoded::Incomplete(n);
        },
        Decoded::Error => {
            return Decoded::Error;
        },
    };
    let p1 = pos + 2;
    let (addr, p2) = match rd_str(buf, p1) {
        Decoded::Done(s, q) => (s, q),
        Decoded::Incomplete(n) => {
            return Decoded::Incomplete(n);
        },
        Decoded::Error => {
            return Decoded::Error;
        },
    };
    match rd_u8(buf, p2) {
        Decoded::Done(byte, p3) => Decoded::Done(
            ClusterMember { addr, actor_id, connected: byte == 1 },
            p3,
        ),
        Decoded::Incomplete(n) => Decoded::Incomplete(n),
        Decoded::Error => Decoded::Error,
    }
}

fn rd_members(buf: &[u8], pos: usize, count: u16) -> (r: Decoded<Vec<ClusterMember>>)
    requires
        pos <= buf@.len(),
    ensures
        r.reports(
            sp_members(buf@, pos as int, count as int),
            |v: Vec<ClusterMember>| v@.map_values(|m: ClusterMember| m@),
        ),
        r matches Decoded::Done(x, q) ==> q <= buf@.len(),
{
    let ghost total = sp_members(buf@, pos as int, count as int);
    let mut ms: Vec<ClusterMember> = Vec::new();
    let mut p: usize = pos;
    let mut i: u16 = 0;
    while i < count
        invariant
            pos <= buf@.len(),
            p <= buf@.len(),
            0 <= i <= count,
            total == sp_members(buf@, pos as int, count as int),
            total == dec_continue(
                ms@.map_values(|m: ClusterMember| m@),
                sp_members(buf@, p as int, count - i),
            ),
        decreases count - i,
    {
        let ghost prev = ms@.map_values(|m: ClusterMember| m@);
        let ghost k = (count - i) as int;
        match rd_member(buf, p) {
            Decoded::Done(mem, p2) => {
                proof {
                    let s2 = sp_members(buf@, p2 as int, k - 1);
                    match s2 {
                        SpecDec::Done(rest, q) => {
                            assert(prev + (seq![mem@] + rest) =~= (prev + seq![mem@]) + rest);
                        },
                        SpecDec::Incomplete(n) => {},
                        SpecDec::Error => {},
                    }
                    assert(ms@.push(mem).map_values(|m: ClusterMember| m@) =~= prev.push(mem@));
                    assert(prev.push(mem@) =~= prev + seq![mem@]);
                }
                ms.push(mem);
                p = p2;
                i = i + 1;
            },
            Decoded::Incomplete(n) => {
                return Decoded::Incomplete(n);
            },
            Decoded::Error => {
                return Decoded::Error;
            },
        }
    }
    proof {
        let mv = ms@.map_values(|m: ClusterMember| m@);
        assert(mv + Seq::<MemberView>::empty() =~= mv);
    }
    Decoded::Done(ms, p)
}

/// Whether every actor id occurs at most once.
fn check_vv_unique(ids: &Vec<FloEventId>) -> (r: bool)
    ensures
        r == vv_actors_unique(ids@),
{
    let n = ids.len();
    let mut i: usize = 0;
    while i < n
        invariant
            n == ids@.len(),
            0 <= i <= n,
            forall|a: int, c: int| 0 <= a < c < n && a < i ==> ids@[a].actor != ids@[c].actor,
        decreases n - i,
    {
        let mut j: usize = i + 1;
        while j < n
            invariant
                n == ids@.len(),
                0 <= i < n,
                i < j <= n,
                forall|c: int| i < c < j ==> ids@[i as int].actor != ids@[c].actor,
            decreases n - j,
        {
            if ids[i].actor == ids[j].actor {
                proof {
                    assert(!vv_actors_unique(ids@)) by {
                        assert(0 <= i < j < ids@.len() && ids@[i as int].actor == ids@[
                            j as int].actor);
                    }
                }
                return false;
            }
            j = j + 1;
        }
        i = i + 1;
    }
    true
}

fn rd_cluster_state(buf: &[u8], pos: usize) -> (r: Decoded<ClusterState>)
    requires
        pos <= buf@.len(),
    ensures
        r.reports(sp_cluster_state(buf@, pos as int), |c: ClusterState| c@),
        r matches Decoded::Done(x, q) ==> q <= buf@.len(),
{
    let actor_id = match rd_u16(buf, pos) {
        Decoded::Done(a, _) => a,
        Decoded::Incomplete(n) => {
            return Decoded::Incomplete(n);
        },
        Decoded::Error => {
            return Decoded::Error;
        },
    };
    let actor_port = match rd_u16(buf, pos + 2) {
        Decoded::Done(a, _) => a,
        Decoded::Incomplete(n) => {
            return Decoded::Incomplete(n);
        },
        Decoded::Error => {
            return Decoded::Error;
        },
    };
    let vv_len = match rd_u16(buf, pos + 4) {
        Decoded::Done(a, _) => a,
        Decoded::Incomplete(n) => {
            return Decoded::Incomplete(n);
        },
        Decoded::Error => {
            return Decoded::Error;
        },
    };
    let (version_vector, p4) = match rd_vv(buf, pos + 6, vv_len) {
        Decoded::Done(v, q) => (v, q),
        Decoded::Incomplete(n) => {
            return Decoded::Incomplete(n);
        },
        Decoded::Error => {
            return Decoded::Error;
        },
    };
    if !check_vv_unique(&version_vector) {
        return Decoded::Error;
    }
    let m_len = match rd_u16(buf, p4) {
        Decoded::Done(a, _) => a,
        Decoded::Incomplete(n) => {
            return Decoded::Incomplete(n);
        },
        Decoded::Error => {
            return Decoded::Error;
        },
    };
    match rd_members(buf, p4 + 2, m_len) {
        Decoded::Done(other_members, p6) => Decoded::Done(
            ClusterState { actor_id, actor_port, version_vector, other_members },
            p6,
        ),
        Decoded::Incomplete(n) => Decoded::Incomplete(n),
        Decoded::Error => Decoded::Error,
    }
}


/// The `ClientAuth` frame from its tag on: three strings.
pub open spec fn sp_auth(b: Seq<u8>) -> SpecDec<MsgView> {
    if b.len() < 1 {
        SpecDec::Incomplete(1)
    } else if b[0] != headers::CLIENT_AUTH {
        SpecDec::Error
    } else {
        match sp_str(b, 1) {
            SpecDec::Done(namespace, p1) => match sp_str(b, p1) {
                SpecDec::Done(username, p2) => match sp_str(b, p2) {
                    SpecDec::Done(password, p3) => SpecDec::Done(
                        MsgView::ClientAuth { namespace, username, password },
                        p3,
                    ),
                    SpecDec::Incomplete(n) => SpecDec::Incomplete(n),
                    SpecDec::Error => SpecDec::Error,
                },
                SpecDec::Incomplete(n) => SpecDec::Incomplete(n),
                SpecDec::Error => SpecDec::Error,
            },
            SpecDec::Incomplete(n) => SpecDec::Incomplete(n),
            SpecDec::Error => SpecDec::Error,
        }
    }
}

/// The `ProduceEvent` header from its tag on: namespace, parent id,
/// `op_id`, payload length. The payload itself is not consumed; the
/// declared length survives only as the capacity of the empty payload
/// buffer handed back.
pub open spec fn sp_produce(b: Seq<u8>) -> SpecDec<MsgView> {
    if b.len() < 1 {
        SpecDec::Incomplete(1)
    } else if b[0] != headers::PRODUCE_EVENT {
        SpecDec::Error
    } else {
        match sp_str(b, 1) {
            SpecDec::Done(namespace, p1) => match sp_opt_id(b, p1) {
                SpecDec::Done(parent_id, p2) => match sp_u32(b, p2) {
                    SpecDec::Done(op_id, p3) => match sp_u32(b, p3) {
                        SpecDec::Done(_data_len, p4) => SpecDec::Done(
                            MsgView::ProduceEvent(
                                ProduceView { op_id, namespace, parent_id, data: Seq::empty() },
                            ),
                            p4,
                        ),
                        SpecDec::Incomplete(n) => SpecDec::Incomplete(n),
                        SpecDec::Error => SpecDec::Error,
                    },
                    SpecDec::Incomplete(n) => SpecDec::Incomplete(n),
                    SpecDec::Error => SpecDec::Error,
                },
                SpecDec::Incomplete(n) => SpecDec::Incomplete(n),
                SpecDec::Error => SpecDec::Error,
            },
            SpecDec::Incomplete(n) => SpecDec::Incomplete(n),
            SpecDec::Error => SpecDec::Error,
        }
    }
}

/// The `ReceiveEvent` frame from its tag on: a non-zero id, parent id,
/// timestamp, namespace, then the counted payload itself. A zero primary
/// counter is a framing error. Unlike `ProduceEvent`, whose payload the
/// caller streams separately, a `ReceiveEvent` deliberately decodes to a
/// complete event: the round-trip law and the delivered-event frames
/// need the payload in the message, and a caller that must stream a
/// large payload can stop at the header's `Incomplete` hint, which
/// already accounts for the declared payload length.
pub open spec fn sp_receive(b: Seq<u8>) -> SpecDec<MsgView> {
    if b.len() < 1 {
        SpecDec::Incomplete(1)
    } else if b[0] != headers::RECEIVE_EVENT {
        SpecDec::Error
    } else {
        match sp_nonzero_id(b, 1) {
            SpecDec::Done(id, p1) => match sp_opt_id(b, p1) {
                SpecDec::Done(parent_id, p2) => match sp_u64(b, p2) {
                    SpecDec::Done(timestamp, p3) => match sp_str(b, p3) {
                        SpecDec::Done(namespace, p4) => match sp_u32(b, p4) {
                            SpecDec::Done(data_len, p5) => {
                                if p5 + data_len > b.len() {
                                    SpecDec::Incomplete(p5 + data_len)
                                } else {
                                    SpecDec::Done(
                                        MsgView::ReceiveEvent(
                                            EventView {
                                                id,
                                                timestamp,
                                                parent_id,
                                                namespace,
                                                data: b.subrange(p5, p5 + data_len),
                                            },
                                        ),
                                        p5 + data_len,
                                    )
                                }
                            },
                            SpecDec::Incomplete(n) => SpecDec::Incomplete(n),
                            SpecDec::Error => SpecDec::Error,
                        },
                        SpecDec::Incomplete(n) => SpecDec::Incomplete(n),
                        SpecDec::Error => SpecDec::Error,
                    },
                    SpecDec::Incomplete(n) => SpecDec::Incomplete(n),
                    SpecDec::Error => SpecDec::Error,
                },
                SpecDec::Incomplete(n) => SpecDec::Incomplete(n),
                SpecDec::Error => SpecDec::Error,
            },
            SpecDec::Incomplete(n) => SpecDec::Incomplete(n),
            SpecDec::Error => SpecDec::Error,
        }
    }
}

/// Any frame: dispatch on the tag byte. An unknown tag, including the
/// reserved `CLUSTER_STATE`, is a framing error.
pub open spec fn sp_msg(b: Seq<u8>) -> SpecDec<MsgView> {
    if b.len() < 1 {
        SpecDec::Incomplete(1)
    } else {
        let tag = b[0];
        if tag == headers::CLIENT_AUTH {
            sp_auth(b)
        } else if tag == headers::PRODUCE_EVENT {
            sp_produce(b)
        } else if tag == headers::RECEIVE_EVENT {
            sp_receive(b)
        } else if tag == headers::UPDATE_MARKER {
            match sp_raw_id(b, 1) {
                SpecDec::Done(id, p) => SpecDec::Done(MsgView::UpdateMarker(id), p),
                SpecDec::Incomplete(n) => SpecDec::Incomplete(n),
                SpecDec::Error => SpecDec::Error,
            }
        } else if tag == headers::START_CONSUMING {
            match sp_u32(b, 1) {
                SpecDec::Done(op_id, p1) => match sp_str(b, p1) {
                    SpecDec::Done(namespace, p2) => match sp_u64(b, p2) {
                        SpecDec::Done(max_events, p3) => SpecDec::Done(
                            MsgView::StartConsuming(
                                ConsumerStartView { op_id, max_events, namespace },
                            ),
                            p3,
                        ),
                        SpecDec::Incomplete(n) => SpecDec::Incomplete(n),
                        SpecDec::Error => SpecDec::Error,
                    },
                    SpecDec::Incomplete(n) => SpecDec::Incomplete(n),
                    SpecDec::Error => SpecDec::Error,
                },
                SpecDec::Incomplete(n) => SpecDec::Incomplete(n),
                SpecDec::Error => SpecDec::Error,
            }
        } else if tag == headers::AWAITING_EVENTS {
            SpecDec::Done(MsgView::AwaitingEvents, 1)
        } else if tag == headers::PEER_ANNOUNCE {
            match sp_cluster_state(b, 1) {
                SpecDec::Done(cs, p) => SpecDec::Done(MsgView::PeerAnnounce(cs), p),
                SpecDec::Incomplete(n) => SpecDec::Incomplete(n),
                SpecDec::Error => SpecDec::Error,
            }
        } else if tag == headers::PEER_UPDATE {
            match sp_cluster_state(b, 1) {
                SpecDec::Done(cs, p) => SpecDec::Done(MsgView::PeerUpdate(cs), p),
                SpecDec::Incomplete(n) => SpecDec::Incomplete(n),
                SpecDec::Error => SpecDec::Error,
            }
        } else if tag == headers::ACK_HEADER {
            match sp_u32(b, 1) {
                SpecDec::Done(op_id, p1) => match sp_raw_id(b, p1) {
                    SpecDec::Done(event_id, p2) => SpecDec::Done(
                        MsgView::AckEvent(AckView { op_id, event_id }),
                        p2,
                    ),
                    SpecDec::Incomplete(n) => SpecDec::Incomplete(n),
                    SpecDec::Error => SpecDec::Error,
                },
                SpecDec::Incomplete(n) => SpecDec::Incomplete(n),
                SpecDec::Error => SpecDec::Error,
            }
        } else if tag == headers::ERROR_HEADER {
            match sp_u32(b, 1) {
                SpecDec::Done(op_id, p1) => match sp_u8(b, p1) {
                    SpecDec::Done(kb, p2) => if !is_kind_byte(kb) {
                        SpecDec::Error
                    } else {
                        match sp_str(b, p2) {
                            SpecDec::Done(description, p3) => SpecDec::Done(
                                MsgView::Error(
                                    ErrorView { op_id, kind: kind_of_byte(kb), description },
                                ),
                                p3,
                            ),
                            SpecDec::Incomplete(n) => SpecDec::Incomplete(n),
                            SpecDec::Error => SpecDec::Error,
                        }
                    },
                    SpecDec::Incomplete(n) => SpecDec::Incomplete(n),
                    SpecDec::Error => SpecDec::Error,
                },
                SpecDec::Incomplete(n) => SpecDec::Incomplete(n),
                SpecDec::Error => SpecDec::Error,
            }
        } else if tag == headers::SET_BATCH_SIZE {
            match sp_u32(b, 1) {
                SpecDec::Done(size, p) => SpecDec::Done(MsgView::SetBatchSize(size), p),
                SpecDec::Incomplete(n) => SpecDec::Incomplete(n),
                SpecDec::Error => SpecDec::Error,
            }
        } else if tag == headers::NEXT_BATCH {
            SpecDec::Done(MsgView::NextBatch, 1)
        } else if tag == headers::END_OF_BATCH {
            SpecDec::Done(MsgView::EndOfBatch, 1)
        } else if tag == headers::STOP_CONSUMING {
            SpecDec::Done(MsgView::StopConsuming, 1)
        } else if tag == headers::CURSOR_CREATED {
            match sp_u32(b, 1) {
                SpecDec::Done(op_id, p1) => match sp_u32(b, p1) {
                    SpecDec::Done(batch_size, p2) => SpecDec::Done(
                        MsgView::CursorCreated(CursorInfoView { op_id, batch_size }),
                        p2,
                    ),
                    SpecDec::Incomplete(n) => SpecDec::Incomplete(n),
                    SpecDec::Error => SpecDec::Error,
                },
                SpecDec::Incomplete(n) => SpecDec::Incomplete(n),
                SpecDec::Error => SpecDec::Error,
            }
        } else {
            SpecDec::Error
        }
    }
}

/// Parses a `ClientAuth` frame; any other tag is an error. The three
/// strings are namespace, username, password.
pub fn parse_auth(buf: &[u8]) -> (r: Decoded<ProtocolMessage>)
    ensures
        r.reports(sp_auth(buf@), |m: ProtocolMessage| m@),
{
    if buf.len() < 1 {
        return Decoded::Incomplete(1);
    }
    if buf[0] != headers::CLIENT_AUTH {
        return Decoded::Error;
    }
    let (namespace, p1) = match rd_str(buf, 1) {
        Decoded::Done(s, q) => (s, q),
        Decoded::Incomplete(n) => {
            return Decoded::Incomplete(n);
        },
        Decoded::Error => {
            return Decoded::Error;
        },
    };
    let (username, p2) = match rd_str(buf, p1) {
        Decoded::Done(s, q) => (s, q),
        Decoded::Incomplete(n) => {
            return Decoded::Incomplete(n);
        },
        Decoded::Error => {
            return Decoded::Error;
        },
    };
    match rd_str(buf, p2) {
        Decoded::Done(password, p3) => Decoded::Done(
            ProtocolMessage::ClientAuth { namespace, username, password },
            p3,
        ),
        Decoded::Incomplete(n) => Decoded::Incomplete(n),
        Decoded::Error => Decoded::Error,
    }
}

/// Parses a `ProduceEvent` header; any other tag is an error. The
/// payload buffer comes back empty with capacity for the declared
/// length; the caller streams the payload into it.
pub fn parse_new_producer_event(buf: &[u8]) -> (r: Decoded<ProtocolMessage>)
    ensures
        r.reports(sp_produce(buf@), |m: ProtocolMessage| m@),
{
    if buf.len() < 1 {
        return Decoded::Incomplete(1);
    }
    if buf[0] != headers::PRODUCE_EVENT {
        return Decoded::Error;
    }
    let (namespace, p1) = match rd_str(buf, 1) {
        Decoded::Done(s, q) => (s, q),
        Decoded::Incomplete(n) => {
            return Decoded::Incomplete(n);
        },
        Decoded::Error => {
            return Decoded::Error;
        },
    };
    let (parent_id, p2) = match rd_opt_id(buf, p1) {
        Decoded::Done(v, q) => (v, q),
        Decoded::Incomplete(n) => {
            return Decoded::Incomplete(n);
        },
        Decoded::Error => {
            return Decoded::Error;
        },
    };
    let (op_id, p3) = match rd_u32(buf, p2) {
        Decoded::Done(v, q) => (v, q),
        Decoded::Incomplete(n) => {
            return Decoded::Incomplete(n);
        },
        Decoded::Error => {
            return Decoded::Error;
        },
    };
    match rd_u32(buf, p3) {
        Decoded::Done(data_len, p4) => Decoded::Done(
            ProtocolMessage::ProduceEvent(
                ProduceEvent {
                    op_id,
                    namespace,
                    parent_id,
                    data: Vec::with_capacity(data_len as usize),
                },
            ),
            p4,
        ),
        Decoded::Incomplete(n) => Decoded::Incomplete(n),
        Decoded::Error => Decoded::Error,
    }
}

fn parse_receive_event(buf: &[u8]) -> (r: Decoded<ProtocolMessage>)
    ensures
        r.reports(sp_receive(buf@), |m: ProtocolMessage| m@),
{
    if buf.len() < 1 {
        return Decoded::Incomplete(1);
    }
    if buf[0] != headers::RECEIVE_EVENT {
        return Decoded::Error;
    }
    let (id, p1) = match rd_nonzero_id(buf, 1) {
        Decoded::Done(v, q) => (v, q),
        Decoded::Incomplete(n) => {
            return Decoded::Incomplete(n);
        },
        Decoded::Error => {
            return Decoded::Error;
        },
    };
    let (parent_id, p2) = match rd_opt_id(buf, p1) {
        Decoded::Done(v, q) => (v, q),
        Decoded::Incomplete(n) => {
            return Decoded::Incomplete(n);
        },
        Decoded::Error => {
            return Decoded::Error;
        },
    };
    let (ts, p3) = match rd_u64(buf, p2) {
        Decoded::Done(v, q) => (v, q),
        Decoded::Incomplete(n) => {
            return Decoded::Incomplete(n);
        },
        Decoded::Error => {
            return Decoded::Error;
        },
    };
    let (namespace, p4) = match rd_str(buf, p3) {
        Decoded::Done(v, q) => (v, q),
        Decoded::Incomplete(n) => {
            return Decoded::Incomplete(n);
        },
        Decoded::Error => {
            return Decoded::Error;
        },
    };
    let (data_len32, p5) = match rd_u32(buf, p4) {
        Decoded::Done(v, q) => (v, q),
        Decoded::Incomplete(n) => {
            return Decoded::Incomplete(n);
        },
        Decoded::Error => {
            return Decoded::Error;
        },
    };
    let data_len = data_len32 as usize;
    if buf.len() - p5 < data_len {
        return Decoded::Incomplete(sat_add(p5, data_len32 as u64));
    }
    let data = vstd::slice::slice_to_vec(vstd::slice::slice_subrange(buf, p5, p5 + data_len));
    let event = OwnedFloEvent {
        id,
        timestamp: Timestamp { millis: ts },
        parent_id,
        namespace,
        data,
    };
    Decoded::Done(ProtocolMessage::ReceiveEvent(RecvEvent::Owned(event)), p5 + data_len)
}

/// Parses an event id field alone: ten bytes, where a zero counter
/// denotes "none".
pub fn parse_event_id(buf: &[u8]) -> (r: Decoded<Option<FloEventId>>)
    ensures
        r.reports(sp_opt_id(buf@, 0), |x: Option<FloEventId>| x),
{
    rd_opt_id(buf, 0)
}

/// Parses a length-prefixed string alone.
pub fn parse_str(buf: &[u8]) -> (r: Decoded<String>)
    ensures
        r.reports(sp_str(buf@, 0), |x: String| x@),
{
    rd_str(buf, 0)
}

/// Parses the first complete frame in `buf`: the message and the count
/// of bytes it occupied, or "incomplete" with a lower bound on the
/// frame's length, or a framing error (unknown tag, invalid UTF-8, a
/// zero id where one is forbidden, a duplicated version-vector actor).
pub fn parse_any(buf: &[u8]) -> (r: Decoded<ProtocolMessage>)
    ensures
        r.reports(sp_msg(buf@), |m: ProtocolMessage| m@),
{
    if buf.len() < 1 {
        return Decoded::Incomplete(1);
    }
    let tag = buf[0];
    if tag == headers::CLIENT_AUTH {
        parse_auth(buf)
    } else if tag == headers::PRODUCE_EVENT {
        parse_new_producer_event(buf)
    } else if tag == headers::RECEIVE_EVENT {
        parse_receive_event(buf)
    } else if tag == headers::UPDATE_MARKER {
        match rd_raw_id(buf, 1) {
            Decoded::Done(id, p) => Decoded::Done(ProtocolMessage::UpdateMarker(id), p),
            Decoded::Incomplete(n) => Decoded::Incomplete(n),
            Decoded::Error => Decoded::Error,
        }
    } else if tag == headers::START_CONSUMING {
        let (op_id, p1) = match rd_u32(buf, 1) {
            Decoded::Done(v, q) => (v, q),
            Decoded::Incomplete(n) => {
                return Decoded::Incomplete(n);
            },
            Decoded::Error => {
                return Decoded::Error;
            },
        };
        let (namespace, p2) = match rd_str(buf, p1) {
            Decoded::Done(v, q) => (v, q),
            Decoded::Incomplete(n) => {
                return Decoded::Incomplete(n);
            },
            Decoded::Error => {
                return Decoded::Error;
            },
        };
        match rd_u64(buf, p2) {
            Decoded::Done(max_events, p3) => Decoded::Done(
                ProtocolMessage::StartConsuming(ConsumerStart { op_id, max_events, namespace }),
                p3,
            ),
            Decoded::Incomplete(n) => Decoded::Incomplete(n),
            Decoded::Error => Decoded::Error,
        }
    } else if tag == headers::AWAITING_EVENTS {
        Decoded::Done(ProtocolMessage::AwaitingEvents, 1)
    } else if tag == headers::PEER_ANNOUNCE {
        match rd_cluster_state(buf, 1) {
            Decoded::Done(cs, p) => Decoded::Done(ProtocolMessage::PeerAnnounce(cs), p),
            Decoded::Incomplete(n) => Decoded::Incomplete(n),
            Decoded::Error => Decoded::Error,
        }
    } else if tag == headers::PEER_UPDATE {
        match rd_cluster_state(buf, 1) {
            Decoded::Done(cs, p) => Decoded::Done(ProtocolMessage::PeerUpdate(cs), p),
            Decoded::Incomplete(n) => Decoded::Incomplete(n),
            Decoded::Error => Decoded::Error,
        }
    } else if tag == headers::ACK_HEADER {
        let (op_id, p1) = match rd_u32(buf, 1) {
            Decoded::Done(v, q) => (v, q),
            Decoded::Incomplete(n) => {
                return Decoded::Incomplete(n);
            },
            Decoded::Error => {
                return Decoded::Error;
            },
        };
        match rd_raw_id(buf, p1) {
            Decoded::Done(event_id, p2) => Decoded::Done(
                ProtocolMessage::AckEvent(EventAck { op_id, event_id }),
                p2,
            ),
            Decoded::Incomplete(n) => Decoded::Incomplete(n),
            Decoded::Error => Decoded::Error,
        }
    } else if tag == headers::ERROR_HEADER {
        let (op_id, p1) = match rd_u32(buf, 1) {
            Decoded::Done(v, q) => (v, q),
            Decoded::Incomplete(n) => {
                return Decoded::Incomplete(n);
            },
            Decoded::Error => {
                return Decoded::Error;
            },
        };
        let (kb, p2) = match rd_u8(buf, p1) {
            Decoded::Done(v, q) => (v, q),
            Decoded::Incomplete(n) => {
                return Decoded::Incomplete(n);
            },
            Decoded::Error => {
                return Decoded::Error;
            },
        };
        let kind = match crate::wire::ErrorKind::from_u8(kb) {
            Ok(k) => k,
            Err(_) => {
                return Decoded::Error;
            },
        };
        match rd_str(buf, p2) {
            Decoded::Done(description, p3) => Decoded::Done(
                ProtocolMessage::Error(ErrorMessage { op_id, kind, description }),
                p3,
            ),
            Decoded::Incomplete(n) => Decoded::Incomplete(n),
            Decoded::Error => Decoded::Error,
        }
    } else if tag == headers::SET_BATCH_SIZE {
        match rd_u32(buf, 1) {
            Decoded::Done(size, p) => Decoded::Done(ProtocolMessage::SetBatchSize(size), p),
            Decoded::Incomplete(n) => Decoded::Incomplete(n),
            Decoded::Error => Decoded::Error,
        }
    } else if tag == headers::NEXT_BATCH {
        Decoded::Done(ProtocolMessage::NextBatch, 1)
    } else if tag == headers::END_OF_BATCH {
        Decoded::Done(ProtocolMessage::EndOfBatch, 1)
    } else if tag == headers::STOP_CONSUMING {
        Decoded::Done(ProtocolMessage::StopConsuming, 1)
    } else if tag == headers::CURSOR_CREATED {
        let (op_id, p1) = match rd_u32(buf, 1) {
            Decoded::Done(v, q) => (v, q),
            Decoded::Incomplete(n) => {
                return Decoded::Incomplete(n);
            },
            Decoded::Error => {
                return Decoded::Error;
            },
        };
        match rd_u32(buf, p1) {
            Decoded::Done(batch_size, p2) => Decoded::Done(
                ProtocolMessage::CursorCreated(CursorInfo { op_id, batch_size }),
                p2,
            ),
            Decoded::Incomplete(n) => Decoded::Incomplete(n),
            Decoded::Error => Decoded::Error,
        }
    } else {
        Decoded::Error
    }
}

} // verus!
