//! The decoder held to the encoder: parsing an encoded frame yields the
//! message back and consumes exactly the frame, whatever follows it; and
//! parsing any strict prefix of a frame reports "incomplete" with a
//! sound lower bound. These are the two laws every wire format owes its
//! callers.

use vstd::prelude::*;
use vstd::utf8::{encode_utf8, encode_utf8_decode_utf8, encode_utf8_valid_utf8};
use crate::event::FloEventId;
use crate::headers;
use crate::parse::{
    sp_auth, sp_cluster_state, sp_member, sp_members, sp_msg, sp_nonzero_id, sp_opt_id,
    sp_produce, sp_raw_id, sp_receive, sp_str, sp_u16, sp_u32, sp_u64, sp_u8, sp_vv_entries,
    SpecDec,
};
use crate::ser::{
    be16, be16_val, be32, be64, be64_val, bool_byte, enc_str, lemma_be16_roundtrip,
    lemma_be32_roundtrip, lemma_be64_roundtrip, str_fits,
};
use crate::wire::{
    cluster_state_wf, decoded_form, enc_cluster_state, enc_frame, enc_id, enc_member, enc_members,
    enc_msg, enc_opt_id, enc_vv, wire_wf, ClusterStateView, MemberView, MsgView,
};

verus! {

/// A slice of a known chunk of `b` is the matching slice of the chunk.
proof fn lemma_sub_sub(b: Seq<u8>, pos: int, c: Seq<u8>, lo: int, hi: int)
    requires
        0 <= pos,
        pos + c.len() <= b.len(),
        b.subrange(pos, pos + c.len()) == c,
        0 <= lo <= hi <= c.len(),
    ensures
        b.subrange(pos + lo, pos + hi) == c.subrange(lo, hi),
{
    assert forall|i: int| 0 <= i < hi - lo implies b.subrange(pos + lo, pos + hi)[i] == c.subrange(
        lo,
        hi,
    )[i] by {
        assert(c[lo + i] == b.subrange(pos, pos + c.len())[lo + i]);
    }
    assert(b.subrange(pos + lo, pos + hi) =~= c.subrange(lo, hi));
}

/// One byte of a known chunk of `b`.
proof fn lemma_sub_index(b: Seq<u8>, pos: int, c: Seq<u8>, i: int)
    requires
        0 <= pos,
        pos + c.len() <= b.len(),
        b.subrange(pos, pos + c.len()) == c,
        0 <= i < c.len(),
    ensures
        b[pos + i] == c[i],
{
    assert(c[i] == b.subrange(pos, pos + c.len())[i]);
}

proof fn lemma_sp_u16_done(b: Seq<u8>, pos: int, v: u16)
    requires
        0 <= pos,
        pos + 2 <= b.len(),
        b.subrange(pos, pos + 2) == be16(v),
    ensures
        sp_u16(b, pos) == SpecDec::Done(v, pos + 2),
{
    lemma_sub_index(b, pos, be16(v), 0);
    lemma_sub_index(b, pos, be16(v), 1);
    lemma_be16_roundtrip(v);
}

proof fn lemma_sp_u32_done(b: Seq<u8>, pos: int, v: u32)
    requires
        0 <= pos,
        pos + 4 <= b.len(),
        b.subrange(pos, pos + 4) == be32(v),
    ensures
        sp_u32(b, pos) == SpecDec::Done(v, pos + 4),
{
    lemma_sub_index(b, pos, be32(v), 0);
    lemma_sub_index(b, pos, be32(v), 1);
    lemma_sub_index(b, pos, be32(v), 2);
    lemma_sub_index(b, pos, be32(v), 3);
    lemma_be32_roundtrip(v);
}

proof fn lemma_sp_u64_done(b: Seq<u8>, pos: int, v: u64)
    requires
        0 <= pos,
        pos + 8 <= b.len(),
        b.subrange(pos, pos + 8) == be64(v),
    ensures
        sp_u64(b, pos) == SpecDec::Done(v, pos + 8),
{
    lemma_sub_index(b, pos, be64(v), 0);
    lemma_sub_index(b, pos, be64(v), 1);
    lemma_sub_index(b, pos, be64(v), 2);
    lemma_sub_index(b, pos, be64(v), 3);
    lemma_sub_index(b, pos, be64(v), 4);
    lemma_sub_index(b, pos, be64(v), 5);
    lemma_sub_index(b, pos, be64(v), 6);
    lemma_sub_index(b, pos, be64(v), 7);
    lemma_be64_roundtrip(v);
}

proof fn lemma_sp_str_done(b: Seq<u8>, pos: int, s: Seq<char>)
    requires
        0 <= pos,
        str_fits(s),
        pos + enc_str(s).len() <= b.len(),
        b.subrange(pos, pos + enc_str(s).len()) == enc_str(s),
    ensures
        sp_str(b, pos) == SpecDec::Done(s, pos + enc_str(s).len()),
{
    let u = encode_utf8(s);
    let n = u.len() as u16;
    let c = enc_str(s);
    assert(c.len() == 2 + u.len());
    lemma_sub_sub(b, pos, c, 0, 2);
    assert(c.subrange(0, 2) =~= be16(n));
    lemma_sp_u16_done(b, pos, n);
    lemma_sub_sub(b, pos, c, 2, c.len() as int);
    assert(c.subrange(2, c.len() as int) =~= u);
    encode_utf8_valid_utf8(s);
    encode_utf8_decode_utf8(s);
}

proof fn lemma_sp_opt_id_done(b: Seq<u8>, pos: int, p: Option<FloEventId>)
    requires
        0 <= pos,
        pos + 10 <= b.len(),
        b.subrange(pos, pos + 10) == enc_opt_id(p),
        p matches Some(id) ==> id.event_counter > 0,
    ensures
        sp_opt_id(b, pos) == SpecDec::Done(p, pos + 10),
{
    let c = enc_opt_id(p);
    let counter: u64 = match p {
        Some(id) => id.event_counter,
        None => 0,
    };
    let actor: u16 = match p {
        Some(id) => id.actor,
        None => 0,
    };
    assert(c == be64(counter) + be16(actor));
    assert(c.len() == 10);
    lemma_sub_sub(b, pos, c, 0, 8);
    assert(c.subrange(0, 8) =~= be64(counter));
    lemma_sub_sub(b, pos, c, 8, 10);
    assert(c.subrange(8, 10) =~= be16(actor));
    lemma_sp_u64_done(b, pos, counter);
    lemma_sp_u16_done(b, pos + 8, actor);
}

proof fn lemma_sp_nonzero_id_done(b: Seq<u8>, pos: int, id: FloEventId)
    requires
        0 <= pos,
        pos + 10 <= b.len(),
        b.subrange(pos, pos + 10) == enc_id(id),
        id.event_counter > 0,
    ensures
        sp_nonzero_id(b, pos) == SpecDec::Done(id, pos + 10),
{
    assert(enc_opt_id(Some(id)) == enc_id(id));
    lemma_sp_opt_id_done(b, pos, Some(id));
}

proof fn lemma_sp_raw_id_done(b: Seq<u8>, pos: int, id: FloEventId)
    requires
        0 <= pos,
        pos + 10 <= b.len(),
        b.subrange(pos, pos + 10) == enc_id(id),
    ensures
        sp_raw_id(b, pos) == SpecDec::Done(id, pos + 10),
{
    let c = enc_id(id);
    assert(c.len() == 10);
    lemma_sub_sub(b, pos, c, 0, 8);
    assert(c.subrange(0, 8) =~= be64(id.event_counter));
    lemma_sub_sub(b, pos, c, 8, 10);
    assert(c.subrange(8, 10) =~= be16(id.actor));
    lemma_sp_u64_done(b, pos, id.event_counter);
    lemma_sp_u16_done(b, pos + 8, id.actor);
}

/// A version vector body occupies ten bytes per entry.
pub proof fn lemma_enc_vv_len(ids: Seq<FloEventId>)
    ensures
        enc_vv(ids).len() == 10 * ids.len(),
    decreases ids.len(),
{
    if ids.len() > 0 {
        lemma_enc_vv_len(ids.drop_first());
    }
}

proof fn lemma_sp_vv_done(b: Seq<u8>, pos: int, ids: Seq<FloEventId>)
    requires
        0 <= pos,
        pos + 10 * ids.len() <= b.len(),
        b.subrange(pos, pos + 10 * ids.len()) == enc_vv(ids),
        forall|i: int| 0 <= i < ids.len() ==> #[trigger] ids[i].event_counter > 0,
    ensures
        sp_vv_entries(b, pos, ids.len() as int) == SpecDec::Done(ids, pos + 10 * ids.len()),
    decreases ids.len(),
{
    lemma_enc_vv_len(ids);
    let c = enc_vv(ids);
    if ids.len() == 0 {
        assert(sp_vv_entries(b, pos, 0) == SpecDec::Done(Seq::<FloEventId>::empty(), pos));
        assert(ids =~= Seq::<FloEventId>::empty());
    } else {
        let rest = ids.drop_first();
        lemma_enc_vv_len(rest);
        assert(c == enc_id(ids[0]) + enc_vv(rest));
        lemma_sub_sub(b, pos, c, 0, 10);
        assert(c.subrange(0, 10) =~= enc_id(ids[0]));
        lemma_sp_nonzero_id_done(b, pos, ids[0]);
        lemma_sub_sub(b, pos, c, 10, c.len() as int);
        assert(c.subrange(10, c.len() as int) =~= enc_vv(rest));
        lemma_sp_vv_done(b, pos + 10, rest);
        assert(seq![ids[0]] + rest =~= ids);
    }
}

proof fn lemma_sp_member_done(b: Seq<u8>, pos: int, m: MemberView)
    requires
        0 <= pos,
        str_fits(m.addr),
        pos + enc_member(m).len() <= b.len(),
        b.subrange(pos, pos + enc_member(m).len()) == enc_member(m),
    ensures
        sp_member(b, pos) == SpecDec::Done(m, pos + enc_member(m).len()),
{
    let es_len = enc_str(m.addr).len() as int;
    let es = enc_str(m.addr);
    let c = enc_member(m);
    assert(c.len() == 2 + es_len + 1);
    lemma_sub_sub(b, pos, c, 0, 2);
    assert(c.subrange(0, 2) =~= be16(m.actor_id));
    lemma_sp_u16_done(b, pos, m.actor_id);
    lemma_sub_sub(b, pos, c, 2, 2 + es_len);
    assert(c.subrange(2, 2 + es_len) =~= es);
    lemma_sp_str_done(b, pos + 2, m.addr);
    let p2 = pos + 2 + es_len;
    lemma_sub_index(b, pos, c, 2 + es_len);
    assert(c[2 + es_len] == bool_byte(m.connected));
    assert((bool_byte(m.connected) == 1) == m.connected);
    assert(MemberView {
        actor_id: m.actor_id,
        addr: m.addr,
        connected: (bool_byte(m.connected) == 1),
    } == m);
}

proof fn lemma_sp_members_done(b: Seq<u8>, pos: int, ms: Seq<MemberView>)
    requires
        0 <= pos,
        pos + enc_members(ms).len() <= b.len(),
        b.subrange(pos, pos + enc_members(ms).len()) == enc_members(ms),
        forall|i: int| 0 <= i < ms.len() ==> str_fits(#[trigger] ms[i].addr),
    ensures
        sp_members(b, pos, ms.len() as int) == SpecDec::Done(ms, pos + enc_members(ms).len()),
    decreases ms.len(),
{
    let c = enc_members(ms);
    if ms.len() == 0 {
        assert(sp_members(b, pos, 0) == SpecDec::Done(Seq::<MemberView>::empty(), pos));
        assert(ms =~= Seq::<MemberView>::empty());
    } else {
        let rest = ms.drop_first();
        let e0 = enc_member(ms[0]);
        assert(c == e0 + enc_members(rest));
        lemma_sub_sub(b, pos, c, 0, e0.len() as int);
        assert(c.subrange(0, e0.len() as int) =~= e0);
        lemma_sp_member_done(b, pos, ms[0]);
        lemma_sub_sub(b, pos, c, e0.len() as int, c.len() as int);
        assert(c.subrange(e0.len() as int, c.len() as int) =~= enc_members(rest));
        lemma_sp_members_done(b, pos + e0.len(), rest);
        assert(seq![ms[0]] + rest =~= ms);
    }
}

proof fn lemma_sp_cluster_state_done(b: Seq<u8>, pos: int, cs: ClusterStateView, body: Seq<u8>)
    requires
        0 <= pos,
        cluster_state_wf(cs),
        body == be16(cs.actor_id) + be16(cs.actor_port) + be16(cs.version_vector.len() as u16)
            + enc_vv(cs.version_vector) + be16(cs.other_members.len() as u16) + enc_members(
            cs.other_members,
        ),
        pos + body.len() <= b.len(),
        b.subrange(pos, pos + body.len()) == body,
    ensures
        sp_cluster_state(b, pos) == SpecDec::Done(cs, pos + body.len()),
{
    let ids = cs.version_vector;
    let ms = cs.other_members;
    lemma_enc_vv_len(ids);
    let l_vv = 10 * ids.len() as int;
    let l_ms = enc_members(ms).len() as int;
    assert(body.len() == 8 + l_vv + l_ms);
    lemma_sub_sub(b, pos, body, 0, 2);
    assert(body.subrange(0, 2) =~= be16(cs.actor_id));
    lemma_sp_u16_done(b, pos, cs.actor_id);
    lemma_sub_sub(b, pos, body, 2, 4);
    assert(body.subrange(2, 4) =~= be16(cs.actor_port));
    lemma_sp_u16_done(b, pos + 2, cs.actor_port);
    lemma_sub_sub(b, pos, body, 4, 6);
    assert(body.subrange(4, 6) =~= be16(ids.len() as u16));
    lemma_sp_u16_done(b, pos + 4, ids.len() as u16);
    lemma_sub_sub(b, pos, body, 6, 6 + l_vv);
    assert(body.subrange(6, 6 + l_vv) =~= enc_vv(ids));
    lemma_sp_vv_done(b, pos + 6, ids);
    let p4 = pos + 6 + l_vv;
    lemma_sub_sub(b, pos, body, 6 + l_vv, 8 + l_vv);
    assert(body.subrange(6 + l_vv, 8 + l_vv) =~= be16(ms.len() as u16));
    lemma_sp_u16_done(b, p4, ms.len() as u16);
    lemma_sub_sub(b, pos, body, 8 + l_vv, 8 + l_vv + l_ms);
    assert(body.subrange(8 + l_vv, 8 + l_vv + l_ms) =~= enc_members(ms));
    lemma_sp_members_done(b, p4 + 2, ms);
    assert((ids.len() as u16) as int == ids.len() as int);
    assert((ms.len() as u16) as int == ms.len() as int);
}


proof fn lemma_rt_auth(ns: Seq<char>, us: Seq<char>, pw: Seq<char>, tail: Seq<u8>)
    requires
        str_fits(ns),
        str_fits(us),
        str_fits(pw),
    ensures
        ({
            let m = MsgView::ClientAuth { namespace: ns, username: us, password: pw };
            sp_msg(enc_frame(m) + tail) == SpecDec::Done(m, enc_frame(m).len() as int)
        }),
{
    let m = MsgView::ClientAuth { namespace: ns, username: us, password: pw };
    let e1 = enc_str(ns);
    let e2 = enc_str(us);
    let e3 = enc_str(pw);
    let frame = enc_frame(m);
    let b = frame + tail;
    assert(frame == seq![headers::CLIENT_AUTH] + e1 + e2 + e3);
    let o1: int = 1;
    let o2: int = o1 + e1.len();
    let o3: int = o2 + e2.len() as int;
    let o4: int = o3 + e3.len() as int;
    assert(b[0] == headers::CLIENT_AUTH);
    assert(b.subrange(o1, o2) =~= e1);
    lemma_sp_str_done(b, o1, ns);
    assert(b.subrange(o2, o3) =~= e2);
    lemma_sp_str_done(b, o2, us);
    assert(b.subrange(o3, o4) =~= e3);
    lemma_sp_str_done(b, o3, pw);
    assert(sp_msg(b) == sp_auth(b));
}

#[verifier::rlimit(100)]
proof fn lemma_produce_layout(m: MsgView, tail: Seq<u8>)
    requires
        wire_wf(m),
        m is ProduceEvent,
    ensures
        ({
            let p = m->ProduceEvent_0;
            let e1 = enc_str(p.namespace);
            let b = enc_frame(m) + tail;
            let o2 = 1 + e1.len() as int;
            &&& enc_opt_id(p.parent_id).len() == 10
            &&& enc_frame(m).len() == o2 + 18
            &&& b[0] == headers::PRODUCE_EVENT
            &&& b.subrange(1, o2) == e1
            &&& b.subrange(o2, o2 + 10) == enc_opt_id(p.parent_id)
            &&& b.subrange(o2 + 10, o2 + 14) == be32(p.op_id)
            &&& b.subrange(o2 + 14, o2 + 18) == be32(p.data.len() as u32)
        }),
{
    let p = m->ProduceEvent_0;
    let e1 = enc_str(p.namespace);
    let e2 = enc_opt_id(p.parent_id);
    let e3 = be32(p.op_id);
    let e4 = be32(p.data.len() as u32);
    let frame = enc_frame(m);
    let b = frame + tail;
    assert(frame == seq![headers::PRODUCE_EVENT] + e1 + e2 + e3 + e4);
    assert(e2.len() == 10) by {
        match p.parent_id {
            Some(id) => assert(e2 == enc_id(id)),
            None => assert(e2 == be64(0) + be16(0)),
        }
    }
    let o2 = 1 + e1.len() as int;
    assert(b.subrange(1, o2) =~= e1);
    assert(b.subrange(o2, o2 + 10) =~= e2);
    assert(b.subrange(o2 + 10, o2 + 14) =~= e3);
    assert(b.subrange(o2 + 14, o2 + 18) =~= e4);
}

proof fn lemma_rt_produce(m: MsgView, tail: Seq<u8>)
    requires
        wire_wf(m),
        m is ProduceEvent,
    ensures
        sp_msg(enc_frame(m) + tail) == SpecDec::Done(decoded_form(m), enc_frame(m).len() as int),
{
    let p = m->ProduceEvent_0;
    let e1 = enc_str(p.namespace);
    let b = enc_frame(m) + tail;
    let o2 = 1 + e1.len() as int;
    lemma_produce_layout(m, tail);
    lemma_sp_str_done(b, 1, p.namespace);
    lemma_sp_opt_id_done(b, o2, p.parent_id);
    lemma_sp_u32_done(b, o2 + 10, p.op_id);
    lemma_sp_u32_done(b, o2 + 14, p.data.len() as u32);
    assert(sp_msg(b) == sp_produce(b));
}

#[verifier::rlimit(100)]
proof fn lemma_receive_layout(m: MsgView, tail: Seq<u8>)
    requires
        wire_wf(m),
        m is ReceiveEvent,
    ensures
        ({
            let e = m->ReceiveEvent_0;
            let e4 = enc_str(e.namespace);
            let b = enc_frame(m) + tail;
            let o5 = 29 + e4.len() as int;
            &&& enc_opt_id(e.parent_id).len() == 10
            &&& enc_frame(m).len() == o5 + 4 + e.data.len()
            &&& b[0] == headers::RECEIVE_EVENT
            &&& b.subrange(1, 11) == enc_id(e.id)
            &&& b.subrange(11, 21) == enc_opt_id(e.parent_id)
            &&& b.subrange(21, 29) == be64(e.timestamp)
            &&& b.subrange(29, o5) == e4
            &&& b.subrange(o5, o5 + 4) == be32(e.data.len() as u32)
            &&& b.subrange(o5 + 4, o5 + 4 + e.data.len() as int) == e.data
        }),
{
    let e = m->ReceiveEvent_0;
    let e1 = enc_id(e.id);
    let e2 = enc_opt_id(e.parent_id);
    let e3 = be64(e.timestamp);
    let e4 = enc_str(e.namespace);
    let e5 = be32(e.data.len() as u32);
    let frame = enc_frame(m);
    let b = frame + tail;
    assert(frame == (seq![headers::RECEIVE_EVENT] + e1 + e2 + e3 + e4 + e5) + e.data);
    assert(e2.len() == 10) by {
        match e.parent_id {
            Some(id) => assert(e2 == enc_id(id)),
            None => assert(e2 == be64(0) + be16(0)),
        }
    }
    let o5 = 29 + e4.len() as int;
    assert(b.subrange(1, 11) =~= e1);
    assert(b.subrange(11, 21) =~= e2);
    assert(b.subrange(21, 29) =~= e3);
    assert(b.subrange(29, o5) =~= e4);
    assert(b.subrange(o5, o5 + 4) =~= e5);
    assert(b.subrange(o5 + 4, o5 + 4 + e.data.len() as int) =~= e.data);
}

proof fn lemma_rt_receive(m: MsgView, tail: Seq<u8>)
    requires
        wire_wf(m),
        m is ReceiveEvent,
    ensures
        sp_msg(enc_frame(m) + tail) == SpecDec::Done(m, enc_frame(m).len() as int),
{
    let e = m->ReceiveEvent_0;
    let e4 = enc_str(e.namespace);
    let b = enc_frame(m) + tail;
    let o5 = 29 + e4.len() as int;
    lemma_receive_layout(m, tail);
    lemma_sp_nonzero_id_done(b, 1, e.id);
    lemma_sp_opt_id_done(b, 11, e.parent_id);
    lemma_sp_u64_done(b, 21, e.timestamp);
    lemma_sp_str_done(b, 29, e.namespace);
    lemma_sp_u32_done(b, o5, e.data.len() as u32);
    assert((e.data.len() as u32) as int == e.data.len() as int);
    assert(sp_msg(b) == sp_receive(b));
}

proof fn lemma_rt_update(id: FloEventId, tail: Seq<u8>)
    ensures
        ({
            let m = MsgView::UpdateMarker(id);
            sp_msg(enc_frame(m) + tail) == SpecDec::Done(m, enc_frame(m).len() as int)
        }),
{
    let m = MsgView::UpdateMarker(id);
    let frame = enc_frame(m);
    let b = frame + tail;
    assert(frame == seq![headers::UPDATE_MARKER] + enc_id(id));
    assert(b[0] == headers::UPDATE_MARKER);
    assert(b.subrange(1, 11) =~= enc_id(id));
    lemma_sp_raw_id_done(b, 1, id);
}

proof fn lemma_rt_ack(m: MsgView, tail: Seq<u8>)
    requires
        m is AckEvent,
    ensures
        sp_msg(enc_frame(m) + tail) == SpecDec::Done(m, enc_frame(m).len() as int),
{
    let a = m->AckEvent_0;
    let frame = enc_frame(m);
    let b = frame + tail;
    assert(frame == seq![headers::ACK_HEADER] + be32(a.op_id) + enc_id(a.event_id));
    assert(b[0] == headers::ACK_HEADER);
    assert(b.subrange(1, 5) =~= be32(a.op_id));
    lemma_sp_u32_done(b, 1, a.op_id);
    assert(b.subrange(5, 15) =~= enc_id(a.event_id));
    lemma_sp_raw_id_done(b, 5, a.event_id);
}

#[verifier::rlimit(100)]
proof fn lemma_rt_start(m: MsgView, tail: Seq<u8>)
    requires
        wire_wf(m),
        m is StartConsuming,
    ensures
        sp_msg(enc_frame(m) + tail) == SpecDec::Done(m, enc_frame(m).len() as int),
{
    let c = m->StartConsuming_0;
    let e2 = enc_str(c.namespace);
    let frame = enc_frame(m);
    let b = frame + tail;
    assert(frame == seq![headers::START_CONSUMING] + be32(c.op_id) + e2 + be64(c.max_events));
    let o2: int = 5;
    let o3: int = o2 + e2.len() as int;
    let o4: int = o3 + 8;
    assert(b[0] == headers::START_CONSUMING);
    assert(b.subrange(1, 5) =~= be32(c.op_id));
    lemma_sp_u32_done(b, 1, c.op_id);
    assert(b.subrange(o2, o3) =~= e2);
    lemma_sp_str_done(b, o2, c.namespace);
    assert(b.subrange(o3, o4) =~= be64(c.max_events));
    lemma_sp_u64_done(b, o3, c.max_events);
}

proof fn lemma_rt_cursor(m: MsgView, tail: Seq<u8>)
    requires
        m is CursorCreated,
    ensures
        sp_msg(enc_frame(m) + tail) == SpecDec::Done(m, enc_frame(m).len() as int),
{
    let c = m->CursorCreated_0;
    let frame = enc_frame(m);
    let b = frame + tail;
    assert(frame == seq![headers::CURSOR_CREATED] + be32(c.op_id) + be32(c.batch_size));
    assert(b[0] == headers::CURSOR_CREATED);
    assert(b.subrange(1, 5) =~= be32(c.op_id));
    lemma_sp_u32_done(b, 1, c.op_id);
    assert(b.subrange(5, 9) =~= be32(c.batch_size));
    lemma_sp_u32_done(b, 5, c.batch_size);
}

proof fn lemma_rt_setbatch(n: u32, tail: Seq<u8>)
    ensures
        ({
            let m = MsgView::SetBatchSize(n);
            sp_msg(enc_frame(m) + tail) == SpecDec::Done(m, enc_frame(m).len() as int)
        }),
{
    let m = MsgView::SetBatchSize(n);
    let frame = enc_frame(m);
    let b = frame + tail;
    assert(frame == seq![headers::SET_BATCH_SIZE] + be32(n));
    assert(b[0] == headers::SET_BATCH_SIZE);
    assert(b.subrange(1, 5) =~= be32(n));
    lemma_sp_u32_done(b, 1, n);
}

proof fn lemma_rt_error(m: MsgView, tail: Seq<u8>)
    requires
        wire_wf(m),
        m is Error,
    ensures
        sp_msg(enc_frame(m) + tail) == SpecDec::Done(m, enc_frame(m).len() as int),
{
    let e = m->Error_0;
    let e3 = enc_str(e.description);
    let frame = enc_frame(m);
    let b = frame + tail;
    assert(frame == seq![headers::ERROR_HEADER] + be32(e.op_id) + seq![
        crate::wire::kind_byte(e.kind),
    ] + e3);
    let o3: int = 6;
    let o4: int = o3 + e3.len() as int;
    assert(b[0] == headers::ERROR_HEADER);
    assert(b.subrange(1, 5) =~= be32(e.op_id));
    lemma_sp_u32_done(b, 1, e.op_id);
    assert(b[5] == crate::wire::kind_byte(e.kind));
    assert(crate::wire::is_kind_byte(crate::wire::kind_byte(e.kind)));
    assert(crate::wire::kind_of_byte(crate::wire::kind_byte(e.kind)) == e.kind);
    assert(b.subrange(o3, o4) =~= e3);
    lemma_sp_str_done(b, o3, e.description);
}

#[verifier::rlimit(100)]
proof fn lemma_rt_peer(m: MsgView, tail: Seq<u8>)
    requires
        wire_wf(m),
        m is PeerAnnounce || m is PeerUpdate,
    ensures
        sp_msg(enc_frame(m) + tail) == SpecDec::Done(m, enc_frame(m).len() as int),
{
    let cs = if m is PeerAnnounce {
        m->PeerAnnounce_0
    } else {
        m->PeerUpdate_0
    };
    let tag = if m is PeerAnnounce {
        headers::PEER_ANNOUNCE
    } else {
        headers::PEER_UPDATE
    };
    let body = be16(cs.actor_id) + be16(cs.actor_port) + be16(cs.version_vector.len() as u16)
        + enc_vv(cs.version_vector) + be16(cs.other_members.len() as u16) + enc_members(
        cs.other_members,
    );
    let frame = enc_frame(m);
    let b = frame + tail;
    assert(frame == enc_cluster_state(tag, cs));
    assert(frame =~= seq![tag] + body);
    assert(b[0] == tag);
    assert(b.subrange(1, 1 + body.len() as int) =~= body);
    lemma_sp_cluster_state_done(b, 1, cs, body);
}

/// Round trip. Encoding any well-formed message and decoding the frame,
/// with any unrelated bytes following it, yields the message back (a
/// `ProduceEvent` with an empty payload buffer, since only its header is
/// framed) and consumes exactly the frame, leaving the following bytes
/// untouched.
pub proof fn lemma_roundtrip(m: MsgView, tail: Seq<u8>)
    requires
        wire_wf(m),
    ensures
        sp_msg(enc_frame(m) + tail) == SpecDec::Done(decoded_form(m), enc_frame(m).len() as int),
{
    let frame = enc_frame(m);
    let b = frame + tail;
    match m {
        MsgView::ProduceEvent(p) => {
            lemma_rt_produce(m, tail);
        },
        MsgView::ReceiveEvent(e) => {
            lemma_rt_receive(m, tail);
        },
        MsgView::AckEvent(a) => {
            lemma_rt_ack(m, tail);
        },
        MsgView::UpdateMarker(id) => {
            lemma_rt_update(id, tail);
        },
        MsgView::StartConsuming(c) => {
            lemma_rt_start(m, tail);
        },
        MsgView::CursorCreated(c) => {
            lemma_rt_cursor(m, tail);
        },
        MsgView::StopConsuming => {
            assert(frame == seq![headers::STOP_CONSUMING]);
            assert(b[0] == headers::STOP_CONSUMING);
        },
        MsgView::SetBatchSize(n) => {
            lemma_rt_setbatch(n, tail);
        },
        MsgView::NextBatch => {
            assert(frame == seq![headers::NEXT_BATCH]);
            assert(b[0] == headers::NEXT_BATCH);
        },
        MsgView::EndOfBatch => {
            assert(frame == seq![headers::END_OF_BATCH]);
            assert(b[0] == headers::END_OF_BATCH);
        },
        MsgView::AwaitingEvents => {
            assert(frame == seq![headers::AWAITING_EVENTS]);
            assert(b[0] == headers::AWAITING_EVENTS);
        },
        MsgView::PeerAnnounce(cs) => {
            lemma_rt_peer(m, tail);
        },
        MsgView::PeerUpdate(cs) => {
            lemma_rt_peer(m, tail);
        },
        MsgView::ClientAuth { namespace, username, password } => {
            lemma_rt_auth(namespace, username, password, tail);
        },
        MsgView::Error(e) => {
            lemma_rt_error(m, tail);
        },
    }
}


/// A `ReceiveEvent` frame whose primary id carries a zero counter is a
/// framing error: delivered events always satisfy `counter > 0`.
pub proof fn lemma_receive_zero_counter_error(b: Seq<u8>)
    requires
        b.len() >= 11,
        b[0] == headers::RECEIVE_EVENT,
        forall|i: int| 1 <= i < 9 ==> b[i] == 0,
    ensures
        sp_msg(b) == SpecDec::Error::<MsgView>,
{
    assert(sp_msg(b) == sp_receive(b));
    assert(be64_val(b[1], b[2], b[3], b[4], b[5], b[6], b[7], b[8]) == 0);
}

/// A string field whose bytes are not valid UTF-8 is a framing error.
/// Every string on the wire — namespaces, credentials, error
/// descriptions, member addresses — is read through `sp_str`, and the
/// error propagates to the whole frame.
pub proof fn lemma_str_invalid_utf8_error(b: Seq<u8>, pos: int, n: int)
    requires
        0 <= pos,
        pos + 2 <= b.len(),
        n == be16_val(b[pos], b[pos + 1]),
        pos + 2 + n <= b.len(),
        !vstd::utf8::valid_utf8(b.subrange(pos + 2, pos + 2 + n)),
    ensures
        sp_str(b, pos) == SpecDec::Error::<Seq<char>>,
{
}

/// A `ClientAuth` frame whose namespace bytes are not valid UTF-8 is an
/// error.
pub proof fn lemma_auth_invalid_utf8_error(b: Seq<u8>, n: int)
    requires
        b.len() >= 3,
        b[0] == headers::CLIENT_AUTH,
        n == be16_val(b[1], b[2]),
        3 + n <= b.len(),
        !vstd::utf8::valid_utf8(b.subrange(3, 3 + n)),
    ensures
        sp_msg(b) == SpecDec::Error::<MsgView>,
{
    lemma_str_invalid_utf8_error(b, 1, n);
    assert(sp_msg(b) == sp_auth(b));
}


/// One byte of `b` beyond `pos`, when `b` from `pos` on is a prefix of
/// chunk `c`.
proof fn lemma_prefix_index(b: Seq<u8>, pos: int, c: Seq<u8>, j: int)
    requires
        0 <= pos <= b.len(),
        b.len() <= pos + c.len(),
        b.subrange(pos, b.len() as int) == c.take(b.len() - pos),
        0 <= j < b.len() - pos,
    ensures
        b[pos + j] == c[j],
{
    assert(b.subrange(pos, b.len() as int)[j] == b[pos + j]);
    assert(c.take(b.len() - pos)[j] == c[j]);
    assert(b.subrange(pos, b.len() as int)[j] == c.take(b.len() - pos)[j]);
}

proof fn lemma_sp_str_prefix(b: Seq<u8>, pos: int, s: Seq<char>)
    requires
        0 <= pos <= b.len(),
        str_fits(s),
        b.len() < pos + enc_str(s).len(),
        b.subrange(pos, b.len() as int) == enc_str(s).take(b.len() - pos),
    ensures
        sp_str(b, pos) matches SpecDec::Incomplete(n) && b.len() < n <= pos + enc_str(s).len(),
{
    let c = enc_str(s);
    let u = encode_utf8(s);
    let n16 = u.len() as u16;
    assert(c.len() == 2 + u.len());
    if b.len() < pos + 2 {
    } else {
        assert(b.subrange(pos, pos + 2) =~= be16(n16)) by {
            lemma_prefix_index(b, pos, c, 0);
            lemma_prefix_index(b, pos, c, 1);
        }
        lemma_sp_u16_done(b, pos, n16);
        assert((n16 as int) == u.len() as int);
    }
}

#[verifier::rlimit(50)]
proof fn lemma_sp_vv_prefix(b: Seq<u8>, pos: int, ids: Seq<FloEventId>)
    requires
        0 <= pos <= b.len(),
        b.len() < pos + 10 * ids.len(),
        b.subrange(pos, b.len() as int) == enc_vv(ids).take(b.len() - pos),
        forall|i: int| 0 <= i < ids.len() ==> #[trigger] ids[i].event_counter > 0,
    ensures
        sp_vv_entries(b, pos, ids.len() as int) matches SpecDec::Incomplete(n) && b.len() < n <= pos
            + 10 * ids.len(),
    decreases ids.len(),
{
    lemma_enc_vv_len(ids);
    assert(ids.len() > 0);
    let c = enc_vv(ids);
    let rest = ids.drop_first();
    lemma_enc_vv_len(rest);
    assert(c == enc_id(ids[0]) + enc_vv(rest));
    if b.len() < pos + 10 {
        assert(sp_vv_entries(b, pos, ids.len() as int) == SpecDec::Incomplete::<Seq<FloEventId>>(
            pos + 10,
        ));
    } else {
        assert(b.subrange(pos, pos + 10) =~= enc_id(ids[0])) by {
            assert forall|k: int| 0 <= k < 10 implies b[pos + k] == c[k] by {
                lemma_prefix_index(b, pos, c, k);
            }
        }
        lemma_sp_nonzero_id_done(b, pos, ids[0]);
        assert(b.subrange(pos + 10, b.len() as int) =~= enc_vv(rest).take(b.len() - pos - 10)) by {
            assert forall|k: int| 0 <= k < b.len() - pos - 10 implies b[pos + 10 + k] == enc_vv(
                rest,
            )[k] by {
                lemma_prefix_index(b, pos, c, 10 + k);
            }
        }
        assert(forall|i: int| 0 <= i < rest.len() ==> #[trigger] rest[i].event_counter > 0) by {
            assert(forall|i: int| 0 <= i < rest.len() ==> rest[i] == ids[i + 1]);
        }
        lemma_sp_vv_prefix(b, pos + 10, rest);
    }
}

#[verifier::rlimit(50)]
proof fn lemma_sp_member_prefix(b: Seq<u8>, pos: int, m: MemberView)
    requires
        0 <= pos <= b.len(),
        str_fits(m.addr),
        b.len() < pos + enc_member(m).len(),
        b.subrange(pos, b.len() as int) == enc_member(m).take(b.len() - pos),
    ensures
        sp_member(b, pos) matches SpecDec::Incomplete(n) && b.len() < n <= pos + enc_member(
            m,
        ).len(),
{
    let c = enc_member(m);
    let es = enc_str(m.addr);
    let es_len = es.len() as int;
    assert(c.len() == 2 + es_len + 1);
    if b.len() < pos + 2 {
    } else {
        assert(b.subrange(pos, pos + 2) =~= be16(m.actor_id)) by {
            lemma_prefix_index(b, pos, c, 0);
            lemma_prefix_index(b, pos, c, 1);
        }
        lemma_sp_u16_done(b, pos, m.actor_id);
        if b.len() < pos + 2 + es_len {
            assert(b.subrange(pos + 2, b.len() as int) =~= es.take(b.len() - pos - 2)) by {
                assert forall|k: int| 0 <= k < b.len() - pos - 2 implies b[pos + 2 + k] == es[
                    k
                ] by {
                    lemma_prefix_index(b, pos, c, 2 + k);
                }
            }
            lemma_sp_str_prefix(b, pos + 2, m.addr);
        } else {
            assert(b.subrange(pos + 2, pos + 2 + es_len) =~= es) by {
                assert forall|k: int| 0 <= k < es_len implies b[pos + 2 + k] == es[k] by {
                    lemma_prefix_index(b, pos, c, 2 + k);
                }
            }
            lemma_sp_str_done(b, pos + 2, m.addr);
            assert(b.len() == pos + 2 + es_len);
            assert(sp_u8(b, pos + 2 + es_len) == SpecDec::Incomplete::<u8>(pos + 2 + es_len + 1));
        }
    }
}

#[verifier::rlimit(50)]
proof fn lemma_sp_members_prefix(b: Seq<u8>, pos: int, ms: Seq<MemberView>)
    requires
        0 <= pos <= b.len(),
        b.len() < pos + enc_members(ms).len(),
        b.subrange(pos, b.len() as int) == enc_members(ms).take(b.len() - pos),
        forall|i: int| 0 <= i < ms.len() ==> str_fits(#[trigger] ms[i].addr),
    ensures
        sp_members(b, pos, ms.len() as int) matches SpecDec::Incomplete(n) && b.len() < n <= pos
            + enc_members(ms).len(),
    decreases ms.len(),
{
    assert(ms.len() > 0);
    let c = enc_members(ms);
    let rest = ms.drop_first();
    let e0 = enc_member(ms[0]);
    assert(c == e0 + enc_members(rest));
    if b.len() < pos + e0.len() {
        assert(b.subrange(pos, b.len() as int) =~= e0.take(b.len() - pos)) by {
            assert forall|k: int| 0 <= k < b.len() - pos implies b[pos + k] == e0[k] by {
                lemma_prefix_index(b, pos, c, k);
            }
        }
        lemma_sp_member_prefix(b, pos, ms[0]);
    } else {
        assert(b.subrange(pos, pos + e0.len()) =~= e0) by {
            assert forall|k: int| 0 <= k < e0.len() implies b[pos + k] == e0[k] by {
                lemma_prefix_index(b, pos, c, k);
            }
        }
        lemma_sp_member_done(b, pos, ms[0]);
        assert(b.subrange(pos + e0.len(), b.len() as int) =~= enc_members(rest).take(
            b.len() - pos - e0.len(),
        )) by {
            assert forall|k: int|
                0 <= k < b.len() - pos - e0.len() implies b[pos + e0.len() + k] == enc_members(
                rest,
            )[k] by {
                lemma_prefix_index(b, pos, c, e0.len() + k);
            }
        }
        assert(forall|i: int| 0 <= i < rest.len() ==> str_fits(#[trigger] rest[i].addr)) by {
            assert(forall|i: int| 0 <= i < rest.len() ==> rest[i] == ms[i + 1]);
        }
        lemma_sp_members_prefix(b, pos + e0.len(), rest);
    }
}


#[verifier::rlimit(100)]
proof fn lemma_inc_auth(m: MsgView, i: int)
    requires
        wire_wf(m),
        m is ClientAuth,
        1 <= i < enc_frame(m).len(),
    ensures
        sp_msg(enc_frame(m).take(i)) matches SpecDec::Incomplete(n) && i < n <= enc_frame(m).len(),
{
    let e1 = enc_str(m->ClientAuth_namespace);
    let e2 = enc_str(m->ClientAuth_username);
    let e3 = enc_str(m->ClientAuth_password);
    let frame = enc_frame(m);
    let b = frame.take(i);
    assert(frame == seq![headers::CLIENT_AUTH] + e1 + e2 + e3);
    let o2: int = 1 + e1.len() as int;
    let o3: int = o2 + e2.len() as int;
    let o4: int = o3 + e3.len() as int;
    assert(b[0] == headers::CLIENT_AUTH);
    if i < o2 {
        assert(b.subrange(1, i) =~= e1.take(i - 1));
        lemma_sp_str_prefix(b, 1, m->ClientAuth_namespace);
    } else {
        assert(b.subrange(1, o2) =~= e1);
        lemma_sp_str_done(b, 1, m->ClientAuth_namespace);
        if i < o3 {
            assert(b.subrange(o2, i) =~= e2.take(i - o2));
            lemma_sp_str_prefix(b, o2, m->ClientAuth_username);
        } else {
            assert(b.subrange(o2, o3) =~= e2);
            lemma_sp_str_done(b, o2, m->ClientAuth_username);
            assert(b.subrange(o3, i) =~= e3.take(i - o3));
            lemma_sp_str_prefix(b, o3, m->ClientAuth_password);
        }
    }
}

#[verifier::rlimit(100)]
proof fn lemma_inc_produce_late(m: MsgView, i: int)
    requires
        wire_wf(m),
        m is ProduceEvent,
        1 + enc_str(m->ProduceEvent_0.namespace).len() <= i < enc_frame(m).len(),
    ensures
        sp_msg(enc_frame(m).take(i)) matches SpecDec::Incomplete(n) && i < n <= enc_frame(m).len(),
{
    let p = m->ProduceEvent_0;
    let e1 = enc_str(p.namespace);
    let e2 = enc_opt_id(p.parent_id);
    let frame = enc_frame(m);
    let b = frame.take(i);
    assert(frame == seq![headers::PRODUCE_EVENT] + e1 + e2 + be32(p.op_id) + be32(
        p.data.len() as u32,
    ));
    assert(e2.len() == 10) by {
        match p.parent_id {
            Some(id) => assert(e2 == enc_id(id)),
            None => assert(e2 == be64(0) + be16(0)),
        }
    }
    let o2: int = 1 + e1.len() as int;
    assert(b[0] == headers::PRODUCE_EVENT);
    assert(b.subrange(1, o2) =~= e1);
    lemma_sp_str_done(b, 1, p.namespace);
    if i < o2 + 10 {
    } else {
        assert(b.subrange(o2, o2 + 10) =~= e2);
        lemma_sp_opt_id_done(b, o2, p.parent_id);
        if i < o2 + 14 {
        } else {
            assert(b.subrange(o2 + 10, o2 + 14) =~= be32(p.op_id));
            lemma_sp_u32_done(b, o2 + 10, p.op_id);
            assert(i < o2 + 18);
        }
    }
}

#[verifier::rlimit(100)]
proof fn lemma_inc_produce(m: MsgView, i: int)
    requires
        wire_wf(m),
        m is ProduceEvent,
        1 <= i < enc_frame(m).len(),
    ensures
        sp_msg(enc_frame(m).take(i)) matches SpecDec::Incomplete(n) && i < n <= enc_frame(m).len(),
{
    let p = m->ProduceEvent_0;
    let e1 = enc_str(p.namespace);
    let frame = enc_frame(m);
    let b = frame.take(i);
    let o2: int = 1 + e1.len() as int;
    if i < o2 {
        assert(frame == seq![headers::PRODUCE_EVENT] + e1 + enc_opt_id(p.parent_id) + be32(
            p.op_id,
        ) + be32(p.data.len() as u32));
        assert(b[0] == headers::PRODUCE_EVENT);
        assert(b.subrange(1, i) =~= e1.take(i - 1));
        lemma_sp_str_prefix(b, 1, p.namespace);
    } else {
        lemma_inc_produce_late(m, i);
    }
}

#[verifier::rlimit(100)]
proof fn lemma_inc_receive(m: MsgView, i: int)
    requires
        wire_wf(m),
        m is ReceiveEvent,
        1 <= i < enc_frame(m).len(),
    ensures
        sp_msg(enc_frame(m).take(i)) matches SpecDec::Incomplete(n) && i < n <= enc_frame(m).len(),
{
    let e = m->ReceiveEvent_0;
    let e1 = enc_id(e.id);
    let e2 = enc_opt_id(e.parent_id);
    let e4 = enc_str(e.namespace);
    let frame = enc_frame(m);
    let b = frame.take(i);
    assert(frame == (seq![headers::RECEIVE_EVENT] + e1 + e2 + be64(e.timestamp) + e4 + be32(
        e.data.len() as u32,
    )) + e.data);
    assert(e2.len() == 10) by {
        match e.parent_id {
            Some(id) => assert(e2 == enc_id(id)),
            None => assert(e2 == be64(0) + be16(0)),
        }
    }
    let o2: int = 11;
    let o3: int = 21;
    let o4: int = 29;
    let o5: int = o4 + e4.len() as int;
    let o6: int = o5 + 4;
    let o7: int = o6 + e.data.len() as int;
    assert(frame.len() == o7);
    assert(b[0] == headers::RECEIVE_EVENT);
    if i < o2 {
    } else {
        assert(b.subrange(1, o2) =~= e1);
        lemma_sp_nonzero_id_done(b, 1, e.id);
        if i < o3 {
        } else {
            assert(b.subrange(o2, o3) =~= e2);
            lemma_sp_opt_id_done(b, o2, e.parent_id);
            if i < o4 {
            } else {
                assert(b.subrange(o3, o4) =~= be64(e.timestamp));
                lemma_sp_u64_done(b, o3, e.timestamp);
                if i < o5 {
                    assert(b.subrange(o4, i) =~= e4.take(i - o4));
                    lemma_sp_str_prefix(b, o4, e.namespace);
                } else {
                    assert(b.subrange(o4, o5) =~= e4);
                    lemma_sp_str_done(b, o4, e.namespace);
                    if i < o6 {
                    } else {
                        assert(b.subrange(o5, o6) =~= be32(e.data.len() as u32));
                        lemma_sp_u32_done(b, o5, e.data.len() as u32);
                        assert((e.data.len() as u32) as int == e.data.len() as int);
                        assert(i < o7);
                    }
                }
            }
        }
    }
}

#[verifier::rlimit(100)]
proof fn lemma_inc_start(m: MsgView, i: int)
    requires
        wire_wf(m),
        m is StartConsuming,
        1 <= i < enc_frame(m).len(),
    ensures
        sp_msg(enc_frame(m).take(i)) matches SpecDec::Incomplete(n) && i < n <= enc_frame(m).len(),
{
    let c = m->StartConsuming_0;
    let e2 = enc_str(c.namespace);
    let frame = enc_frame(m);
    let b = frame.take(i);
    assert(frame == seq![headers::START_CONSUMING] + be32(c.op_id) + e2 + be64(c.max_events));
    let o2: int = 5;
    let o3: int = o2 + e2.len() as int;
    assert(b[0] == headers::START_CONSUMING);
    if i < o2 {
    } else {
        assert(b.subrange(1, 5) =~= be32(c.op_id));
        lemma_sp_u32_done(b, 1, c.op_id);
        if i < o3 {
            assert(b.subrange(o2, i) =~= e2.take(i - o2));
            lemma_sp_str_prefix(b, o2, c.namespace);
        } else {
            assert(b.subrange(o2, o3) =~= e2);
            lemma_sp_str_done(b, o2, c.namespace);
            assert(i < o3 + 8);
        }
    }
}

#[verifier::rlimit(100)]
proof fn lemma_inc_error(m: MsgView, i: int)
    requires
        wire_wf(m),
        m is Error,
        1 <= i < enc_frame(m).len(),
    ensures
        sp_msg(enc_frame(m).take(i)) matches SpecDec::Incomplete(n) && i < n <= enc_frame(m).len(),
{
    let e = m->Error_0;
    let e3 = enc_str(e.description);
    let frame = enc_frame(m);
    let b = frame.take(i);
    assert(frame == seq![headers::ERROR_HEADER] + be32(e.op_id) + seq![
        crate::wire::kind_byte(e.kind),
    ] + e3);
    let o3: int = 6;
    let o4: int = o3 + e3.len() as int;
    assert(b[0] == headers::ERROR_HEADER);
    if i < 5 {
    } else {
        assert(b.subrange(1, 5) =~= be32(e.op_id));
        lemma_sp_u32_done(b, 1, e.op_id);
        if i < 6 {
        } else {
            assert(b[5] == crate::wire::kind_byte(e.kind));
            assert(crate::wire::is_kind_byte(crate::wire::kind_byte(e.kind)));
            assert(b.subrange(o3, i) =~= e3.take(i - o3));
            lemma_sp_str_prefix(b, o3, e.description);
        }
    }
}

#[verifier::rlimit(100)]
proof fn lemma_inc_peer(m: MsgView, i: int)
    requires
        wire_wf(m),
        m is PeerAnnounce || m is PeerUpdate,
        1 <= i < enc_frame(m).len(),
    ensures
        sp_msg(enc_frame(m).take(i)) matches SpecDec::Incomplete(n) && i < n <= enc_frame(m).len(),
{
    let cs = if m is PeerAnnounce {
        m->PeerAnnounce_0
    } else {
        m->PeerUpdate_0
    };
    let tag = if m is PeerAnnounce {
        headers::PEER_ANNOUNCE
    } else {
        headers::PEER_UPDATE
    };
    let ids = cs.version_vector;
    let ms = cs.other_members;
    lemma_enc_vv_len(ids);
    let l_vv = 10 * ids.len() as int;
    let l_ms = enc_members(ms).len() as int;
    let frame = enc_frame(m);
    let b = frame.take(i);
    assert(frame == enc_cluster_state(tag, cs));
    assert(frame =~= seq![tag] + be16(cs.actor_id) + be16(cs.actor_port) + be16(
        ids.len() as u16,
    ) + enc_vv(ids) + be16(ms.len() as u16) + enc_members(ms));
    assert(frame.len() == 9 + l_vv + l_ms);
    let o_vv: int = 7;
    let o_ml: int = o_vv + l_vv;
    let o_ms: int = o_ml + 2;
    assert(b[0] == tag);
    if i < 3 {
    } else {
        assert(b.subrange(1, 3) =~= be16(cs.actor_id));
        lemma_sp_u16_done(b, 1, cs.actor_id);
        if i < 5 {
        } else {
            assert(b.subrange(3, 5) =~= be16(cs.actor_port));
            lemma_sp_u16_done(b, 3, cs.actor_port);
            if i < 7 {
            } else {
                assert(b.subrange(5, 7) =~= be16(ids.len() as u16));
                lemma_sp_u16_done(b, 5, ids.len() as u16);
                assert((ids.len() as u16) as int == ids.len() as int);
                if i < o_ml {
                    assert(b.subrange(o_vv, i) =~= enc_vv(ids).take(i - o_vv));
                    lemma_sp_vv_prefix(b, o_vv, ids);
                } else {
                    assert(b.subrange(o_vv, o_ml) =~= enc_vv(ids));
                    lemma_sp_vv_done(b, o_vv, ids);
                    if i < o_ms {
                    } else {
                        assert(b.subrange(o_ml, o_ms) =~= be16(ms.len() as u16));
                        lemma_sp_u16_done(b, o_ml, ms.len() as u16);
                        assert((ms.len() as u16) as int == ms.len() as int);
                        assert(b.subrange(o_ms, i) =~= enc_members(ms).take(i - o_ms));
                        lemma_sp_members_prefix(b, o_ms, ms);
                    }
                }
            }
        }
    }
}

#[verifier::rlimit(50)]
proof fn lemma_inc_ack(m: MsgView, i: int)
    requires
        m is AckEvent,
        1 <= i < enc_frame(m).len(),
    ensures
        sp_msg(enc_frame(m).take(i)) matches SpecDec::Incomplete(n) && i < n <= enc_frame(m).len(),
{
    let a = m->AckEvent_0;
    let frame = enc_frame(m);
    let b = frame.take(i);
    assert(frame == seq![headers::ACK_HEADER] + be32(a.op_id) + enc_id(a.event_id));
    assert(b[0] == headers::ACK_HEADER);
    if i < 5 {
    } else {
        assert(b.subrange(1, 5) =~= be32(a.op_id));
        lemma_sp_u32_done(b, 1, a.op_id);
        assert(i < 15);
    }
}

#[verifier::rlimit(50)]
proof fn lemma_inc_update(m: MsgView, i: int)
    requires
        m is UpdateMarker,
        1 <= i < enc_frame(m).len(),
    ensures
        sp_msg(enc_frame(m).take(i)) matches SpecDec::Incomplete(n) && i < n <= enc_frame(m).len(),
{
    let frame = enc_frame(m);
    let b = frame.take(i);
    assert(frame == seq![headers::UPDATE_MARKER] + enc_id(m->UpdateMarker_0));
    assert(b[0] == headers::UPDATE_MARKER);
    assert(i < 11);
}

#[verifier::rlimit(50)]
proof fn lemma_inc_cursor(m: MsgView, i: int)
    requires
        m is CursorCreated,
        1 <= i < enc_frame(m).len(),
    ensures
        sp_msg(enc_frame(m).take(i)) matches SpecDec::Incomplete(n) && i < n <= enc_frame(m).len(),
{
    let c = m->CursorCreated_0;
    let frame = enc_frame(m);
    let b = frame.take(i);
    assert(frame == seq![headers::CURSOR_CREATED] + be32(c.op_id) + be32(c.batch_size));
    assert(b[0] == headers::CURSOR_CREATED);
    if i < 5 {
    } else {
        assert(b.subrange(1, 5) =~= be32(c.op_id));
        lemma_sp_u32_done(b, 1, c.op_id);
        assert(i < 9);
    }
}

#[verifier::rlimit(50)]
proof fn lemma_inc_setbatch(m: MsgView, i: int)
    requires
        m is SetBatchSize,
        1 <= i < enc_frame(m).len(),
    ensures
        sp_msg(enc_frame(m).take(i)) matches SpecDec::Incomplete(n) && i < n <= enc_frame(m).len(),
{
    let frame = enc_frame(m);
    let b = frame.take(i);
    assert(frame == seq![headers::SET_BATCH_SIZE] + be32(m->SetBatchSize_0));
    assert(b[0] == headers::SET_BATCH_SIZE);
    assert(i < 5);
}

/// Incrementality. For every strict prefix of a valid encoded frame, the
/// decoder reports "incomplete", with a hint that is a sound lower bound
/// on the frame's total length: more than was given, and never more than
/// the frame occupies.
pub proof fn lemma_incremental(m: MsgView, i: int)
    requires
        wire_wf(m),
        0 <= i < enc_frame(m).len(),
    ensures
        sp_msg(enc_frame(m).take(i)) matches SpecDec::Incomplete(n) && i < n <= enc_frame(m).len(),
{
    let frame = enc_frame(m);
    let b = frame.take(i);
    if i == 0 {
        assert(b.len() == 0);
        assert(sp_msg(b) == SpecDec::Incomplete::<MsgView>(1));
    } else {
        match m {
            MsgView::ProduceEvent(p) => {
                lemma_inc_produce(m, i);
            },
            MsgView::ReceiveEvent(e) => {
                lemma_inc_receive(m, i);
            },
            MsgView::AckEvent(a) => {
                lemma_inc_ack(m, i);
            },
            MsgView::UpdateMarker(id) => {
                lemma_inc_update(m, i);
            },
            MsgView::StartConsuming(c) => {
                lemma_inc_start(m, i);
            },
            MsgView::CursorCreated(c) => {
                lemma_inc_cursor(m, i);
            },
            MsgView::StopConsuming => {
                assert(frame.len() == 1);
            },
            MsgView::SetBatchSize(v) => {
                lemma_inc_setbatch(m, i);
            },
            MsgView::NextBatch => {
                assert(frame.len() == 1);
            },
            MsgView::EndOfBatch => {
                assert(frame.len() == 1);
            },
            MsgView::AwaitingEvents => {
                assert(frame.len() == 1);
            },
            MsgView::PeerAnnounce(cs) => {
                lemma_inc_peer(m, i);
            },
            MsgView::PeerUpdate(cs) => {
                lemma_inc_peer(m, i);
            },
            MsgView::ClientAuth { namespace, username, password } => {
                lemma_inc_auth(m, i);
            },
            MsgView::Error(e) => {
                lemma_inc_error(m, i);
            },
        }
    }
}


/// The encoder can never emit an invalid string field: the bytes after
/// any string's length prefix are the UTF-8 encoding of its characters,
/// which is valid by construction.
pub proof fn lemma_enc_str_valid(s: Seq<char>)
    ensures
        vstd::utf8::valid_utf8(enc_str(s).skip(2)),
{
    encode_utf8_valid_utf8(s);
    assert(enc_str(s).skip(2) =~= encode_utf8(s));
}

/// A `ProduceEvent` frame whose namespace bytes are not valid UTF-8 is
/// an error.
pub proof fn lemma_produce_invalid_utf8_error(b: Seq<u8>, n: int)
    requires
        b.len() >= 3,
        b[0] == headers::PRODUCE_EVENT,
        n == be16_val(b[1], b[2]),
        3 + n <= b.len(),
        !vstd::utf8::valid_utf8(b.subrange(3, 3 + n)),
    ensures
        sp_msg(b) == SpecDec::Error::<MsgView>,
{
    lemma_str_invalid_utf8_error(b, 1, n);
    assert(sp_msg(b) == sp_produce(b));
}

/// A `ReceiveEvent` frame whose namespace bytes are not valid UTF-8 is
/// an error, whatever id, parent and timestamp precede it.
pub proof fn lemma_receive_invalid_utf8_error(b: Seq<u8>, n: int)
    requires
        b.len() >= 31,
        b[0] == headers::RECEIVE_EVENT,
        be64_val(b[1], b[2], b[3], b[4], b[5], b[6], b[7], b[8]) > 0,
        n == be16_val(b[29], b[30]),
        31 + n <= b.len(),
        !vstd::utf8::valid_utf8(b.subrange(31, 31 + n)),
    ensures
        sp_msg(b) == SpecDec::Error::<MsgView>,
{
    lemma_str_invalid_utf8_error(b, 29, n);
    assert(sp_msg(b) == sp_receive(b));
}

/// A `StartConsuming` frame whose namespace bytes are not valid UTF-8 is
/// an error.
pub proof fn lemma_start_invalid_utf8_error(b: Seq<u8>, n: int)
    requires
        b.len() >= 7,
        b[0] == headers::START_CONSUMING,
        n == be16_val(b[5], b[6]),
        7 + n <= b.len(),
        !vstd::utf8::valid_utf8(b.subrange(7, 7 + n)),
    ensures
        sp_msg(b) == SpecDec::Error::<MsgView>,
{
    lemma_str_invalid_utf8_error(b, 5, n);
}

/// An `Error` frame whose description bytes are not valid UTF-8 is an
/// error.
pub proof fn lemma_error_frame_invalid_utf8_error(b: Seq<u8>, n: int)
    requires
        b.len() >= 8,
        b[0] == headers::ERROR_HEADER,
        crate::wire::is_kind_byte(b[5]),
        n == be16_val(b[6], b[7]),
        8 + n <= b.len(),
        !vstd::utf8::valid_utf8(b.subrange(8, 8 + n)),
    ensures
        sp_msg(b) == SpecDec::Error::<MsgView>,
{
    lemma_str_invalid_utf8_error(b, 6, n);
}

/// A `ClientAuth` frame whose username bytes are not valid UTF-8 is an
/// error, whatever valid namespace precedes it.
pub proof fn lemma_auth_username_invalid_utf8_error(b: Seq<u8>, n1: int, n2: int)
    requires
        b.len() >= 3,
        b[0] == headers::CLIENT_AUTH,
        n1 == be16_val(b[1], b[2]),
        3 + n1 + 2 <= b.len(),
        vstd::utf8::valid_utf8(b.subrange(3, 3 + n1)),
        n2 == be16_val(b[3 + n1], b[3 + n1 + 1]),
        3 + n1 + 2 + n2 <= b.len(),
        !vstd::utf8::valid_utf8(b.subrange(3 + n1 + 2, 3 + n1 + 2 + n2)),
    ensures
        sp_msg(b) == SpecDec::Error::<MsgView>,
{
    lemma_str_invalid_utf8_error(b, 3 + n1, n2);
    assert(sp_msg(b) == sp_auth(b));
}

/// A `ClientAuth` frame whose password bytes are not valid UTF-8 is an
/// error, whatever valid namespace and username precede it.
pub proof fn lemma_auth_password_invalid_utf8_error(b: Seq<u8>, n1: int, n2: int, n3: int)
    requires
        b.len() >= 3,
        b[0] == headers::CLIENT_AUTH,
        n1 == be16_val(b[1], b[2]),
        3 + n1 + 2 <= b.len(),
        vstd::utf8::valid_utf8(b.subrange(3, 3 + n1)),
        n2 == be16_val(b[3 + n1], b[3 + n1 + 1]),
        3 + n1 + 2 + n2 + 2 <= b.len(),
        vstd::utf8::valid_utf8(b.subrange(3 + n1 + 2, 3 + n1 + 2 + n2)),
        n3 == be16_val(b[3 + n1 + 2 + n2], b[3 + n1 + 2 + n2 + 1]),
        3 + n1 + 2 + n2 + 2 + n3 <= b.len(),
        !vstd::utf8::valid_utf8(
            b.subrange(3 + n1 + 2 + n2 + 2, 3 + n1 + 2 + n2 + 2 + n3),
        ),
    ensures
        sp_msg(b) == SpecDec::Error::<MsgView>,
{
    lemma_str_invalid_utf8_error(b, 3 + n1 + 2 + n2, n3);
    assert(sp_msg(b) == sp_auth(b));
}

/// A cluster member whose address bytes are not valid UTF-8 is an
/// error.
pub proof fn lemma_member_invalid_utf8_error(b: Seq<u8>, pos: int, n: int)
    requires
        0 <= pos,
        pos + 4 <= b.len(),
        n == be16_val(b[pos + 2], b[pos + 3]),
        pos + 4 + n <= b.len(),
        !vstd::utf8::valid_utf8(b.subrange(pos + 4, pos + 4 + n)),
    ensures
        sp_member(b, pos) == SpecDec::Error::<MemberView>,
{
    lemma_str_invalid_utf8_error(b, pos + 2, n);
}

/// A member list fails as soon as any member fails: the error at the
/// head of the remaining list is the list's.
pub proof fn lemma_members_error_head(b: Seq<u8>, pos: int, count: int)
    requires
        count > 0,
        sp_member(b, pos) is Error,
    ensures
        sp_members(b, pos, count) is Error,
{
}

/// A member list fails as soon as any member fails: a failure after a
/// parsed member is the list's.
pub proof fn lemma_members_error_step(b: Seq<u8>, pos: int, count: int, m: MemberView, p: int)
    requires
        count > 0,
        sp_member(b, pos) == SpecDec::Done(m, p),
        sp_members(b, p, count - 1) is Error,
    ensures
        sp_members(b, pos, count) is Error,
{
}


/// A failing member list fails the whole cluster-state body, however the
/// fields before it parsed.
pub proof fn lemma_cluster_state_members_error(b: Seq<u8>, pos: int, ids: Seq<FloEventId>, p4: int)
    requires
        sp_u16(b, pos) is Done,
        sp_u16(b, pos + 2) is Done,
        sp_u16(b, pos + 4) matches SpecDec::Done(vv_len, p3) && sp_vv_entries(b, p3, vv_len as int)
            == SpecDec::Done(ids, p4),
        crate::wire::vv_actors_unique(ids),
        sp_u16(b, p4) matches SpecDec::Done(m_len, p5) && sp_members(b, p5, m_len as int) is Error,
    ensures
        sp_cluster_state(b, pos) is Error,
{
}

} // verus!
