//! Byte-level encoding primitives for the wire protocol: big-endian
//! integers, the `u16`-length-prefixed UTF-8 string form, and a chaining
//! writer over a growable buffer. All numbers on the wire are big-endian.

use vstd::prelude::*;
use vstd::utf8::encode_utf8;

verus! {

/// Big-endian bytes of a `u16`.
pub open spec fn be16(v: u16) -> Seq<u8> {
    seq![(v as int / 0x100) as u8, (v as int % 0x100) as u8]
}

/// Big-endian bytes of a `u32`.
pub open spec fn be32(v: u32) -> Seq<u8> {
    seq![
        (v as int / 0x1000000) as u8,
        (v as int / 0x10000 % 0x100) as u8,
        (v as int / 0x100 % 0x100) as u8,
        (v as int % 0x100) as u8,
    ]
}

/// Big-endian bytes of a `u64`.
pub open spec fn be64(v: u64) -> Seq<u8> {
    seq![
        (v as int / 0x100000000000000) as u8,
        (v as int / 0x1000000000000 % 0x100) as u8,
        (v as int / 0x10000000000 % 0x100) as u8,
        (v as int / 0x100000000 % 0x100) as u8,
        (v as int / 0x1000000 % 0x100) as u8,
        (v as int / 0x10000 % 0x100) as u8,
        (v as int / 0x100 % 0x100) as u8,
        (v as int % 0x100) as u8,
    ]
}

/// The `u16` denoted by two big-endian bytes.
pub open spec fn be16_val(b0: u8, b1: u8) -> u16 {
    (b0 * 0x100 + b1) as u16
}

/// The `u32` denoted by four big-endian bytes.
pub open spec fn be32_val(b0: u8, b1: u8, b2: u8, b3: u8) -> u32 {
    (b0 * 0x1000000 + b1 * 0x10000 + b2 * 0x100 + b3) as u32
}

/// The `u64` denoted by eight big-endian bytes.
pub open spec fn be64_val(b0: u8, b1: u8, b2: u8, b3: u8, b4: u8, b5: u8, b6: u8, b7: u8) -> u64 {
    (b0 * 0x100000000000000 + b1 * 0x1000000000000 + b2 * 0x10000000000 + b3 * 0x100000000 + b4
        * 0x1000000 + b5 * 0x10000 + b6 * 0x100 + b7) as u64
}

/// Reading back the big-endian bytes of a `u16` yields the value.
pub proof fn lemma_be16_roundtrip(v: u16)
    ensures
        be16_val(be16(v)[0], be16(v)[1]) == v,
{
}

/// Reading back the big-endian bytes of a `u32` yields the value.
pub proof fn lemma_be32_roundtrip(v: u32)
    ensures
        be32_val(be32(v)[0], be32(v)[1], be32(v)[2], be32(v)[3]) == v,
{
}

/// Reading back the big-endian bytes of a `u64` yields the value.
pub proof fn lemma_be64_roundtrip(v: u64)
    ensures
        be64_val(
            be64(v)[0],
            be64(v)[1],
            be64(v)[2],
            be64(v)[3],
            be64(v)[4],
            be64(v)[5],
            be64(v)[6],
            be64(v)[7],
        ) == v,
{
    let x = v as int;
    vstd::arithmetic::div_mod::lemma_fundamental_div_mod(x, 0x100);
    vstd::arithmetic::div_mod::lemma_fundamental_div_mod(x / 0x100, 0x100);
    vstd::arithmetic::div_mod::lemma_fundamental_div_mod(x / 0x10000, 0x100);
    vstd::arithmetic::div_mod::lemma_fundamental_div_mod(x / 0x1000000, 0x100);
    vstd::arithmetic::div_mod::lemma_fundamental_div_mod(x / 0x100000000, 0x100);
    vstd::arithmetic::div_mod::lemma_fundamental_div_mod(x / 0x10000000000, 0x100);
    vstd::arithmetic::div_mod::lemma_fundamental_div_mod(x / 0x1000000000000, 0x100);
    vstd::arithmetic::div_mod::lemma_div_denominator(x, 0x100, 0x100);
    vstd::arithmetic::div_mod::lemma_div_denominator(x, 0x10000, 0x100);
    vstd::arithmetic::div_mod::lemma_div_denominator(x, 0x1000000, 0x100);
    vstd::arithmetic::div_mod::lemma_div_denominator(x, 0x100000000, 0x100);
    vstd::arithmetic::div_mod::lemma_div_denominator(x, 0x10000000000, 0x100);
    vstd::arithmetic::div_mod::lemma_div_denominator(x, 0x1000000000000, 0x100);
}

/// A string on the wire: a big-endian `u16` byte count, then the UTF-8
/// bytes, with no terminator.
pub open spec fn enc_str(s: Seq<char>) -> Seq<u8> {
    be16(encode_utf8(s).len() as u16) + encode_utf8(s)
}

/// Whether a string fits the wire form: its UTF-8 byte count must fit the
/// `u16` length prefix.
pub open spec fn str_fits(s: Seq<char>) -> bool {
    encode_utf8(s).len() <= u16::MAX
}

pub fn push_u8(buf: &mut Vec<u8>, v: u8)
    ensures
        final(buf)@ == old(buf)@.push(v),
{
    buf.push(v);
}

pub fn push_u16(buf: &mut Vec<u8>, v: u16)
    ensures
        final(buf)@ == old(buf)@ + be16(v),
{
    buf.push((v / 0x100) as u8);
    buf.push((v % 0x100) as u8);
    proof {
        assert(buf@ =~= old(buf)@ + be16(v));
    }
}

pub fn push_u32(buf: &mut Vec<u8>, v: u32)
    ensures
        final(buf)@ == old(buf)@ + be32(v),
{
    buf.push((v / 0x1000000) as u8);
    buf.push((v / 0x10000 % 0x100) as u8);
    buf.push((v / 0x100 % 0x100) as u8);
    buf.push((v % 0x100) as u8);
    proof {
        assert(buf@ =~= old(buf)@ + be32(v));
    }
}

pub fn push_u64(buf: &mut Vec<u8>, v: u64)
    ensures
        final(buf)@ == old(buf)@ + be64(v),
{
    buf.push((v / 0x100000000000000) as u8);
    buf.push((v / 0x1000000000000 % 0x100) as u8);
    buf.push((v / 0x10000000000 % 0x100) as u8);
    buf.push((v / 0x100000000 % 0x100) as u8);
    buf.push((v / 0x1000000 % 0x100) as u8);
    buf.push((v / 0x10000 % 0x100) as u8);
    buf.push((v / 0x100 % 0x100) as u8);
    buf.push((v % 0x100) as u8);
    proof {
        assert(buf@ =~= old(buf)@ + be64(v));
    }
}

/// A boolean is one byte: 1 for true, 0 for false.
pub open spec fn bool_byte(b: bool) -> u8 {
    if b {
        1
    } else {
        0
    }
}

pub fn push_bool(buf: &mut Vec<u8>, v: bool)
    ensures
        final(buf)@ == old(buf)@.push(bool_byte(v)),
{
    if v {
        buf.push(1);
    } else {
        buf.push(0);
    }
}

pub fn push_str(buf: &mut Vec<u8>, s: &str)
    requires
        str_fits(s@),
    ensures
        final(buf)@ == old(buf)@ + enc_str(s@),
{
    let bytes = s.as_bytes();
    push_u16(buf, bytes.len() as u16);
    buf.extend_from_slice(bytes);
    proof {
        assert(buf@ =~= old(buf)@ + enc_str(s@));
    }
}

/// A chaining writer that appends the wire forms above to a buffer taken
/// at construction and handed back by `finish`, together with the count
/// of bytes written since construction.
pub struct Serializer {
    out: Vec<u8>,
    start: usize,
}

impl View for Serializer {
    type V = Seq<u8>;

    closed spec fn view(&self) -> Seq<u8> {
        self.out@
    }
}

impl Serializer {
    pub closed spec fn spec_start(&self) -> int {
        self.start as int
    }

    pub closed spec fn wf(&self) -> bool {
        self.start <= self.out@.len()
    }

    pub fn new(buf: Vec<u8>) -> (r: Serializer)
        ensures
            r@ == buf@,
            r.spec_start() == buf@.len(),
            r.wf(),
    {
        let start = buf.len();
        Serializer { out: buf, start }
    }

    pub fn write_u8(self, v: u8) -> (r: Serializer)
        requires
            self.wf(),
        ensures
            r@ == self@.push(v),
            r.spec_start() == self.spec_start(),
            r.wf(),
    {
        let Serializer { mut out, start } = self;
        push_u8(&mut out, v);
        Serializer { out, start }
    }

    pub fn write_u16(self, v: u16) -> (r: Serializer)
        requires
            self.wf(),
        ensures
            r@ == self@ + be16(v),
            r.spec_start() == self.spec_start(),
            r.wf(),
    {
        let Serializer { mut out, start } = self;
        push_u16(&mut out, v);
        Serializer { out, start }
    }

    pub fn write_u32(self, v: u32) -> (r: Serializer)
        requires
            self.wf(),
        ensures
            r@ == self@ + be32(v),
            r.spec_start() == self.spec_start(),
            r.wf(),
    {
        let Serializer { mut out, start } = self;
        push_u32(&mut out, v);
        Serializer { out, start }
    }

    pub fn write_u64(self, v: u64) -> (r: Serializer)
        requires
            self.wf(),
        ensures
            r@ == self@ + be64(v),
            r.spec_start() == self.spec_start(),
            r.wf(),
    {
        let Serializer { mut out, start } = self;
        push_u64(&mut out, v);
        Serializer { out, start }
    }

    pub fn write_bool(self, v: bool) -> (r: Serializer)
        requires
            self.wf(),
        ensures
            r@ == self@.push(bool_byte(v)),
            r.spec_start() == self.spec_start(),
            r.wf(),
    {
        let Serializer { mut out, start } = self;
        push_bool(&mut out, v);
        Serializer { out, start }
    }

    pub fn write_string(self, s: &str) -> (r: Serializer)
        requires
            self.wf(),
            str_fits(s@),
        ensures
            r@ == self@ + enc_str(s@),
            r.spec_start() == self.spec_start(),
            r.wf(),
    {
        let Serializer { mut out, start } = self;
        push_str(&mut out, s);
        Serializer { out, start }
    }

    /// Hands back the buffer and the number of bytes written since `new`.
    pub fn finish(self) -> (r: (Vec<u8>, usize))
        requires
            self.wf(),
        ensures
            r.0@ == self@,
            r.1 == self@.len() - self.spec_start(),
    {
        let n = self.out.len() - self.start;
        (self.out, n)
    }
}

} // verus!
