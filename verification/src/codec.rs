//! Type-length-value codec for control messages.
//!
//! Every control message is encoded as a 1-byte type tag, a 1-byte body
//! length and a type-specific body, so messages are self-describing and can
//! be concatenated in one transport frame. Multi-byte fields are big-endian.
//! Unknown type tags decode to an opaque skip record instead of failing, so
//! future message types do not break old nodes.
//!
//! Body layouts:
//! - Hello (tag 4): sequence number (2), interval (2).
//! - IHU (tag 5): observed metric (2), interval (2), optional address (16).
//! - Update (tag 8): interval (2), sequence number (2), metric (2),
//!   prefix length (1), prefix address (16), originating router id (8).

use vstd::prelude::*;

use crate::metric::{metric_from_wire, metric_to_wire, metric_wf, Metric};
use crate::seqno::SeqNo;
use crate::subnet::{mask_addr, Addr, Subnet};

verus! {

/// Type tag of a Hello message.
pub const TAG_HELLO: u8 = 4;

/// Type tag of an IHU ("I heard you") message.
pub const TAG_IHU: u8 = 5;

/// Type tag of an Update message.
pub const TAG_UPDATE: u8 = 8;

/// Identity of the router that originates a route.
#[derive(Clone, Copy, Debug, PartialEq, Eq, Structural)]
pub struct RouterId(pub u64);

/// Periodic liveness probe, carrying the sender's Hello counter.
#[derive(Clone, Copy, Debug, PartialEq, Eq, Structural)]
pub struct Hello {
    /// Hello sequence counter of the sending peer.
    pub seqno: SeqNo,
    /// Interval until the next scheduled Hello, in time units.
    pub interval: u16,
}

/// Link acknowledgement, reporting the metric observed for the peer.
#[derive(Clone, Copy, Debug, PartialEq, Eq, Structural)]
pub struct Ihu {
    /// Cost of the link as observed by the sender.
    pub metric: Metric,
    /// Interval until the next scheduled IHU, in time units.
    pub interval: u16,
    /// Address of the peer the acknowledgement is meant for, if any.
    pub dest_address: Option<Addr>,
}

/// Route advertisement.
#[derive(Clone, Copy, Debug, PartialEq, Eq, Structural)]
pub struct Update {
    /// Interval until the advertisement is refreshed, in time units.
    pub interval: u16,
    /// Sequence number set by the originating router.
    pub seqno: SeqNo,
    /// Advertised metric; infinite retracts the route.
    pub metric: Metric,
    /// The subnet the route leads to.
    pub subnet: Subnet,
    /// Identity of the originating router.
    pub router_id: RouterId,
}

/// A control message: one of the known kinds, or a skip record holding an
/// unknown tag and its body unchanged.
#[derive(Clone, Debug, PartialEq, Eq)]
pub enum ControlPacket {
    /// Liveness probe.
    Hello(Hello),
    /// Link acknowledgement.
    Ihu(Ihu),
    /// Route advertisement.
    Update(Update),
    /// A message with an unknown type tag, kept opaque.
    Skip {
        /// The unknown type tag.
        tag: u8,
        /// The body, kept as raw bytes.
        body: Vec<u8>,
    },
}

/// Mathematical form of a control message; the skip body is a byte sequence.
pub enum PacketV {
    /// Liveness probe.
    Hello(Hello),
    /// Link acknowledgement.
    Ihu(Ihu),
    /// Route advertisement.
    Update(Update),
    /// A message with an unknown type tag.
    Skip {
        /// The unknown type tag.
        tag: u8,
        /// The body bytes.
        body: Seq<u8>,
    },
}

impl View for ControlPacket {
    type V = PacketV;

    open spec fn view(&self) -> PacketV {
        match self {
            ControlPacket::Hello(h) => PacketV::Hello(*h),
            ControlPacket::Ihu(i) => PacketV::Ihu(*i),
            ControlPacket::Update(u) => PacketV::Update(*u),
            ControlPacket::Skip { tag, body } => PacketV::Skip { tag: *tag, body: body@ },
        }
    }
}

/// Decode failure: the buffer ends, or a known-tag body is cut short,
/// before the declared content is complete.
#[derive(Clone, Copy, Debug, PartialEq, Eq, Structural)]
pub enum DecodeError {
    /// Malformed or incomplete wire data for one message.
    Truncated,
}

/// A constructible message: finite metrics stay below the reserved wire
/// value, subnets are canonical, and a skip record has an unknown tag and a
/// body short enough for the length byte.
pub open spec fn packet_wf(p: PacketV) -> bool {
    match p {
        PacketV::Hello(_) => true,
        PacketV::Ihu(i) => metric_wf(i.metric),
        PacketV::Update(u) => metric_wf(u.metric) && crate::subnet::subnet_wf(u.subnet),
        PacketV::Skip { tag, body } => {
            &&& tag != TAG_HELLO
            &&& tag != TAG_IHU
            &&& tag != TAG_UPDATE
            &&& body.len() <= 255
        },
    }
}

/// Big-endian bytes of a 16-bit value.
pub open spec fn u16_bytes(v: u16) -> Seq<u8> {
    seq![(v >> 8) as u8, v as u8]
}

/// 16-bit value read from two big-endian bytes.
pub open spec fn u16_from_bytes(b0: u8, b1: u8) -> u16 {
    (((b0 as u16) << 8) | (b1 as u16)) as u16
}

/// Big-endian bytes of a 64-bit value.
pub open spec fn u64_bytes(v: u64) -> Seq<u8> {
    seq![
        (v >> 56) as u8,
        (v >> 48) as u8,
        (v >> 40) as u8,
        (v >> 32) as u8,
        (v >> 24) as u8,
        (v >> 16) as u8,
        (v >> 8) as u8,
        v as u8,
    ]
}

/// 64-bit value read from eight big-endian bytes.
pub open spec fn u64_from_bytes(b: Seq<u8>) -> u64
    recommends
        b.len() == 8,
{
    (((b[0] as u64) << 56) | ((b[1] as u64) << 48) | ((b[2] as u64) << 40) | ((b[3] as u64) << 32)
        | ((b[4] as u64) << 24) | ((b[5] as u64) << 16) | ((b[6] as u64) << 8) | (b[7] as u64)) as u64
}

/// Big-endian bytes of an address: high half, then low half.
pub open spec fn addr_bytes(a: Addr) -> Seq<u8> {
    u64_bytes(a.hi) + u64_bytes(a.lo)
}

/// Address read from 16 big-endian bytes.
pub open spec fn addr_from_bytes(b: Seq<u8>) -> Addr
    recommends
        b.len() == 16,
{
    Addr { hi: u64_from_bytes(b.subrange(0, 8)), lo: u64_from_bytes(b.subrange(8, 16)) }
}

/// Reading back the bytes of a 16-bit value gives the value.
pub proof fn lemma_u16_round_trip(v: u16)
    ensures
        u16_from_bytes((v >> 8) as u8, v as u8) == v,
{
    assert(((((v >> 8) as u8) as u16) << 8 | ((v as u8) as u16)) as u16 == v) by (bit_vector);
}

/// Reading back the bytes of a 64-bit value gives the value.
pub proof fn lemma_u64_round_trip(v: u64)
    ensures
        u64_from_bytes(u64_bytes(v)) == v,
{
    let b = u64_bytes(v);
    assert((((((v >> 56) as u8) as u64) << 56) | ((((v >> 48) as u8) as u64) << 48)
        | ((((v >> 40) as u8) as u64) << 40) | ((((v >> 32) as u8) as u64) << 32)
        | ((((v >> 24) as u8) as u64) << 24) | ((((v >> 16) as u8) as u64) << 16)
        | ((((v >> 8) as u8) as u64) << 8) | ((v as u8) as u64)) as u64 == v) by (bit_vector);
}

/// Reading back the bytes of an address gives the address.
pub proof fn lemma_addr_round_trip(a: Addr)
    ensures
        addr_from_bytes(addr_bytes(a)) == a,
{
    let b = addr_bytes(a);
    assert(b.subrange(0, 8) =~= u64_bytes(a.hi));
    assert(b.subrange(8, 16) =~= u64_bytes(a.lo));
    lemma_u64_round_trip(a.hi);
    lemma_u64_round_trip(a.lo);
}

/// The type tag a message is encoded under.
pub open spec fn packet_tag(p: PacketV) -> u8 {
    match p {
        PacketV::Hello(_) => TAG_HELLO,
        PacketV::Ihu(_) => TAG_IHU,
        PacketV::Update(_) => TAG_UPDATE,
        PacketV::Skip { tag, .. } => tag,
    }
}

/// The body bytes a message is encoded with.
pub open spec fn packet_body(p: PacketV) -> Seq<u8> {
    match p {
        PacketV::Hello(h) => u16_bytes(h.seqno.0) + u16_bytes(h.interval),
        PacketV::Ihu(i) => u16_bytes(metric_to_wire(i.metric)) + u16_bytes(i.interval) + (
        match i.dest_address {
            Some(a) => addr_bytes(a),
            None => Seq::<u8>::empty(),
        }),
        PacketV::Update(u) => u16_bytes(u.interval) + u16_bytes(u.seqno.0) + u16_bytes(
            metric_to_wire(u.metric),
        ) + seq![u.subnet.prefix_len] + addr_bytes(u.subnet.addr) + u64_bytes(u.router_id.0),
        PacketV::Skip { body, .. } => body,
    }
}

/// The full encoding: tag byte, length byte, body.
pub open spec fn encode_spec(p: PacketV) -> Seq<u8> {
    seq![packet_tag(p), packet_body(p).len() as u8] + packet_body(p)
}

/// Decode a Hello body.
pub open spec fn decode_hello(body: Seq<u8>) -> Option<PacketV> {
    if body.len() == 4 {
        Some(
            PacketV::Hello(
                Hello {
                    seqno: SeqNo(u16_from_bytes(body[0], body[1])),
                    interval: u16_from_bytes(body[2], body[3]),
                },
            ),
        )
    } else {
        None
    }
}

/// Decode an IHU body; the address is present exactly when the body has room
/// for it.
pub open spec fn decode_ihu(body: Seq<u8>) -> Option<PacketV> {
    if body.len() == 4 {
        Some(
            PacketV::Ihu(
                Ihu {
                    metric: metric_from_wire(u16_from_bytes(body[0], body[1])),
                    interval: u16_from_bytes(body[2], body[3]),
                    dest_address: None,
                },
            ),
        )
    } else if body.len() == 20 {
        Some(
            PacketV::Ihu(
                Ihu {
                    metric: metric_from_wire(u16_from_bytes(body[0], body[1])),
                    interval: u16_from_bytes(body[2], body[3]),
                    dest_address: Some(addr_from_bytes(body.subrange(4, 20))),
                },
            ),
        )
    } else {
        None
    }
}

/// Decode an Update body; the prefix must be in range and canonical.
pub open spec fn decode_update(body: Seq<u8>) -> Option<PacketV> {
    if body.len() == 31 {
        let prefix_len = body[6];
        let addr = addr_from_bytes(body.subrange(7, 23));
        if prefix_len <= 128 && mask_addr(addr, prefix_len) == addr {
            Some(
                PacketV::Update(
                    Update {
                        interval: u16_from_bytes(body[0], body[1]),
                        seqno: SeqNo(u16_from_bytes(body[2], body[3])),
                        metric: metric_from_wire(u16_from_bytes(body[4], body[5])),
                        subnet: Subnet { addr, prefix_len },
                        router_id: RouterId(u64_from_bytes(body.subrange(23, 31))),
                    },
                ),
            )
        } else {
            None
        }
    } else {
        None
    }
}

/// Decode one message from the front of `s`: the message and the number of
/// bytes it took, or nothing when the data is malformed or cut short.
pub open spec fn decode_spec(s: Seq<u8>) -> Option<(PacketV, int)> {
    if s.len() < 2 {
        None
    } else {
        let tag = s[0];
        let blen = s[1] as int;
        if s.len() < 2 + blen {
            None
        } else {
            let body = s.subrange(2, 2 + blen);
            let packet = if tag == TAG_HELLO {
                decode_hello(body)
            } else if tag == TAG_IHU {
                decode_ihu(body)
            } else if tag == TAG_UPDATE {
                decode_update(body)
            } else {
                Some(PacketV::Skip { tag, body })
            };
            match packet {
                Some(p) => Some((p, 2 + blen)),
                None => None,
            }
        }
    }
}

/// Round trip: decoding a buffer that starts with the encoding of any
/// constructible message yields that very message and consumes exactly its
/// encoding, whatever bytes follow. Concatenated messages therefore decode
/// one after the other, and with `rest` empty this is the encode-then-decode
/// identity.
pub proof fn lemma_codec_round_trip(p: PacketV, rest: Seq<u8>)
    requires
        packet_wf(p),
    ensures
        decode_spec(encode_spec(p) + rest) == Some((p, encode_spec(p).len() as int)),
{
    let body = packet_body(p);
    let s = encode_spec(p) + rest;
    assert(body.len() <= 255);
    assert(s[0] == packet_tag(p));
    assert(s[1] == body.len() as u8);
    assert(s[1] as int == body.len());
    assert(s.len() >= 2 + body.len());
    let dbody = s.subrange(2, 2 + body.len() as u8 as int);
    assert(dbody =~= body);
    match p {
        PacketV::Hello(h) => {
            lemma_u16_round_trip(h.seqno.0);
            lemma_u16_round_trip(h.interval);
            assert(body[0] == (h.seqno.0 >> 8) as u8 && body[1] == h.seqno.0 as u8);
            assert(body[2] == (h.interval >> 8) as u8 && body[3] == h.interval as u8);
            assert(decode_hello(body) == Some(p));
        },
        PacketV::Ihu(i) => {
            let w = metric_to_wire(i.metric);
            lemma_u16_round_trip(w);
            lemma_u16_round_trip(i.interval);
            crate::metric::lemma_metric_wire_round_trip(i.metric);
            assert(body[0] == (w >> 8) as u8 && body[1] == w as u8);
            assert(body[2] == (i.interval >> 8) as u8 && body[3] == i.interval as u8);
            match i.dest_address {
                None => {
                    assert(body.len() == 4);
                    assert(decode_ihu(body) == Some(p));
                },
                Some(a) => {
                    assert(body.len() == 20);
                    assert(body.subrange(4, 20) =~= addr_bytes(a));
                    lemma_addr_round_trip(a);
                    assert(decode_ihu(body) == Some(p));
                },
            }
        },
        PacketV::Update(u) => {
            let w = metric_to_wire(u.metric);
            lemma_u16_round_trip(u.interval);
            lemma_u16_round_trip(u.seqno.0);
            lemma_u16_round_trip(w);
            crate::metric::lemma_metric_wire_round_trip(u.metric);
            assert(body.len() == 31);
            assert(body[0] == (u.interval >> 8) as u8 && body[1] == u.interval as u8);
            assert(body[2] == (u.seqno.0 >> 8) as u8 && body[3] == u.seqno.0 as u8);
            assert(body[4] == (w >> 8) as u8 && body[5] == w as u8);
            assert(body[6] == u.subnet.prefix_len);
            assert(body.subrange(7, 23) =~= addr_bytes(u.subnet.addr));
            lemma_addr_round_trip(u.subnet.addr);
            assert(body.subrange(23, 31) =~= u64_bytes(u.router_id.0));
            lemma_u64_round_trip(u.router_id.0);
            assert(decode_update(body) == Some(p));
        },
        PacketV::Skip { tag, body: sbody } => {
            assert(decode_spec(s) == Some((p, 2 + sbody.len() as int)));
        },
    }
}


/// Append the big-endian bytes of a 16-bit value.
fn push_u16(buf: &mut Vec<u8>, v: u16)
    ensures
        final(buf)@ == old(buf)@ + u16_bytes(v),
{
    buf.push((v >> 8) as u8);
    buf.push(#[verifier::truncate] (v as u8));
    assert(buf@ =~= old(buf)@ + u16_bytes(v));
}

/// Append the big-endian bytes of a 64-bit value.
fn push_u64(buf: &mut Vec<u8>, v: u64)
    ensures
        final(buf)@ == old(buf)@ + u64_bytes(v),
{
    buf.push((v >> 56) as u8);
    buf.push(#[verifier::truncate] ((v >> 48) as u8));
    buf.push(#[verifier::truncate] ((v >> 40) as u8));
    buf.push(#[verifier::truncate] ((v >> 32) as u8));
    buf.push(#[verifier::truncate] ((v >> 24) as u8));
    buf.push(#[verifier::truncate] ((v >> 16) as u8));
    buf.push(#[verifier::truncate] ((v >> 8) as u8));
    buf.push(#[verifier::truncate] (v as u8));
    assert(buf@ =~= old(buf)@ + u64_bytes(v));
}

/// Append the big-endian bytes of an address.
fn push_addr(buf: &mut Vec<u8>, a: Addr)
    ensures
        final(buf)@ == old(buf)@ + addr_bytes(a),
{
    push_u64(buf, a.hi);
    push_u64(buf, a.lo);
    assert(buf@ =~= old(buf)@ + addr_bytes(a));
}

/// Read a big-endian 16-bit value at index `i`.
fn read_u16(buf: &Vec<u8>, i: usize) -> (r: u16)
    requires
        i + 2 <= buf.len(),
    ensures
        r == u16_from_bytes(buf@[i as int], buf@[i as int + 1]),
{
    ((buf[i] as u16) << 8) | (buf[i + 1] as u16)
}

/// Read a big-endian 64-bit value at index `i`.
fn read_u64(buf: &Vec<u8>, i: usize) -> (r: u64)
    requires
        i + 8 <= buf.len(),
    ensures
        r == u64_from_bytes(buf@.subrange(i as int, i as int + 8)),
{
    let r = ((buf[i] as u64) << 56) | ((buf[i + 1] as u64) << 48) | ((buf[i + 2] as u64) << 40)
        | ((buf[i + 3] as u64) << 32) | ((buf[i + 4] as u64) << 24) | ((buf[i + 5] as u64) << 16)
        | ((buf[i + 6] as u64) << 8) | (buf[i + 7] as u64);
    proof {
        let b = buf@.subrange(i as int, i as int + 8);
        assert(b[0] == buf@[i as int] && b[1] == buf@[i as int + 1] && b[2] == buf@[i as int + 2]
            && b[3] == buf@[i as int + 3]);
        assert(b[4] == buf@[i as int + 4] && b[5] == buf@[i as int + 5]
            && b[6] == buf@[i as int + 6] && b[7] == buf@[i as int + 7]);
    }
    r
}

/// Read an address (16 big-endian bytes) at index `i`.
fn read_addr(buf: &Vec<u8>, i: usize) -> (r: Addr)
    requires
        i + 16 <= buf.len(),
    ensures
        r == addr_from_bytes(buf@.subrange(i as int, i as int + 16)),
{
    let hi = read_u64(buf, i);
    let lo = read_u64(buf, i + 8);
    proof {
        let b = buf@.subrange(i as int, i as int + 16);
        assert(b.subrange(0, 8) =~= buf@.subrange(i as int, i as int + 8));
        assert(b.subrange(8, 16) =~= buf@.subrange(i as int + 8, i as int + 16));
    }
    Addr { hi, lo }
}

impl ControlPacket {
    /// Encode the message into its type-length-value wire form.
    pub fn encode(&self) -> (out: Vec<u8>)
        requires
            packet_wf(self@),
        ensures
            out@ == encode_spec(self@),
    {
        let mut out: Vec<u8> = Vec::new();
        match self {
            ControlPacket::Hello(h) => {
                out.push(TAG_HELLO);
                out.push(4);
                push_u16(&mut out, h.seqno.0);
                push_u16(&mut out, h.interval);
                assert(out@ =~= encode_spec(self@));
            },
            ControlPacket::Ihu(i) => {
                out.push(TAG_IHU);
                match i.dest_address {
                    None => out.push(4),
                    Some(_) => out.push(20),
                }
                push_u16(&mut out, i.metric.to_wire());
                push_u16(&mut out, i.interval);
                match i.dest_address {
                    None => {},
                    Some(a) => push_addr(&mut out, a),
                }
                assert(out@ =~= encode_spec(self@));
            },
            ControlPacket::Update(u) => {
                out.push(TAG_UPDATE);
                out.push(31);
                push_u16(&mut out, u.interval);
                push_u16(&mut out, u.seqno.0);
                push_u16(&mut out, u.metric.to_wire());
                out.push(u.subnet.prefix_len);
                push_addr(&mut out, u.subnet.addr);
                push_u64(&mut out, u.router_id.0);
                assert(out@ =~= encode_spec(self@));
            },
            ControlPacket::Skip { tag, body } => {
                out.push(*tag);
                out.push(#[verifier::truncate] (body.len() as u8));
                let mut k: usize = 0;
                while k < body.len()
                    invariant
                        k <= body.len(),
                        body.len() <= 255,
                        out@ == seq![packet_tag(self@), body.len() as u8] + body@.subrange(
                            0,
                            k as int,
                        ),
                        body@ == packet_body(self@),
                    decreases body.len() - k,
                {
                    out.push(body[k]);
                    assert(out@ =~= seq![packet_tag(self@), body@.len() as u8] + body@.subrange(
                        0,
                        k as int + 1,
                    ));
                    k = k + 1;
                }
                assert(body@.subrange(0, body@.len() as int) =~= body@);
                assert(out@ =~= encode_spec(self@));
            },
        }
        out
    }

    /// Decode one message starting at index `from`: the message and the
    /// number of bytes it took. Malformed or incomplete data, including a
    /// declared length that overruns the buffer, is reported as truncated
    /// and consumes nothing.
    pub fn decode(buf: &Vec<u8>, from: usize) -> (r: Result<(ControlPacket, usize), DecodeError>)
        requires
            from <= buf.len(),
        ensures
            match r {
                Ok(pn) => {
                    &&& decode_spec(buf@.skip(from as int)) == Some((pn.0@, pn.1 as int))
                    &&& packet_wf(pn.0@)
                    &&& 2 <= pn.1
                    &&& from + pn.1 <= buf.len()
                },
                Err(_) => decode_spec(buf@.skip(from as int)) is None,
            },
    {
        let ghost s = buf@.skip(from as int);
        let remaining = buf.len() - from;
        if remaining < 2 {
            return Err(DecodeError::Truncated);
        }
        let tag = buf[from];
        let blen = buf[from + 1] as usize;
        proof {
            assert(s[0] == buf@[from as int]);
            assert(s[1] == buf@[from as int + 1]);
        }
        if remaining - 2 < blen {
            return Err(DecodeError::Truncated);
        }
        let bstart = from + 2;
        let ghost body = s.subrange(2, 2 + blen as int);
        proof {
            assert forall|j: int| 0 <= j < blen implies body[j] == buf@[bstart as int + j] by {
                assert(body[j] == s[2 + j]);
            }
        }
        if tag == TAG_HELLO {
            if blen != 4 {
                return Err(DecodeError::Truncated);
            }
            let sq = read_u16(buf, bstart);
            let interval = read_u16(buf, bstart + 2);
            let p = ControlPacket::Hello(Hello { seqno: SeqNo(sq), interval });
            assert(decode_hello(body) == Some(p@));
            Ok((p, 2 + blen))
        } else if tag == TAG_IHU {
            if blen != 4 && blen != 20 {
                return Err(DecodeError::Truncated);
            }
            let metric = Metric::from_wire(read_u16(buf, bstart));
            let interval = read_u16(buf, bstart + 2);
            let dest_address = if blen == 20 {
                let a = read_addr(buf, bstart + 4);
                proof {
                    assert(body.subrange(4, 20) =~= buf@.subrange(
                        bstart as int + 4,
                        bstart as int + 20,
                    ));
                }
                Some(a)
            } else {
                None
            };
            let p = ControlPacket::Ihu(Ihu { metric, interval, dest_address });
            assert(decode_ihu(body) == Some(p@));
            Ok((p, 2 + blen))
        } else if tag == TAG_UPDATE {
            if blen != 31 {
                return Err(DecodeError::Truncated);
            }
            let interval = read_u16(buf, bstart);
            let sq = read_u16(buf, bstart + 2);
            let metric = Metric::from_wire(read_u16(buf, bstart + 4));
            let prefix_len = buf[bstart + 6];
            let addr = read_addr(buf, bstart + 7);
            proof {
                assert(body.subrange(7, 23) =~= buf@.subrange(
                    bstart as int + 7,
                    bstart as int + 23,
                ));
                assert(body.subrange(23, 31) =~= buf@.subrange(
                    bstart as int + 23,
                    bstart as int + 31,
                ));
            }
            if prefix_len > 128 {
                return Err(DecodeError::Truncated);
            }
            let masked = crate::subnet::mask_addr_exec(addr, prefix_len);
            if !(masked.hi == addr.hi && masked.lo == addr.lo) {
                return Err(DecodeError::Truncated);
            }
            let router_id = RouterId(read_u64(buf, bstart + 23));
            let p = ControlPacket::Update(
                Update {
                    interval,
                    seqno: SeqNo(sq),
                    metric,
                    subnet: Subnet { addr, prefix_len },
                    router_id,
                },
            );
            assert(decode_update(body) == Some(p@));
            Ok((p, 2 + blen))
        } else {
            let mut body_vec: Vec<u8> = Vec::new();
            let mut k: usize = 0;
            while k < blen
                invariant
                    k <= blen,
                    bstart + blen <= buf.len(),
                    bstart == from + 2,
                    body_vec@ == buf@.subrange(bstart as int, bstart as int + k as int),
                decreases blen - k,
            {
                body_vec.push(buf[bstart + k]);
                assert(body_vec@ =~= buf@.subrange(bstart as int, bstart as int + k as int + 1));
                k = k + 1;
            }
            let p = ControlPacket::Skip { tag, body: body_vec };
            assert(body_vec@ =~= body);
            Ok((p, 2 + blen))
        }
    }
}


/// Re-encoding the value read from two bytes gives the bytes back.
proof fn lemma_u16_bytes_inverse(b0: u8, b1: u8)
    ensures
        u16_bytes(u16_from_bytes(b0, b1)) =~= seq![b0, b1],
{
    assert((((((b0 as u16) << 8) | (b1 as u16)) as u16) >> 8) as u8 == b0 && ((((b0 as u16) << 8)
        | (b1 as u16)) as u16) as u8 == b1) by (bit_vector);
}

/// Re-encoding the value read from eight bytes gives the bytes back.
proof fn lemma_u64_bytes_inverse(b: Seq<u8>)
    requires
        b.len() == 8,
    ensures
        u64_bytes(u64_from_bytes(b)) =~= b,
{
    let b0 = b[0];
    let b1 = b[1];
    let b2 = b[2];
    let b3 = b[3];
    let b4 = b[4];
    let b5 = b[5];
    let b6 = b[6];
    let b7 = b[7];
    let v = u64_from_bytes(b);
    assert(v == ((((b0 as u64) << 56) | ((b1 as u64) << 48) | ((b2 as u64) << 40) | ((b3
        as u64) << 32) | ((b4 as u64) << 24) | ((b5 as u64) << 16) | ((b6 as u64) << 8) | (b7
        as u64)) as u64));
    assert({
        let x = (((b0 as u64) << 56) | ((b1 as u64) << 48) | ((b2 as u64) << 40) | ((b3
            as u64) << 32) | ((b4 as u64) << 24) | ((b5 as u64) << 16) | ((b6 as u64) << 8) | (b7
            as u64)) as u64;
        &&& (x >> 56) as u8 == b0
        &&& (x >> 48) as u8 == b1
        &&& (x >> 40) as u8 == b2
        &&& (x >> 32) as u8 == b3
        &&& (x >> 24) as u8 == b4
        &&& (x >> 16) as u8 == b5
        &&& (x >> 8) as u8 == b6
        &&& x as u8 == b7
    }) by (bit_vector);
}

/// Re-encoding the address read from sixteen bytes gives the bytes back.
proof fn lemma_addr_bytes_inverse(b: Seq<u8>)
    requires
        b.len() == 16,
    ensures
        addr_bytes(addr_from_bytes(b)) =~= b,
{
    lemma_u64_bytes_inverse(b.subrange(0, 8));
    lemma_u64_bytes_inverse(b.subrange(8, 16));
}

/// Soundness of the decoder: whatever it accepts is a well-formed message
/// whose canonical encoding is exactly the bytes it consumed. Together with
/// the round-trip law this makes the wire form of every constructible
/// message unique.
pub proof fn lemma_decode_sound(s: Seq<u8>)
    ensures
        decode_spec(s) matches Some(pn) ==> {
            &&& packet_wf(pn.0)
            &&& 2 <= pn.1 <= s.len()
            &&& s.subrange(0, pn.1) == encode_spec(pn.0)
        },
{
    match decode_spec(s) {
        None => {},
        Some((p, n)) => {
            let tag = s[0];
        let blen = s[1] as int;
        let body = s.subrange(2, 2 + blen);
        match p {
            PacketV::Hello(h) => {
                lemma_u16_bytes_inverse(body[0], body[1]);
                lemma_u16_bytes_inverse(body[2], body[3]);
                assert(packet_body(p) =~= body);
            },
            PacketV::Ihu(i) => {
                lemma_u16_bytes_inverse(body[0], body[1]);
                lemma_u16_bytes_inverse(body[2], body[3]);
                crate::metric::lemma_metric_wire_inverse(u16_from_bytes(body[0], body[1]));
                match i.dest_address {
                    None => {},
                    Some(_) => {
                        lemma_addr_bytes_inverse(body.subrange(4, 20));
                    },
                }
                assert(packet_body(p) =~= body);
            },
            PacketV::Update(u) => {
                lemma_u16_bytes_inverse(body[0], body[1]);
                lemma_u16_bytes_inverse(body[2], body[3]);
                lemma_u16_bytes_inverse(body[4], body[5]);
                crate::metric::lemma_metric_wire_inverse(u16_from_bytes(body[4], body[5]));
                lemma_addr_bytes_inverse(body.subrange(7, 23));
                lemma_u64_bytes_inverse(body.subrange(23, 31));
                assert(packet_body(p) =~= body);
            },
            PacketV::Skip { .. } => {
                assert(packet_body(p) =~= body);
            },
        }
            assert(s.subrange(0, n) =~= encode_spec(p));
        },
    }
}

} // verus!
