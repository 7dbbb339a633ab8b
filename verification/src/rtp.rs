//! The RTP packet format (RFC 3550 basic header, no extensions).

use vstd::prelude::*;
use crate::ascii::subvec;
use crate::errors::SipError;

verus! {

/// One RTP packet: version 2, no padding, no extension, no CSRC list.
#[derive(Clone, Debug)]
pub struct RtpPacket {
    pub marker: bool,
    pub payload_type: u8,
    pub sequence_number: u16,
    pub timestamp: u32,
    pub ssrc: u32,
    pub payload: Vec<u8>,
}

/// Ghost image of a packet.
pub struct RtpPacketView {
    pub marker: bool,
    pub payload_type: u8,
    pub sequence_number: u16,
    pub timestamp: u32,
    pub ssrc: u32,
    pub payload: Seq<u8>,
}

impl View for RtpPacket {
    type V = RtpPacketView;

    open spec fn view(&self) -> RtpPacketView {
        RtpPacketView {
            marker: self.marker,
            payload_type: self.payload_type,
            sequence_number: self.sequence_number,
            timestamp: self.timestamp,
            ssrc: self.ssrc,
            payload: self.payload@,
        }
    }
}

impl DeepView for RtpPacket {
    type V = RtpPacketView;

    open spec fn deep_view(&self) -> RtpPacketView {
        self@
    }
}

/// Big-endian bytes of a 16-bit value.
pub open spec fn be16(n: u16) -> Seq<u8> {
    seq![(n as int / 256) as u8, (n as int % 256) as u8]
}

/// Big-endian bytes of a 32-bit value.
pub open spec fn be32(n: u32) -> Seq<u8> {
    seq![
        (n as int / 0x1000000) as u8,
        ((n as int / 0x10000) % 256) as u8,
        ((n as int / 256) % 256) as u8,
        (n as int % 256) as u8,
    ]
}

/// The wire bytes of a packet; a 12-byte header, then the payload.
/// Valid only when the payload type fits seven bits.
pub open spec fn rtp_bytes(p: RtpPacketView) -> Seq<u8> {
    seq![128u8, ((if p.marker { 128int } else { 0int }) + p.payload_type % 128) as u8] + be16(
        p.sequence_number,
    ) + be32(p.timestamp) + be32(p.ssrc) + p.payload
}

fn push_be16(out: &mut Vec<u8>, n: u16)
    ensures
        final(out)@ == old(out)@ + be16(n),
{
    out.push((n / 256) as u8);
    out.push((n % 256) as u8);
    assert(out@ =~= old(out)@ + be16(n));
}

fn push_be32(out: &mut Vec<u8>, n: u32)
    ensures
        final(out)@ == old(out)@ + be32(n),
{
    out.push((n / 0x1000000) as u8);
    out.push(((n / 0x10000) % 256) as u8);
    out.push(((n / 256) % 256) as u8);
    out.push((n % 256) as u8);
    assert(out@ =~= old(out)@ + be32(n));
}

impl RtpPacket {
    /// Serializes the packet for the wire.
    pub fn marshal(&self) -> (r: Vec<u8>)
        requires
            self.payload_type < 128,
        ensures
            r@ == rtp_bytes(self@),
    {
        let mut out: Vec<u8> = Vec::new();
        out.push(128);
        if self.marker {
            out.push(128 + self.payload_type);
        } else {
            out.push(self.payload_type);
        }
        push_be16(&mut out, self.sequence_number);
        push_be32(&mut out, self.timestamp);
        push_be32(&mut out, self.ssrc);
        out.extend_from_slice(self.payload.as_slice());
        assert(out@ =~= rtp_bytes(self@));
        out
    }
}

/// What `unmarshal` reads from wire bytes, when they carry a version-2
/// packet without padding, extension, or CSRC entries.
pub open spec fn spec_unmarshal(b: Seq<u8>) -> Option<RtpPacketView> {
    if b.len() >= 12 && b[0] == 128 {
        Some(
            RtpPacketView {
                marker: b[1] as int / 128 == 1,
                payload_type: (b[1] as int % 128) as u8,
                sequence_number: (b[2] as int * 256 + b[3] as int) as u16,
                timestamp: (b[4] as int * 0x1000000 + b[5] as int * 0x10000 + b[6] as int * 256
                    + b[7] as int) as u32,
                ssrc: (b[8] as int * 0x1000000 + b[9] as int * 0x10000 + b[10] as int * 256 + b[11]
                    as int) as u32,
                payload: b.skip(12),
            },
        )
    } else {
        None
    }
}

/// Parses wire bytes into a packet. Packets with padding, an extension,
/// CSRC entries, or another version are rejected.
pub fn unmarshal(b: &[u8]) -> (r: Result<RtpPacket, SipError>)
    ensures
        match r {
            Ok(p) => spec_unmarshal(b@) == Some(p@),
            Err(e) => spec_unmarshal(b@) is None && e == SipError::MalformedMessage,
        },
{
    let n = b.len();
    if n < 12 || b[0] != 128 {
        return Err(SipError::MalformedMessage);
    }
    let marker = b[1] / 128 == 1;
    let payload_type = b[1] % 128;
    let sequence_number = (b[2] as u16) * 256 + (b[3] as u16);
    let timestamp = (b[4] as u32) * 0x1000000 + (b[5] as u32) * 0x10000 + (b[6] as u32) * 256 + (
    b[7] as u32);
    let ssrc = (b[8] as u32) * 0x1000000 + (b[9] as u32) * 0x10000 + (b[10] as u32) * 256 + (
    b[11] as u32);
    let payload = subvec(b, 12, n);
    let p = RtpPacket { marker, payload_type, sequence_number, timestamp, ssrc, payload };
    assert(p@.payload =~= b@.skip(12));
    Ok(p)
}

/// Serialization round-trips: parsing the wire bytes of a packet gives
/// the packet back.
pub proof fn lemma_rtp_roundtrip(p: RtpPacketView)
    requires
        p.payload_type < 128,
    ensures
        spec_unmarshal(rtp_bytes(p)) == Some(p),
{
    let b = rtp_bytes(p);
    assert(b.len() == 12 + p.payload.len());
    assert(b[0] == 128);
    let q = spec_unmarshal(b).unwrap();
    assert(b[1] == (if p.marker { 128int } else { 0int }) + p.payload_type % 128);
    assert(q.marker == p.marker && q.payload_type == p.payload_type);
    assert(b[2] == p.sequence_number as int / 256 && b[3] == p.sequence_number as int % 256);
    assert(q.sequence_number == p.sequence_number);
    assert(b[4] == p.timestamp as int / 0x1000000);
    assert(b[5] == (p.timestamp as int / 0x10000) % 256);
    assert(b[6] == (p.timestamp as int / 256) % 256);
    assert(b[7] == p.timestamp as int % 256);
    assert(q.timestamp as int == (p.timestamp as int / 0x1000000) * 0x1000000 + ((p.timestamp
        as int / 0x10000) % 256) * 0x10000 + ((p.timestamp as int / 256) % 256) * 256 + p.timestamp
        as int % 256);
    assert(q.timestamp == p.timestamp) by (nonlinear_arith)
        requires
            q.timestamp as int == (p.timestamp as int / 0x1000000) * 0x1000000 + ((p.timestamp
                as int / 0x10000) % 256) * 0x10000 + ((p.timestamp as int / 256) % 256) * 256
                + p.timestamp as int % 256,
            0 <= p.timestamp <= u32::MAX,
            0 <= q.timestamp <= u32::MAX,
    ;
    assert(q.ssrc == p.ssrc) by (nonlinear_arith)
        requires
            q.ssrc as int == (p.ssrc as int / 0x1000000) * 0x1000000 + ((p.ssrc as int / 0x10000)
                % 256) * 0x10000 + ((p.ssrc as int / 256) % 256) * 256 + p.ssrc as int % 256,
            0 <= p.ssrc <= u32::MAX,
            0 <= q.ssrc <= u32::MAX,
    ;
    assert(q.payload =~= p.payload);
}

} // verus!
