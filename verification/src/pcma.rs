//! G.711 A-law: companding between 16-bit PCM and 8-bit wire bytes, and
//! the packet-level codec built on it.
//!
//! The compander is specified arithmetically over the pre-XOR code
//! (A-law masks every byte with `0x55` on the wire) and proved stable:
//! re-encoding the expansion of any code byte reproduces the byte.

use vstd::prelude::*;
use vstd::arithmetic::power2::{lemma2_to64, pow2};
use vstd::arithmetic::div_mod::{lemma_fundamental_div_mod, lemma_fundamental_div_mod_converse};
use crate::media::{Media, MediaView};
use crate::rtp::{RtpPacket, RtpPacketView};

verus! {

/// Logarithmic compression of a 11-bit magnitude prefix into a 7-bit
/// code: segment in the high bits, mantissa in the low four.
pub open spec fn alaw_compress(ix: int) -> int {
    if ix < 32 {
        ix
    } else if ix < 64 {
        ix / 2 + 16
    } else if ix < 128 {
        ix / 4 + 32
    } else if ix < 256 {
        ix / 8 + 48
    } else if ix < 512 {
        ix / 16 + 64
    } else if ix < 1024 {
        ix / 32 + 80
    } else {
        ix / 64 + 96
    }
}

/// The pre-XOR A-law code of a sample: compressed magnitude plus the
/// sign bit for non-negative samples.
pub open spec fn encode_z(x: int) -> int {
    let mag = if x < 0 {
        -1 - x
    } else {
        x
    };
    let code = alaw_compress(mag / 16);
    if x >= 0 {
        code + 128
    } else {
        code
    }
}

/// A-law companding of one 16-bit sample.
pub open spec fn encode_spec(x: int) -> u8 {
    (encode_z(x) as u8) ^ 0x55
}

/// The sample value of a pre-XOR code.
pub open spec fn decode_z(z: int) -> int {
    let ix = z % 128;
    let e = ix / 16;
    let m = ix % 16;
    let v = if e == 0 {
        16 * m + 8
    } else {
        (264 + 16 * m) * pow2((e - 1) as nat) as int
    };
    if z >= 128 {
        v
    } else {
        -v
    }
}

/// A-law expansion of one code byte.
pub open spec fn decode_spec(y: u8) -> int {
    decode_z((y ^ 0x55) as int)
}

/// Companding one sample.
pub fn encode(x: i16) -> (r: u8)
    ensures
        r == encode_spec(x as int),
{
    let mag: i32 = if x < 0 {
        -1 - (x as i32)
    } else {
        x as i32
    };
    let ix: i32 = mag / 16;
    let code: i32 = if ix < 32 {
        ix
    } else if ix < 64 {
        ix / 2 + 16
    } else if ix < 128 {
        ix / 4 + 32
    } else if ix < 256 {
        ix / 8 + 48
    } else if ix < 512 {
        ix / 16 + 64
    } else if ix < 1024 {
        ix / 32 + 80
    } else {
        ix / 64 + 96
    };
    let z: i32 = if x >= 0 {
        code + 128
    } else {
        code
    };
    assert(0 <= z <= 255);
    (z as u8) ^ 0x55
}

/// Expanding one code byte.
pub fn decode(y: u8) -> (r: i16)
    ensures
        r as int == decode_spec(y),
{
    proof {
        lemma2_to64();
    }
    let z: i32 = (y ^ 0x55) as i32;
    let ix: i32 = z % 128;
    let e: i32 = ix / 16;
    let m: i32 = ix % 16;
    let p: i32 = if e <= 1 {
        1
    } else if e == 2 {
        2
    } else if e == 3 {
        4
    } else if e == 4 {
        8
    } else if e == 5 {
        16
    } else if e == 6 {
        32
    } else {
        64
    };
    assert(e >= 1 ==> p as int == pow2((e - 1) as nat) as int);
    assert(0 <= (264 + 16 * m) * p <= 32256) by (nonlinear_arith)
        requires
            0 <= m <= 15,
            1 <= p <= 64,
    ;
    let v: i32 = if e == 0 {
        16 * m + 8
    } else {
        (264 + 16 * m) * p
    };
    if z >= 128 {
        v as i16
    } else {
        (-v) as i16
    }
}

/// Expanded magnitudes stay inside the 16-bit sample range.
pub proof fn lemma_alaw_decode_bounds(y: u8)
    ensures
        -32256 <= decode_spec(y) <= 32256,
{
    lemma2_to64();
    let w = y ^ 0x55;
    let z = w as int;
    assert(0 <= z <= 255);
    let ix = z % 128;
    let e = ix / 16;
    let m = ix % 16;
    assert(0 <= ix <= 127 && 0 <= e <= 7 && 0 <= m <= 15);
    if e >= 1 {
        let p = pow2((e - 1) as nat) as int;
        assert(1 <= p <= 64);
        assert(8 <= (264 + 16 * m) * p <= 32256) by (nonlinear_arith)
            requires
                0 <= m <= 15,
                1 <= p <= 64,
        ;
    }
}

proof fn lemma_alaw_z_stable(z: int)
    requires
        0 <= z <= 255,
    ensures
        encode_z(decode_z(z)) == z,
{
    lemma2_to64();
    let ix = z % 128;
    let e = ix / 16;
    let m = ix % 16;
    lemma_fundamental_div_mod(z, 128);
    lemma_fundamental_div_mod(ix, 16);
    assert(0 <= ix <= 127 && 0 <= e <= 7 && 0 <= m <= 15);
    assert(ix == 16 * e + m);
    if z >= 128 {
        assert(z == 128 + ix);
    } else {
        assert(z == ix);
    }
    let x = decode_z(z);
    if e == 0 {
        let v = 16 * m + 8;
        assert(x == if z >= 128 { v } else { -v });
        if z >= 128 {
            lemma_fundamental_div_mod_converse(v, 16, m, 8);
            assert(alaw_compress(v / 16) == m);
        } else {
            lemma_fundamental_div_mod_converse(v - 1, 16, m, 7);
            assert(alaw_compress((v - 1) / 16) == m);
        }
    } else {
        let p = pow2((e - 1) as nat) as int;
        let v = (264 + 16 * m) * p;
        assert(x == if z >= 128 { v } else { -v });
        let mag = if z >= 128 { v } else { v - 1 };
        // one concrete case per segment: the compressed prefix comes
        // back to 16e + m
        if e == 1 {
            assert(p == 1);
            assert(v == 264 + 16 * m) by (nonlinear_arith)
                requires
                    v == (264 + 16 * m) * p,
                    p == 1,
            ;
            if z >= 128 {
                lemma_fundamental_div_mod_converse(v, 16, 16 + m, 8);
            } else {
                lemma_fundamental_div_mod_converse(v - 1, 16, 16 + m, 7);
            }
            assert(alaw_compress(mag / 16) == 16 + m);
        } else if e == 2 {
            assert(p == 2);
            assert(v == 16 * (33 + 2 * m)) by (nonlinear_arith)
                requires
                    v == (264 + 16 * m) * p,
                    p == 2,
            ;
            if z >= 128 {
                lemma_fundamental_div_mod_converse(v, 16, 33 + 2 * m, 0);
                lemma_fundamental_div_mod_converse(33 + 2 * m, 2, 16 + m, 1);
            } else {
                lemma_fundamental_div_mod_converse(v - 1, 16, 32 + 2 * m, 15);
                lemma_fundamental_div_mod_converse(32 + 2 * m, 2, 16 + m, 0);
            }
            assert(alaw_compress(mag / 16) == 32 + m);
        } else if e == 3 {
            assert(p == 4);
            assert(v == 16 * (66 + 4 * m) + 0) by (nonlinear_arith)
                requires
                    v == (264 + 16 * m) * p,
                    p == 4,
            ;
            if z >= 128 {
                lemma_fundamental_div_mod_converse(v, 16, 66 + 4 * m, 0);
                lemma_fundamental_div_mod_converse(66 + 4 * m, 4, 16 + m, 2);
            } else {
                lemma_fundamental_div_mod_converse(v - 1, 16, 65 + 4 * m, 15);
                lemma_fundamental_div_mod_converse(65 + 4 * m, 4, 16 + m, 1);
            }
            assert(alaw_compress(mag / 16) == 48 + m);
        } else if e == 4 {
            assert(p == 8);
            assert(v == 16 * (132 + 8 * m)) by (nonlinear_arith)
                requires
                    v == (264 + 16 * m) * p,
                    p == 8,
            ;
            if z >= 128 {
                lemma_fundamental_div_mod_converse(v, 16, 132 + 8 * m, 0);
                lemma_fundamental_div_mod_converse(132 + 8 * m, 8, 16 + m, 4);
            } else {
                lemma_fundamental_div_mod_converse(v - 1, 16, 131 + 8 * m, 15);
                lemma_fundamental_div_mod_converse(131 + 8 * m, 8, 16 + m, 3);
            }
            assert(alaw_compress(mag / 16) == 64 + m);
        } else if e == 5 {
            assert(p == 16);
            assert(v == 16 * (264 + 16 * m)) by (nonlinear_arith)
                requires
                    v == (264 + 16 * m) * p,
                    p == 16,
            ;
            if z >= 128 {
                lemma_fundamental_div_mod_converse(v, 16, 264 + 16 * m, 0);
                lemma_fundamental_div_mod_converse(264 + 16 * m, 16, 16 + m, 8);
            } else {
                lemma_fundamental_div_mod_converse(v - 1, 16, 263 + 16 * m, 15);
                lemma_fundamental_div_mod_converse(263 + 16 * m, 16, 16 + m, 7);
            }
            assert(alaw_compress(mag / 16) == 80 + m);
        } else if e == 6 {
            assert(p == 32);
            assert(v == 16 * (528 + 32 * m)) by (nonlinear_arith)
                requires
                    v == (264 + 16 * m) * p,
                    p == 32,
            ;
            if z >= 128 {
                lemma_fundamental_div_mod_converse(v, 16, 528 + 32 * m, 0);
                lemma_fundamental_div_mod_converse(528 + 32 * m, 32, 16 + m, 16);
            } else {
                lemma_fundamental_div_mod_converse(v - 1, 16, 527 + 32 * m, 15);
                lemma_fundamental_div_mod_converse(527 + 32 * m, 32, 16 + m, 15);
            }
            assert(alaw_compress(mag / 16) == 96 + m);
        } else {
            assert(p == 64);
            assert(v == 16 * (1056 + 64 * m)) by (nonlinear_arith)
                requires
                    v == (264 + 16 * m) * p,
                    p == 64,
            ;
            if z >= 128 {
                lemma_fundamental_div_mod_converse(v, 16, 1056 + 64 * m, 0);
                lemma_fundamental_div_mod_converse(1056 + 64 * m, 64, 16 + m, 32);
            } else {
                lemma_fundamental_div_mod_converse(v - 1, 16, 1055 + 64 * m, 15);
                lemma_fundamental_div_mod_converse(1055 + 64 * m, 64, 16 + m, 31);
            }
            assert(alaw_compress(mag / 16) == 112 + m);
        }
    }
}

/// Re-encoding the expansion of any A-law code byte reproduces the
/// byte exactly.
pub proof fn lemma_alaw_code_stable(y: u8)
    ensures
        encode_spec(decode_spec(y)) == y,
{
    let w = y ^ 0x55;
    assert(0 <= w as int <= 255);
    lemma_alaw_z_stable(w as int);
    assert(encode_z(decode_z(w as int)) == w as int);
    assert((w as int as u8) == w);
    assert((y ^ 0x55) ^ 0x55 == y) by (bit_vector);
}

/// Companding is idempotent on every 16-bit sample: encoding,
/// expanding, and encoding again gives the first code back.
pub proof fn lemma_pcma_round_trip_stable(x: i16)
    ensures
        encode_spec(decode_spec(encode_spec(x as int))) == encode_spec(x as int),
{
    lemma_alaw_code_stable(encode_spec(x as int));
}

// ------------------------------------------------------------------
// The packet-level codec.
// ------------------------------------------------------------------

/// A-law companding of a whole frame.
pub open spec fn encoded_frame(s: Seq<i16>) -> Seq<u8> {
    s.map_values(|v: i16| encode_spec(v as int))
}

/// A-law expansion of a whole payload.
pub open spec fn decoded_payload(p: Seq<u8>) -> Seq<i16> {
    p.map_values(|b: u8| decode_spec(b) as i16)
}

/// The A-law codec: wire-domain sample buffer, RTP packetizer state,
/// and the negotiated parameters.
pub struct PcmaCodec {
    pub ptime: u32,
    pub payload_type: u8,
    pub sample_rate: u32,
    pub sequence_number: u16,
    pub timestamp: u32,
    pub ssrc: u32,
    pub buffer_out: Vec<i16>,
}

/// Ghost image of the codec state.
#[verifier::ext_equal]
pub struct PcmaCodecView {
    pub ptime: u32,
    pub payload_type: u8,
    pub sample_rate: u32,
    pub sequence_number: u16,
    pub timestamp: u32,
    pub ssrc: u32,
    pub buffer_out: Seq<i16>,
}

impl View for PcmaCodec {
    type V = PcmaCodecView;

    open spec fn view(&self) -> PcmaCodecView {
        PcmaCodecView {
            ptime: self.ptime,
            payload_type: self.payload_type,
            sample_rate: self.sample_rate,
            sequence_number: self.sequence_number,
            timestamp: self.timestamp,
            ssrc: self.ssrc,
            buffer_out: self.buffer_out@,
        }
    }
}

/// Samples in one packet of this codec state.
pub open spec fn spf_of(v: PcmaCodecView) -> int {
    (v.sample_rate as int / 1000) * v.ptime as int
}

/// The packet a send tick emits from this state (meaningful only when
/// the buffer is not empty).
pub open spec fn tick_packet(v: PcmaCodecView) -> RtpPacketView {
    RtpPacketView {
        marker: false,
        payload_type: v.payload_type,
        sequence_number: v.sequence_number,
        timestamp: v.timestamp,
        ssrc: v.ssrc,
        payload: encoded_frame(crate::pcmu::frame_of(v.buffer_out, spf_of(v))),
    }
}

/// The packets a send tick emits: none on an empty buffer, else one.
pub open spec fn tick_packets(v: PcmaCodecView) -> Seq<RtpPacketView> {
    if v.buffer_out.len() == 0 {
        Seq::empty()
    } else {
        seq![tick_packet(v)]
    }
}

/// The codec state after a send tick.
pub open spec fn tick_step(v: PcmaCodecView) -> PcmaCodecView {
    if v.buffer_out.len() == 0 {
        v
    } else {
        let spf = spf_of(v);
        let take = if v.buffer_out.len() >= spf {
            spf
        } else {
            v.buffer_out.len() as int
        };
        PcmaCodecView {
            ptime: v.ptime,
            payload_type: v.payload_type,
            sample_rate: v.sample_rate,
            sequence_number: (((v.sequence_number as int) + 1) % 0x10000) as u16,
            timestamp: (((v.timestamp as int) + spf) % 0x100000000) as u32,
            ssrc: v.ssrc,
            buffer_out: v.buffer_out.skip(take),
        }
    }
}

/// Workable negotiated parameters, at the view level.
pub open spec fn wf_view(v: PcmaCodecView) -> bool {
    v.payload_type < 128 && 1 <= spf_of(v) <= 192000
}

/// The codec state after queueing a media value.
pub open spec fn append_step(v: PcmaCodecView, media: MediaView) -> PcmaCodecView {
    match media {
        MediaView::Audio(samples) => {
            if v.buffer_out.len() > crate::pcmu::BUFFER_SOFT_CAP as int {
                v
            } else {
                PcmaCodecView {
                    ptime: v.ptime,
                    payload_type: v.payload_type,
                    sample_rate: v.sample_rate,
                    sequence_number: v.sequence_number,
                    timestamp: v.timestamp,
                    ssrc: v.ssrc,
                    buffer_out: v.buffer_out + samples,
                }
            }
        },
        _ => v,
    }
}

/// Whether negotiated parameters can drive this codec: a seven-bit
/// payload type and a sane frame size.
pub open spec fn usable_match(cm: crate::sdp::CodecMatch) -> bool {
    cm.payload_type < 128 && 1 <= (cm.frequency as int / 1000) * cm.ptime as int <= 192000
}

impl PcmaCodec {
    /// Samples in one packet: `sample_rate / 1000 · ptime`.
    pub open spec fn samples_per_frame(&self) -> int {
        (self.sample_rate as int / 1000) * self.ptime as int
    }

    /// Negotiated parameters the packetizer can work with.
    pub open spec fn wf(&self) -> bool {
        wf_view(self@)
    }

    /// A fresh codec around negotiated parameters; sequence number,
    /// timestamp and SSRC start at the given seeds.
    pub fn new(payload_type: u8, sample_rate: u32, ptime: u32, seq_seed: u16, ts_seed: u32, ssrc: u32) -> (r: Self)
        requires
            payload_type < 128,
            1 <= (sample_rate as int / 1000) * ptime as int <= 192000,
        ensures
            r.payload_type == payload_type,
            r.sample_rate == sample_rate,
            r.ptime == ptime,
            r.sequence_number == seq_seed,
            r.timestamp == ts_seed,
            r.ssrc == ssrc,
            r.buffer_out@ =~= Seq::<i16>::empty(),
            r.wf(),
    {
        PcmaCodec {
            ptime,
            payload_type,
            sample_rate,
            sequence_number: seq_seed,
            timestamp: ts_seed,
            ssrc,
            buffer_out: Vec::new(),
        }
    }

    /// Whether this codec can carry the media value.
    pub fn can_handle_media(&self, media: &Media) -> (r: bool)
        ensures
            r == (media@ is Audio),
    {
        match media {
            Media::Audio(_) => true,
            _ => false,
        }
    }

    /// Expands an RTP payload into PCM samples.
    pub fn decode_payload(&self, payload: &[u8]) -> (r: Media)
        ensures
            r@ == MediaView::Audio(decoded_payload(payload@)),
    {
        let n = payload.len();
        let mut samples: Vec<i16> = Vec::new();
        let mut i: usize = 0;
        while i < n
            invariant
                n == payload@.len(),
                0 <= i <= n,
                samples@ == decoded_payload(payload@.take(i as int)),
            decreases n - i,
        {
            let v = decode(payload[i]);
            proof {
                lemma_alaw_decode_bounds(payload@[i as int]);
            }
            samples.push(v);
            proof {
                assert(payload@.take(i + 1).drop_last() =~= payload@.take(i as int));
                assert(samples@ =~= decoded_payload(payload@.take(i + 1)));
            }
            i += 1;
        }
        proof {
            assert(payload@.take(n as int) =~= payload@);
        }
        Media::Audio(samples)
    }

    /// Queues outbound audio, dropping it once the buffer is over the
    /// soft cap; other media values are ignored.
    pub fn append_to_buffer(&mut self, media: Media)
        ensures
            final(self)@ == append_step(old(self)@, media@),
    {
        if self.buffer_out.len() > crate::pcmu::BUFFER_SOFT_CAP {
            assert(self@ =~= append_step(old(self)@, media@));
            return ;
        }
        match media {
            Media::Audio(mut samples) => {
                self.buffer_out.append(&mut samples);
            }
            _ => {}
        }
        assert(self@ =~= append_step(old(self)@, media@));
    }

    /// Packetizes one frame from the buffer: nothing when the buffer is
    /// empty, otherwise one packet holding a zero-padded frame, with
    /// the sequence number stepped by one and the timestamp by one
    /// frame (both wrapping).
    pub fn get_next_packet(&mut self) -> (r: Vec<RtpPacket>)
        requires
            old(self).wf(),
        ensures
            final(self).wf(),
            r.deep_view() == tick_packets(old(self)@),
            final(self)@ == tick_step(old(self)@),
    {
        let mut r: Vec<RtpPacket> = Vec::new();
        if self.buffer_out.len() == 0 {
            assert(r.deep_view() =~= tick_packets(old(self)@));
            assert(self@ =~= tick_step(old(self)@));
            return r;
        }
        let spf = ((self.sample_rate / 1000) * self.ptime) as usize;
        let blen = self.buffer_out.len();
        let take = if blen >= spf {
            spf
        } else {
            blen
        };
        let mut payload: Vec<u8> = Vec::new();
        let mut i: usize = 0;
        while i < take
            invariant
                take <= blen == self.buffer_out@.len(),
                0 <= i <= take,
                payload@ == encoded_frame(self.buffer_out@.take(i as int)),
            decreases take - i,
        {
            let b = encode(self.buffer_out[i]);
            payload.push(b);
            proof {
                assert(self.buffer_out@.take(i + 1).drop_last() =~= self.buffer_out@.take(
                    i as int,
                ));
                assert(payload@ =~= encoded_frame(self.buffer_out@.take(i + 1)));
            }
            i += 1;
        }
        proof {
            assert(self.buffer_out@.take(take as int) + crate::pcmu::zeros(0)
                =~= self.buffer_out@.take(take as int));
        }
        while payload.len() < spf
            invariant
                take <= self.buffer_out@.len(),
                take <= spf <= 192000,
                take <= payload@.len() <= spf,
                payload@ == encoded_frame(
                    self.buffer_out@.take(take as int) + crate::pcmu::zeros(
                        payload@.len() - take,
                    ),
                ),
            decreases spf - payload@.len(),
        {
            let b = encode(0);
            payload.push(b);
            proof {
                let prev = self.buffer_out@.take(take as int) + crate::pcmu::zeros(
                    payload@.len() - 1 - take as int,
                );
                let now = self.buffer_out@.take(take as int) + crate::pcmu::zeros(
                    payload@.len() - take as int,
                );
                assert(now.drop_last() =~= prev);
                assert(now.last() == 0i16);
                assert(payload@ =~= encoded_frame(now));
            }
        }
        proof {
            let buf = self.buffer_out@;
            if buf.len() >= spf as int {
                assert(crate::pcmu::frame_of(buf, spf as int) =~= buf.take(take as int)
                    + crate::pcmu::zeros(spf - take as int));
            } else {
                assert(buf.take(take as int) =~= buf);
                assert(crate::pcmu::frame_of(buf, spf as int) =~= buf.take(take as int)
                    + crate::pcmu::zeros(spf - take as int));
            }
            assert(payload@ == encoded_frame(crate::pcmu::frame_of(buf, spf as int)));
        }
        let packet = RtpPacket {
            marker: false,
            payload_type: self.payload_type,
            sequence_number: self.sequence_number,
            timestamp: self.timestamp,
            ssrc: self.ssrc,
            payload,
        };
        self.sequence_number = if self.sequence_number == 65535 {
            0
        } else {
            self.sequence_number + 1
        };
        let ts2: u64 = ((self.timestamp as u64) + (spf as u64)) % 0x100000000;
        self.timestamp = ts2 as u32;
        let rest = self.buffer_out.split_off(take);
        self.buffer_out = rest;
        r.push(packet);
        proof {
            assert(r.deep_view() =~= tick_packets(old(self)@));
            assert(self@ =~= tick_step(old(self)@));
        }
        r
    }

    /// Builds the codec from the first matching rtpmap of the remote
    /// description, when its negotiated parameters are workable. The
    /// sequence number, timestamp and SSRC start at random seeds.
    pub fn try_from_sdp_session(sdp: &crate::sdp::SdpSession) -> (r: Result<
        Option<PcmaCodec>,
        crate::errors::SipError,
    >)
        ensures
            r is Ok,
            ({
                let f = crate::sdp::find_codec(
                    sdp@.media,
                    crate::ascii::ascii_bytes("pcma"@),
                );
                match r {
                    Ok(Some(c)) => {
                        &&& f is Some
                        &&& usable_match(f.unwrap())
                        &&& c.payload_type == f.unwrap().payload_type
                        &&& c.sample_rate == f.unwrap().frequency
                        &&& c.ptime == f.unwrap().ptime
                        &&& c.buffer_out@ == Seq::<i16>::empty()
                        &&& c.wf()
                    },
                    Ok(None) => !(f is Some && usable_match(f.unwrap())),
                    Err(_) => false,
                }
            }),
    {
        proof {
            reveal_strlit("pcma");
        }
        let name = crate::ascii::str_bytes("pcma");
        match crate::sdp::find_codec_exec(sdp, name.as_slice()) {
            None => Ok(None),
            Some((pt, freq, _channels, ptime)) => {
                if pt >= 128 {
                    return Ok(None);
                }
                let fk: u64 = (freq / 1000) as u64;
                let pt64: u64 = ptime as u64;
                assert(fk * pt64 < 0x10000000000000000) by (nonlinear_arith)
                    requires
                        fk <= 0xFFFFFFFF,
                        pt64 <= 0xFFFFFFFF,
                ;
                let spf: u64 = fk * pt64;
                if spf < 1 || spf > 192000 {
                    return Ok(None);
                }
                let seq_seed = (crate::entropy::random_u32() % 65536) as u16;
                let ts_seed = crate::entropy::random_u32();
                let ssrc = crate::entropy::random_u32();
                Ok(Some(PcmaCodec::new(pt, freq, ptime, seq_seed, ts_seed, ssrc)))
            }
        }
    }

    /// The payload type negotiated for A-law audio.
    pub fn get_payload_type(&self) -> (r: u8)
        ensures
            r == self.payload_type,
    {
        self.payload_type
    }
}

} // verus!
