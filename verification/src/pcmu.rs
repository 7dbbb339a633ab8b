//! G.711 µ-law: companding between 16-bit PCM and 8-bit wire bytes, and
//! the packet-level codec built on it.
//!
//! The compander is specified arithmetically ([`encode_spec`],
//! [`decode_spec`]) and proved stable: re-encoding a decoded code byte
//! reproduces the byte, for every code except the negative zero `0x7F`.

use vstd::prelude::*;
use vstd::arithmetic::power2::{
    lemma2_to64, lemma_pow2_adds, lemma_pow2_pos, lemma_pow2_strictly_increases, pow2,
};
use vstd::arithmetic::div_mod::{
    lemma_fundamental_div_mod, lemma_fundamental_div_mod_converse, lemma_div_is_ordered,
};
use crate::media::{Media, MediaView};
use crate::rtp::{RtpPacket, RtpPacketView};

verus! {

/// The µ-law segment (1 to 8) of a biased magnitude.
pub open spec fn mu_segment(a: int) -> int {
    if a < 64 {
        1
    } else if a < 128 {
        2
    } else if a < 256 {
        3
    } else if a < 512 {
        4
    } else if a < 1024 {
        5
    } else if a < 2048 {
        6
    } else if a < 4096 {
        7
    } else {
        8
    }
}

/// The biased, clipped magnitude of a sample: `|x| / 4 + 33`, clipped
/// to thirteen bits, with `|x|` read as `-1 - x` for negative `x`.
pub open spec fn mu_absno(x: int) -> int {
    let mag = if x < 0 {
        -1 - x
    } else {
        x
    };
    let a = mag / 4 + 33;
    if a > 8191 {
        8191
    } else {
        a
    }
}

/// µ-law companding of one 16-bit sample.
pub open spec fn encode_spec(x: int) -> u8 {
    let a = mu_absno(x);
    let s = mu_segment(a);
    let low = 15 - ((a / pow2(s as nat) as int) % 16);
    let code = (8 - s) * 16 + low;
    if x >= 0 {
        (code + 128) as u8
    } else {
        code as u8
    }
}

/// µ-law expansion of one code byte.
pub open spec fn decode_spec(y: u8) -> int {
    let e = 7 - ((y as int / 16) % 8);
    let m = 15 - (y as int % 16);
    let p = pow2(e as nat) as int;
    let mag = 128 * p + 8 * p * m + 4 * p - 132;
    if y >= 128 {
        mag
    } else {
        -mag
    }
}

/// Companding one sample.
pub fn encode(x: i16) -> (r: u8)
    ensures
        r == encode_spec(x as int),
{
    proof {
        lemma2_to64();
    }
    let mag: i32 = if x < 0 {
        -1 - (x as i32)
    } else {
        x as i32
    };
    let mut a: i32 = mag / 4 + 33;
    if a > 8191 {
        a = 8191;
    }
    let s: i32;
    let p: i32;
    if a < 64 {
        s = 1;
        p = 2;
    } else if a < 128 {
        s = 2;
        p = 4;
    } else if a < 256 {
        s = 3;
        p = 8;
    } else if a < 512 {
        s = 4;
        p = 16;
    } else if a < 1024 {
        s = 5;
        p = 32;
    } else if a < 2048 {
        s = 6;
        p = 64;
    } else if a < 4096 {
        s = 7;
        p = 128;
    } else {
        s = 8;
        p = 256;
    }
    assert(s == mu_segment(a as int) && p as int == pow2(s as nat) as int);
    let low: i32 = 15 - ((a / p) % 16);
    let code: i32 = (8 - s) * 16 + low;
    if x >= 0 {
        (code + 128) as u8
    } else {
        code as u8
    }
}

/// Expanding one code byte.
pub fn decode(y: u8) -> (r: i16)
    ensures
        r as int == decode_spec(y),
{
    proof {
        lemma2_to64();
    }
    let e: i32 = 7 - ((y as i32 / 16) % 8);
    let m: i32 = 15 - (y as i32 % 16);
    let p: i32;
    if e == 0 {
        p = 1;
    } else if e == 1 {
        p = 2;
    } else if e == 2 {
        p = 4;
    } else if e == 3 {
        p = 8;
    } else if e == 4 {
        p = 16;
    } else if e == 5 {
        p = 32;
    } else if e == 6 {
        p = 64;
    } else {
        p = 128;
    }
    assert(p as int == pow2((7 - ((y as int / 16) % 8)) as nat) as int);
    assert(0 <= p * m <= 1920 && 8 * (p * m) == 8 * p * m) by (nonlinear_arith)
        requires
            1 <= p <= 128,
            0 <= m <= 15,
    ;
    let mag: i32 = 128 * p + 8 * (p * m) + 4 * p - 132;
    assert(0 <= mag <= 32124);
    if y >= 128 {
        mag as i16
    } else {
        (-mag) as i16
    }
}

/// Expanded magnitudes stay inside the 16-bit sample range.
pub proof fn lemma_mu_decode_bounds(y: u8)
    ensures
        -32124 <= decode_spec(y) <= 32124,
{
    lemma2_to64();
    let e = 7 - ((y as int / 16) % 8);
    let m = 15 - (y as int % 16);
    assert(0 <= e <= 7 && 0 <= m <= 15);
    let p = pow2(e as nat) as int;
    lemma_pow2_pos(e as nat);
    if e < 7 {
        lemma_pow2_strictly_increases(e as nat, 7);
    }
    assert(1 <= p <= 128);
    assert(0 <= 128 * p + 8 * p * m + 4 * p - 132 <= 32124) by (nonlinear_arith)
        requires
            1 <= p <= 128,
            0 <= m <= 15,
    ;
}

proof fn lemma_mu_segment_bracket(a: int, e: int)
    requires
        0 <= e <= 7,
        32 * pow2(e as nat) <= a < 64 * pow2(e as nat),
    ensures
        mu_segment(a) == e + 1,
{
    lemma2_to64();
}

/// Re-encoding the expansion of any µ-law code byte reproduces the
/// byte. The one exception is the negative zero `0x7F`, which expands
/// to zero and re-encodes as the positive zero `0xFF`.
pub proof fn lemma_mu_code_stable(y: u8)
    requires
        y != 127,
    ensures
        encode_spec(decode_spec(y)) == y,
{
    lemma2_to64();
    let e = 7 - ((y as int / 16) % 8);
    let m = 15 - (y as int % 16);
    assert(0 <= e <= 7 && 0 <= m <= 15);
    let p = pow2(e as nat) as int;
    lemma_pow2_pos(e as nat);
    if e < 7 {
        lemma_pow2_strictly_increases(e as nat, 7);
    }
    assert(1 <= p <= 128);
    lemma_pow2_adds(1, e as nat);
    assert(pow2((e + 1) as nat) as int == 2 * p);
    let u = 33 + 2 * m;
    let pu = p * u;
    let mag = 128 * p + 8 * p * m + 4 * p - 132;
    assert(mag == 4 * (pu - 33) && pu == (16 + m) * (2 * p) + p && 33 * p <= pu && pu <= 63 * p)
        by (nonlinear_arith)
        requires
            u == 33 + 2 * m,
            pu == p * u,
            mag == 128 * p + 8 * p * m + 4 * p - 132,
            1 <= p,
            0 <= m <= 15,
    ;
    assert(32 * p < 33 * p && 63 * p < 64 * p) by (nonlinear_arith)
        requires
            1 <= p,
    ;
    assert(pu <= 63 * 128) by (nonlinear_arith)
        requires
            pu == p * u,
            1 <= p <= 128,
            33 <= u <= 63,
    ;
    lemma_fundamental_div_mod_converse(16 + m, 16, 1, m);
    lemma_fundamental_div_mod(y as int, 16);
    if y >= 128 {
        let x = decode_spec(y);
        assert(x == mag);
        assert(x >= 0);
        lemma_fundamental_div_mod_converse(mag, 4, pu - 33, 0);
        assert(mag / 4 == pu - 33);
        let a = mu_absno(x);
        assert(a == pu);
        lemma_mu_segment_bracket(a, e);
        assert(mu_segment(a) == e + 1);
        lemma_fundamental_div_mod_converse(a, 2 * p, 16 + m, p);
        assert(a / (2 * p) == 16 + m);
        assert((a / pow2((e + 1) as nat) as int) % 16 == m);
        let code = (8 - (e + 1)) * 16 + (15 - m);
        assert(encode_spec(x) as int == code + 128);
        let t = y as int / 16;
        assert(8 <= t <= 15);
        lemma_fundamental_div_mod_converse(t, 8, 1, t - 8);
        assert(t % 8 == t - 8);
        assert(t == 15 - e);
        assert(y as int == 16 * t + (15 - m));
        assert(code + 128 == y as int);
    } else {
        // (e, m) == (0, 0) would be the excluded code 127
        let t = y as int / 16;
        assert(0 <= t <= 7);
        lemma_fundamental_div_mod_converse(t, 8, 0, t);
        assert(t % 8 == t);
        assert(t == 7 - e);
        assert(y as int == 16 * t + (15 - m));
        assert(!(e == 0 && m == 0));
        if p == 1 {
            assert(e == 0) by {
                if e >= 1 {
                    lemma_pow2_strictly_increases(0, e as nat);
                }
            }
            assert(m >= 1);
        }
        assert(pu >= 34) by (nonlinear_arith)
            requires
                pu == p * u,
                u == 33 + 2 * m,
                p >= 1,
                m >= 0,
                p == 1 ==> m >= 1,
                p >= 2 || p == 1,
        ;
        assert(mag >= 4);
        let x = decode_spec(y);
        assert(x == -mag);
        assert(x < 0);
        assert(-1 - x == mag - 1);
        lemma_fundamental_div_mod_converse(mag - 1, 4, pu - 34, 3);
        assert((mag - 1) / 4 == pu - 34);
        let a = mu_absno(x);
        assert(a == pu - 1);
        lemma_mu_segment_bracket(a, e);
        assert(mu_segment(a) == e + 1);
        lemma_fundamental_div_mod_converse(a, 2 * p, 16 + m, p - 1);
        assert(a / (2 * p) == 16 + m);
        assert((a / pow2((e + 1) as nat) as int) % 16 == m);
        let code = (8 - (e + 1)) * 16 + (15 - m);
        assert(encode_spec(x) as int == code);
        assert(code == y as int);
    }
}

/// Companding is idempotent on every 16-bit sample outside `-4..=-1`:
/// encoding, expanding, and encoding again gives the first code back.
/// The four excluded samples all encode to the negative zero `0x7F`,
/// which expands to `0` and re-encodes as `0xFF`.
pub proof fn lemma_pcmu_round_trip_stable(x: i16)
    requires
        x >= 0 || x < -4,
    ensures
        encode_spec(decode_spec(encode_spec(x as int))) == encode_spec(x as int),
{
    lemma2_to64();
    let y = encode_spec(x as int);
    let a = mu_absno(x as int);
    let s = mu_segment(a);
    lemma_pow2_pos(s as nat);
    let d = pow2(s as nat) as int;
    assert(a >= 0) by {
        if x >= 0 {
            lemma_div_is_ordered(0, x as int, 4);
        } else {
            lemma_div_is_ordered(0, -1 - x as int, 4);
        }
    }
    assert(0 <= (a / d) % 16 < 16);
    let code = (8 - s) * 16 + (15 - ((a / d) % 16));
    assert(0 <= code <= 127);
    if x >= 0 {
        assert(y as int == code + 128);
        assert(y != 127);
    } else {
        assert(y as int == code);
        // x <= -5, so the biased magnitude is at least 34 and the code
        // cannot be the negative zero
        assert(-1 - x as int >= 4);
        lemma_div_is_ordered(4, -1 - x as int, 4);
        assert((-1 - x as int) / 4 >= 1);
        assert(a >= 34);
        if y == 127 {
            assert(code == 127);
            assert(s == 1 && (a / d) % 16 == 0);
            assert(a < 64);
            assert(d == 2);
            lemma_div_is_ordered(34, a, 2);
            lemma_div_is_ordered(a, 63, 2);
            assert(17 <= a / 2 <= 31);
            lemma_fundamental_div_mod_converse(a / 2, 16, 1, a / 2 - 16);
            assert((a / 2) % 16 == a / 2 - 16);
            assert((a / 2) % 16 >= 1);
            assert(false);
        }
    }
    lemma_mu_code_stable(y);
}

// ------------------------------------------------------------------
// The packet-level codec.
// ------------------------------------------------------------------

/// A run of zero samples.
pub open spec fn zeros(n: int) -> Seq<i16> {
    Seq::new(n as nat, |i: int| 0i16)
}

/// The samples of the next frame: the front of the buffer, zero-padded
/// up to one frame when the buffer runs short.
pub open spec fn frame_of(buf: Seq<i16>, spf: int) -> Seq<i16> {
    if buf.len() >= spf {
        buf.take(spf)
    } else {
        buf + zeros(spf - buf.len())
    }
}

/// µ-law companding of a whole frame.
pub open spec fn encoded_frame(s: Seq<i16>) -> Seq<u8> {
    s.map_values(|v: i16| encode_spec(v as int))
}

/// µ-law expansion of a whole payload.
pub open spec fn decoded_payload(p: Seq<u8>) -> Seq<i16> {
    p.map_values(|b: u8| decode_spec(b) as i16)
}

/// The outbound buffer stops accepting audio above this many samples.
pub const BUFFER_SOFT_CAP: usize = 5000;

/// The µ-law codec: wire-domain sample buffer, RTP packetizer state,
/// and the negotiated parameters.
pub struct PcmuCodec {
    pub ptime: u32,
    pub payload_type: u8,
    pub sample_rate: u32,
    pub sequence_number: u16,
    pub timestamp: u32,
    pub ssrc: u32,
    pub buffer_out: Vec<i16>,
}

/// Ghost image of the codec state.
#[verifier::ext_equal]
pub struct PcmuCodecView {
    pub ptime: u32,
    pub payload_type: u8,
    pub sample_rate: u32,
    pub sequence_number: u16,
    pub timestamp: u32,
    pub ssrc: u32,
    pub buffer_out: Seq<i16>,
}

impl View for PcmuCodec {
    type V = PcmuCodecView;

    open spec fn view(&self) -> PcmuCodecView {
        PcmuCodecView {
            ptime: self.ptime,
            payload_type: self.payload_type,
            sample_rate: self.sample_rate,
            sequence_number: self.sequence_number,
            timestamp: self.timestamp,
            ssrc: self.ssrc,
            buffer_out: self.buffer_out@,
        }
    }
}

/// Samples in one packet of this codec state.
pub open spec fn spf_of(v: PcmuCodecView) -> int {
    (v.sample_rate as int / 1000) * v.ptime as int
}

/// The packet a send tick emits from this state (meaningful only when
/// the buffer is not empty).
pub open spec fn tick_packet(v: PcmuCodecView) -> RtpPacketView {
    RtpPacketView {
        marker: false,
        payload_type: v.payload_type,
        sequence_number: v.sequence_number,
        timestamp: v.timestamp,
        ssrc: v.ssrc,
        payload: encoded_frame(frame_of(v.buffer_out, spf_of(v))),
    }
}

/// The packets a send tick emits: none on an empty buffer, else one.
pub open spec fn tick_packets(v: PcmuCodecView) -> Seq<RtpPacketView> {
    if v.buffer_out.len() == 0 {
        Seq::empty()
    } else {
        seq![tick_packet(v)]
    }
}

/// The codec state after a send tick.
pub open spec fn tick_step(v: PcmuCodecView) -> PcmuCodecView {
    if v.buffer_out.len() == 0 {
        v
    } else {
        let spf = spf_of(v);
        let take = if v.buffer_out.len() >= spf {
            spf
        } else {
            v.buffer_out.len() as int
        };
        PcmuCodecView {
            ptime: v.ptime,
            payload_type: v.payload_type,
            sample_rate: v.sample_rate,
            sequence_number: (((v.sequence_number as int) + 1) % 0x10000) as u16,
            timestamp: (((v.timestamp as int) + spf) % 0x100000000) as u32,
            ssrc: v.ssrc,
            buffer_out: v.buffer_out.skip(take),
        }
    }
}

/// Workable negotiated parameters, at the view level.
pub open spec fn wf_view(v: PcmuCodecView) -> bool {
    v.payload_type < 128 && 1 <= spf_of(v) <= 192000
}

/// The codec state after queueing a media value.
pub open spec fn append_step(v: PcmuCodecView, media: MediaView) -> PcmuCodecView {
    match media {
        MediaView::Audio(samples) => {
            if v.buffer_out.len() > BUFFER_SOFT_CAP as int {
                v
            } else {
                PcmuCodecView {
                    ptime: v.ptime,
                    payload_type: v.payload_type,
                    sample_rate: v.sample_rate,
                    sequence_number: v.sequence_number,
                    timestamp: v.timestamp,
                    ssrc: v.ssrc,
                    buffer_out: v.buffer_out + samples,
                }
            }
        },
        _ => v,
    }
}

/// Whether negotiated parameters can drive this codec: a seven-bit
/// payload type and a sane frame size.
pub open spec fn usable_match(cm: crate::sdp::CodecMatch) -> bool {
    cm.payload_type < 128 && 1 <= (cm.frequency as int / 1000) * cm.ptime as int <= 192000
}

impl PcmuCodec {
    /// Samples in one packet: `sample_rate / 1000 · ptime`.
    pub open spec fn samples_per_frame(&self) -> int {
        (self.sample_rate as int / 1000) * self.ptime as int
    }

    /// Negotiated parameters the packetizer can work with.
    pub open spec fn wf(&self) -> bool {
        wf_view(self@)
    }

    /// A fresh codec around negotiated parameters; sequence number,
    /// timestamp and SSRC start at the given seeds.
    pub fn new(payload_type: u8, sample_rate: u32, ptime: u32, seq_seed: u16, ts_seed: u32, ssrc: u32) -> (r: Self)
        requires
            payload_type < 128,
            1 <= (sample_rate as int / 1000) * ptime as int <= 192000,
        ensures
            r.payload_type == payload_type,
            r.sample_rate == sample_rate,
            r.ptime == ptime,
            r.sequence_number == seq_seed,
            r.timestamp == ts_seed,
            r.ssrc == ssrc,
            r.buffer_out@ =~= Seq::<i16>::empty(),
            r.wf(),
    {
        PcmuCodec {
            ptime,
            payload_type,
            sample_rate,
            sequence_number: seq_seed,
            timestamp: ts_seed,
            ssrc,
            buffer_out: Vec::new(),
        }
    }

    /// Whether this codec can carry the media value.
    pub fn can_handle_media(&self, media: &Media) -> (r: bool)
        ensures
            r == (media@ is Audio),
    {
        match media {
            Media::Audio(_) => true,
            _ => false,
        }
    }

    /// Expands an RTP payload into PCM samples.
    pub fn decode_payload(&self, payload: &[u8]) -> (r: Media)
        ensures
            r@ == MediaView::Audio(decoded_payload(payload@)),
    {
        let n = payload.len();
        let mut samples: Vec<i16> = Vec::new();
        let mut i: usize = 0;
        while i < n
            invariant
                n == payload@.len(),
                0 <= i <= n,
                samples@ == decoded_payload(payload@.take(i as int)),
            decreases n - i,
        {
            let v = decode(payload[i]);
            proof {
                lemma_mu_decode_bounds(payload@[i as int]);
            }
            samples.push(v);
            proof {
                assert(payload@.take(i + 1).drop_last() =~= payload@.take(i as int));
                assert(samples@ =~= decoded_payload(payload@.take(i + 1)));
            }
            i += 1;
        }
        proof {
            assert(payload@.take(n as int) =~= payload@);
        }
        Media::Audio(samples)
    }

    /// Queues outbound audio, dropping it once the buffer is over the
    /// soft cap; other media values are ignored.
    pub fn append_to_buffer(&mut self, media: Media)
        ensures
            final(self)@ == append_step(old(self)@, media@),
    {
        if self.buffer_out.len() > BUFFER_SOFT_CAP {
            assert(self@ =~= append_step(old(self)@, media@));
            return ;
        }
        match media {
            Media::Audio(mut samples) => {
                self.buffer_out.append(&mut samples);
            }
            _ => {}
        }
        assert(self@ =~= append_step(old(self)@, media@));
    }

    /// Packetizes one frame from the buffer: nothing when the buffer is
    /// empty, otherwise one packet holding a zero-padded frame, with
    /// the sequence number stepped by one and the timestamp by one
    /// frame (both wrapping).
    pub fn get_next_packet(&mut self) -> (r: Vec<RtpPacket>)
        requires
            old(self).wf(),
        ensures
            final(self).wf(),
            r.deep_view() == tick_packets(old(self)@),
            final(self)@ == tick_step(old(self)@),
    {
        let mut r: Vec<RtpPacket> = Vec::new();
        if self.buffer_out.len() == 0 {
            assert(r.deep_view() =~= tick_packets(old(self)@));
            assert(self@ =~= tick_step(old(self)@));
            return r;
        }
        let spf = ((self.sample_rate / 1000) * self.ptime) as usize;
        let blen = self.buffer_out.len();
        let take = if blen >= spf {
            spf
        } else {
            blen
        };
        let mut payload: Vec<u8> = Vec::new();
        let mut i: usize = 0;
        while i < take
            invariant
                take <= blen == self.buffer_out@.len(),
                0 <= i <= take,
                payload@ == encoded_frame(self.buffer_out@.take(i as int)),
            decreases take - i,
        {
            let b = encode(self.buffer_out[i]);
            payload.push(b);
            proof {
                assert(self.buffer_out@.take(i + 1).drop_last() =~= self.buffer_out@.take(
                    i as int,
                ));
                assert(payload@ =~= encoded_frame(self.buffer_out@.take(i + 1)));
            }
            i += 1;
        }
        proof {
            assert(self.buffer_out@.take(take as int) + zeros(0) =~= self.buffer_out@.take(
                take as int,
            ));
        }
        while payload.len() < spf
            invariant
                take <= self.buffer_out@.len(),
                take <= spf <= 192000,
                take <= payload@.len() <= spf,
                payload@ == encoded_frame(
                    self.buffer_out@.take(take as int) + zeros(payload@.len() - take),
                ),
            decreases spf - payload@.len(),
        {
            let b = encode(0);
            payload.push(b);
            proof {
                let prev = self.buffer_out@.take(take as int) + zeros(
                    payload@.len() - 1 - take as int,
                );
                let now = self.buffer_out@.take(take as int) + zeros(payload@.len() - take as int);
                assert(now.drop_last() =~= prev);
                assert(now.last() == 0i16);
                assert(payload@ =~= encoded_frame(now));
            }
        }
        proof {
            let buf = self.buffer_out@;
            if buf.len() >= spf as int {
                assert(frame_of(buf, spf as int) =~= buf.take(take as int) + zeros(
                    spf - take as int,
                ));
            } else {
                assert(buf.take(take as int) =~= buf);
                assert(frame_of(buf, spf as int) =~= buf.take(take as int) + zeros(
                    spf - take as int,
                ));
            }
            assert(payload@ == encoded_frame(frame_of(buf, spf as int)));
        }
        let packet = RtpPacket {
            marker: false,
            payload_type: self.payload_type,
            sequence_number: self.sequence_number,
            timestamp: self.timestamp,
            ssrc: self.ssrc,
            payload,
        };
        self.sequence_number = if self.sequence_number == 65535 {
            0
        } else {
            self.sequence_number + 1
        };
        let ts2: u64 = ((self.timestamp as u64) + (spf as u64)) % 0x100000000;
        self.timestamp = ts2 as u32;
        let rest = self.buffer_out.split_off(take);
        self.buffer_out = rest;
        r.push(packet);
        proof {
            assert(r.deep_view() =~= tick_packets(old(self)@));
            assert(self@ =~= tick_step(old(self)@));
        }
        r
    }

    /// Builds the codec from the first matching rtpmap of the remote
    /// description, when its negotiated parameters are workable. The
    /// sequence number, timestamp and SSRC start at random seeds.
    pub fn try_from_sdp_session(sdp: &crate::sdp::SdpSession) -> (r: Result<
        Option<PcmuCodec>,
        crate::errors::SipError,
    >)
        ensures
            r is Ok,
            ({
                let f = crate::sdp::find_codec(
                    sdp@.media,
                    crate::ascii::ascii_bytes("pcmu"@),
                );
                match r {
                    Ok(Some(c)) => {
                        &&& f is Some
                        &&& usable_match(f.unwrap())
                        &&& c.payload_type == f.unwrap().payload_type
                        &&& c.sample_rate == f.unwrap().frequency
                        &&& c.ptime == f.unwrap().ptime
                        &&& c.buffer_out@ == Seq::<i16>::empty()
                        &&& c.wf()
                    },
                    Ok(None) => !(f is Some && usable_match(f.unwrap())),
                    Err(_) => false,
                }
            }),
    {
        proof {
            reveal_strlit("pcmu");
        }
        let name = crate::ascii::str_bytes("pcmu");
        match crate::sdp::find_codec_exec(sdp, name.as_slice()) {
            None => Ok(None),
            Some((pt, freq, _channels, ptime)) => {
                if pt >= 128 {
                    return Ok(None);
                }
                let fk: u64 = (freq / 1000) as u64;
                let pt64: u64 = ptime as u64;
                assert(fk * pt64 < 0x10000000000000000) by (nonlinear_arith)
                    requires
                        fk <= 0xFFFFFFFF,
                        pt64 <= 0xFFFFFFFF,
                ;
                let spf: u64 = fk * pt64;
                if spf < 1 || spf > 192000 {
                    return Ok(None);
                }
                let seq_seed = (crate::entropy::random_u32() % 65536) as u16;
                let ts_seed = crate::entropy::random_u32();
                let ssrc = crate::entropy::random_u32();
                Ok(Some(PcmuCodec::new(pt, freq, ptime, seq_seed, ts_seed, ssrc)))
            }
        }
    }

    /// The payload type negotiated for µ-law audio.
    pub fn get_payload_type(&self) -> (r: u8)
        ensures
            r == self.payload_type,
    {
        self.payload_type
    }
}

} // verus!
