//! The media engine of one call: negotiated codecs, the paced send
//! tick, inbound packet dispatch, and the latched `OutputEmpty`
//! notification.

use vstd::prelude::*;
use crate::codecs::{
    can_handle, codec_append_step, codec_decode_ok, codec_decode_output, codec_decode_step,
    codec_tick_packets, codec_tick_step, codec_view_wf, get_codecs_from_sdp_session,
    lemma_append_step_wf, lemma_decode_step_wf, lemma_tick_packets_wf, lemma_tick_step_wf,
    offers_pcma, offers_pcmu, offers_te, payload_type_of, Codec, CodecView,
};
use crate::errors::SipError;
use crate::media::{Media, MediaView};
use crate::rtp::{rtp_bytes, spec_unmarshal, unmarshal, RtpPacketView};
use crate::sdp::{first_audio, SdpSession};

verus! {

/// The media engine: the codec set, the remote endpoint, the tick
/// interval, and the `OutputEmpty` latch.
pub struct RtpEngine {
    pub codecs: Vec<Codec>,
    pub remote_ip: Vec<u8>,
    pub remote_port: u16,
    pub ptime: u32,
    pub notified_empty: bool,
}

/// Ghost image of the engine.
#[verifier::ext_equal]
pub struct RtpEngineView {
    pub codecs: Seq<CodecView>,
    pub remote_ip: Seq<u8>,
    pub remote_port: u16,
    pub ptime: u32,
    pub notified_empty: bool,
}

impl View for RtpEngine {
    type V = RtpEngineView;

    open spec fn view(&self) -> RtpEngineView {
        RtpEngineView {
            codecs: self.codecs.deep_view(),
            remote_ip: self.remote_ip@,
            remote_port: self.remote_port,
            ptime: self.ptime,
            notified_empty: self.notified_empty,
        }
    }
}

/// No codec would emit a packet on the next tick.
pub open spec fn all_idle(cs: Seq<CodecView>) -> bool {
    forall|i: int| 0 <= i < cs.len() ==> codec_tick_packets(#[trigger] cs[i]).len() == 0
}

/// The wire bytes one tick sends: each codec's packets, in codec order.
pub open spec fn tick_wire(cs: Seq<CodecView>) -> Seq<Seq<u8>>
    decreases cs.len(),
{
    if cs.len() == 0 {
        Seq::empty()
    } else {
        tick_wire(cs.drop_last()) + codec_tick_packets(cs.last()).map_values(
            |p: RtpPacketView| rtp_bytes(p),
        )
    }
}

/// Every codec stepped by one tick.
pub open spec fn tick_steps(cs: Seq<CodecView>) -> Seq<CodecView> {
    cs.map_values(|c: CodecView| codec_tick_step(c))
}

/// The first codec listening on a payload type.
pub open spec fn find_payload_type(cs: Seq<CodecView>, pt: u8) -> Option<int> {
    if exists|i: int| 0 <= i < cs.len() && payload_type_of(#[trigger] cs[i]) == pt {
        Some(choose|i: int| 0 <= i < cs.len() && payload_type_of(#[trigger] cs[i]) == pt && forall|
            j: int,
        | 0 <= j < i ==> payload_type_of(#[trigger] cs[j]) != pt)
    } else {
        None
    }
}

/// The first codec that can carry a media value.
pub open spec fn find_handler(cs: Seq<CodecView>, m: MediaView) -> Option<int> {
    if exists|i: int| 0 <= i < cs.len() && can_handle(#[trigger] cs[i], m) {
        Some(choose|i: int| 0 <= i < cs.len() && can_handle(#[trigger] cs[i], m) && forall|j: int|
            0 <= j < i ==> !can_handle(#[trigger] cs[j], m))
    } else {
        None
    }
}

/// Serializes a batch of packets for the wire.
fn marshal_all(packets: &Vec<crate::rtp::RtpPacket>) -> (r: Vec<Vec<u8>>)
    requires
        forall|i: int| 0 <= i < packets@.len() ==> (#[trigger] packets@[i]).payload_type < 128,
    ensures
        r.deep_view() == packets.deep_view().map_values(|p: RtpPacketView| rtp_bytes(p)),
{
    let n = packets.len();
    let mut r: Vec<Vec<u8>> = Vec::new();
    let ghost mapped = packets.deep_view().map_values(|p: RtpPacketView| rtp_bytes(p));
    proof {
        assert(r.deep_view() =~~= mapped.take(0));
    }
    let mut i: usize = 0;
    while i < n
        invariant
            n == packets@.len(),
            0 <= i <= n,
            forall|j: int| 0 <= j < packets@.len() ==> (#[trigger] packets@[j]).payload_type
                < 128,
            mapped == packets.deep_view().map_values(|p: RtpPacketView| rtp_bytes(p)),
            r.deep_view() == mapped.take(i as int),
        decreases n - i,
    {
        let b = packets[i].marshal();
        r.push(b);
        proof {
            assert(mapped.take(i + 1).drop_last() =~= mapped.take(i as int));
            assert(mapped.take(i + 1).last() == mapped[i as int]);
            assert(r.deep_view() =~~= mapped.take(i + 1));
        }
        i += 1;
    }
    proof {
        assert(mapped.take(n as int) =~= mapped);
    }
    r
}

impl RtpEngine {
    /// Every codec carries workable parameters.
    pub open spec fn wf(&self) -> bool {
        forall|i: int| 0 <= i < self@.codecs.len() ==> codec_view_wf(#[trigger] self@.codecs[i])
    }

    /// Builds the engine from the remote description: the codec set,
    /// the remote endpoint, and the tick interval (the first audio
    /// section's packet time, 20 ms by default). `InvalidSdp` without a
    /// connection address or audio section; `NoCompatibleCodec` when no
    /// codec matches.
    pub fn new(remote_sdp: &SdpSession) -> (r: Result<RtpEngine, SipError>)
        ensures
            r is Ok <==> remote_sdp@.connection_ip is Some && first_audio(remote_sdp@.media)
                is Some && (offers_pcmu(remote_sdp@) || offers_pcma(remote_sdp@) || offers_te(
                remote_sdp@,
            )),
            r matches Ok(e) ==> {
                &&& e.wf()
                &&& e@.remote_ip == remote_sdp@.connection_ip.unwrap()
                &&& e@.remote_port == first_audio(remote_sdp@.media).unwrap().port
                &&& e@.ptime == (match first_audio(remote_sdp@.media).unwrap().ptime {
                    Some(p) => p,
                    None => 20,
                })
                &&& e@.notified_empty
                &&& e@.codecs.len() > 0
            },
            r matches Err(err) ==> err == SipError::InvalidSdp || err
                == SipError::NoCompatibleCodec,
    {
        let (remote_ip, remote_port) = match crate::sdp::get_remote_endpoint(remote_sdp) {
            Err(e) => {
                return Err(e);
            }
            Ok(p) => p,
        };
        let codecs = match get_codecs_from_sdp_session(remote_sdp) {
            Err(e) => {
                return Err(e);
            }
            Ok(cs) => cs,
        };
        if codecs.len() == 0 {
            return Err(SipError::NoCompatibleCodec);
        }
        let ptime = match first_audio_ptime(remote_sdp) {
            Some(p) => p,
            None => 20,
        };
        Ok(RtpEngine { codecs, remote_ip, remote_port, ptime, notified_empty: true })
    }

    /// One paced send tick: drains one frame from every codec, and
    /// reports `OutputEmpty` exactly once per idle spell — when no
    /// codec produced a packet and the latch was not already set.
    pub fn on_tick(&mut self) -> (r: (Vec<Vec<u8>>, bool))
        requires
            old(self).wf(),
        ensures
            final(self).wf(),
            r.0.deep_view() == tick_wire(old(self)@.codecs),
            final(self)@.codecs == tick_steps(old(self)@.codecs),
            r.1 == (all_idle(old(self)@.codecs) && !old(self)@.notified_empty),
            final(self)@.notified_empty == all_idle(old(self)@.codecs),
            final(self)@.remote_ip == old(self)@.remote_ip,
            final(self)@.remote_port == old(self)@.remote_port,
            final(self)@.ptime == old(self)@.ptime,
    {
        let mut wire: Vec<Vec<u8>> = Vec::new();
        let mut done: Vec<Codec> = Vec::new();
        let mut rest = self.codecs.split_off(0);
        let ghost cs0 = old(self)@.codecs;
        let mut sent = false;
        proof {
            assert(rest.deep_view() =~= cs0.skip(0));
            assert(wire.deep_view() =~~= tick_wire(cs0.take(0)));
            assert(done.deep_view() =~~= tick_steps(cs0.take(0)));
            assert(all_idle(cs0.take(0)));
        }
        while rest.len() > 0
            invariant
                done@.len() + rest@.len() == cs0.len(),
                rest.deep_view() == cs0.skip(done@.len() as int),
                done.deep_view() == tick_steps(cs0.take(done@.len() as int)),
                wire.deep_view() == tick_wire(cs0.take(done@.len() as int)),
                sent == !all_idle(cs0.take(done@.len() as int)),
                forall|i: int| 0 <= i < cs0.len() ==> codec_view_wf(#[trigger] cs0[i]),
            decreases rest@.len(),
        {
            let ghost k = done@.len() as int;
            let ghost old_rest = rest.deep_view();
            let ghost old_elems = rest@;
            let mut c = rest.remove(0);
            proof {
                assert(c.deep_view() == old_rest[0]);
                assert(c@ == cs0[k]);
                assert forall|j: int| 0 <= j < rest@.len() implies rest.deep_view()[j]
                    == cs0.skip(k + 1)[j] by {
                    assert(rest.deep_view()[j] == rest@[j].deep_view());
                    assert(rest@[j] == old_elems[j + 1]);
                    assert(old_elems[j + 1].deep_view() == old_rest[j + 1]);
                    assert(old_rest[j + 1] == cs0.skip(k)[j + 1]);
                }
                assert(rest.deep_view() =~= cs0.skip(k + 1));
            }
            let packets = c.get_next_packet();
            let ghost pk = codec_tick_packets(cs0[k]);
            proof {
                lemma_tick_packets_wf(cs0[k]);
                assert forall|i: int| 0 <= i < packets@.len() implies (#[trigger] packets@[i]).payload_type < 128 by {
                    assert(packets.deep_view()[i] == packets@[i]@);
                    assert(packets@[i]@ == pk[i]);
                    assert(pk[i].payload_type < 128);
                }
            }
            let mut ws = marshal_all(&packets);
            if ws.len() > 0 {
                sent = true;
            }
            wire.append(&mut ws);
            proof {
                assert(c@ == codec_tick_step(cs0[k]));
            }
            done.push(c);
            proof {
                let mapped = pk.map_values(|p: RtpPacketView| rtp_bytes(p));
                assert(cs0.take(k + 1).drop_last() =~= cs0.take(k));
                assert(cs0.take(k + 1).last() == cs0[k]);
                assert(wire.deep_view() =~~= tick_wire(cs0.take(k + 1)));
                assert forall|i: int| 0 <= i < k + 1 implies done.deep_view()[i] == tick_steps(
                    cs0.take(k + 1),
                )[i] by {
                    assert(tick_steps(cs0.take(k + 1))[i] == codec_tick_step(cs0.take(k + 1)[i]));
                    if i < k {
                        assert(done.deep_view()[i] == tick_steps(cs0.take(k))[i]);
                        assert(tick_steps(cs0.take(k))[i] == codec_tick_step(cs0.take(k)[i]));
                    } else {
                        assert(done.deep_view()[i] == c.deep_view());
                    }
                }
                assert(done.deep_view() =~= tick_steps(cs0.take(k + 1)));
                assert(all_idle(cs0.take(k + 1)) <==> (all_idle(cs0.take(k)) && pk.len() == 0))
                    by {
                    assert(forall|i: int| 0 <= i < k ==> cs0.take(k + 1)[i] == cs0.take(k)[i]);
                    assert(cs0.take(k + 1)[k] == cs0[k]);
                    if all_idle(cs0.take(k)) && pk.len() == 0 {
                        assert(forall|i: int| 0 <= i < k + 1 ==> codec_tick_packets(
                            #[trigger] cs0.take(k + 1)[i],
                        ).len() == 0) by {
                            assert(forall|i: int| 0 <= i < k ==> codec_tick_packets(
                                #[trigger] cs0.take(k)[i],
                            ).len() == 0);
                        }
                    }
                }
            }
        }
        proof {
            assert(cs0.take(cs0.len() as int) =~= cs0);
            assert forall|i: int| 0 <= i < tick_steps(cs0).len() implies codec_view_wf(
                #[trigger] tick_steps(cs0)[i],
            ) by {
                lemma_tick_step_wf(cs0[i]);
            }
        }
        self.codecs = done;
        let idle = !sent;
        let emit = idle && !self.notified_empty;
        self.notified_empty = idle;
        (wire, emit)
    }

    /// Dispatches one received RTP datagram to the codec listening on
    /// its payload type; an unknown payload type is ignored, malformed
    /// bytes are reported and skipped. Neither disturbs the engine.
    #[verifier::rlimit(100)]
    pub fn on_packet(&mut self, data: &[u8]) -> (r: Result<Option<Media>, SipError>)
        requires
            old(self).wf(),
        ensures
            final(self).wf(),
            final(self)@.remote_ip == old(self)@.remote_ip,
            final(self)@.remote_port == old(self)@.remote_port,
            final(self)@.ptime == old(self)@.ptime,
            final(self)@.notified_empty == old(self)@.notified_empty,
            match spec_unmarshal(data@) {
                None => {
                    &&& r == Err::<Option<Media>, SipError>(SipError::MalformedMessage)
                    &&& final(self)@ == old(self)@
                },
                Some(pv) => {
                    match find_payload_type(old(self)@.codecs, pv.payload_type) {
                        None => {
                            &&& r == Ok::<Option<Media>, SipError>(None)
                            &&& final(self)@ == old(self)@
                        },
                        Some(i) => {
                            &&& final(self)@.codecs == old(self)@.codecs.update(
                                i,
                                codec_decode_step(old(self)@.codecs[i], pv.payload),
                            )
                            &&& (r is Ok <==> codec_decode_ok(old(self)@.codecs[i], pv.payload))
                            &&& (match r {
                                Ok(None) => codec_decode_output(old(self)@.codecs[i], pv.payload)
                                    is None,
                                Ok(Some(m)) => codec_decode_output(
                                    old(self)@.codecs[i],
                                    pv.payload,
                                ) == Some(m@),
                                Err(e) => e == SipError::MalformedMessage,
                            })
                        },
                    }
                },
            },
    {
        let packet = match unmarshal(data) {
            Err(e) => {
                assert(self@ =~= old(self)@);
                return Err(e);
            }
            Ok(p) => p,
        };
        let n = self.codecs.len();
        let mut i: usize = 0;
        while i < n
            invariant
                n == self.codecs@.len(),
                0 <= i <= n,
                *self == *old(self),
                old(self).wf(),
                spec_unmarshal(data@) == Some(packet@),
                forall|j: int| 0 <= j < i ==> payload_type_of(#[trigger] self@.codecs[j])
                    != packet@.payload_type,
            decreases n - i,
        {
            if self.codecs[i].get_payload_type() == packet.payload_type {
                let ghost cs = self@.codecs;
                let ghost idx = i as int;
                proof {
                    let pt = packet@.payload_type;
                    assert(0 <= idx < cs.len() && payload_type_of(cs[idx]) == pt);
                    assert(forall|j: int| 0 <= j < idx ==> payload_type_of(#[trigger] cs[j])
                        != pt);
                    let w = choose|i2: int|
                        0 <= i2 < cs.len() && payload_type_of(#[trigger] cs[i2]) == pt && forall|
                            j: int,
                        | 0 <= j < i2 ==> payload_type_of(#[trigger] cs[j]) != pt;
                    assert(0 <= w < cs.len() && payload_type_of(cs[w]) == pt && forall|j: int|
                        0 <= j < w ==> payload_type_of(#[trigger] cs[j]) != pt) by {
                        assert(0 <= idx < cs.len() && payload_type_of(#[trigger] cs[idx]) == pt
                            && forall|j: int| 0 <= j < idx ==> payload_type_of(#[trigger] cs[j])
                            != pt);
                    }
                    assert(w == idx);
                    assert(find_payload_type(cs, pt) == Some(idx));
                    assert(cs == old(self)@.codecs);
                }
                let mut c = self.codecs.remove(i);
                let r = c.decode_payload(packet.payload.as_slice());
                self.codecs.insert(i, c);
                proof {
                    assert(self@.codecs =~~= cs.update(
                        idx,
                        codec_decode_step(cs[idx], packet@.payload),
                    ));
                    lemma_decode_step_wf(cs[idx], packet@.payload);
                    assert(self@.notified_empty == old(self)@.notified_empty);
                    assert forall|j: int| 0 <= j < self@.codecs.len() implies codec_view_wf(
                        #[trigger] self@.codecs[j],
                    ) by {
                        if j == idx {
                        } else {
                            assert(self@.codecs[j] == cs[j]);
                        }
                    }
                    assert(spec_unmarshal(data@) == Some(packet@));
                    assert(self@.codecs == old(self)@.codecs.update(
                        idx,
                        codec_decode_step(old(self)@.codecs[idx], packet@.payload),
                    ));
                }
                return r;
            }
            i += 1;
        }
        proof {
            assert(find_payload_type(self@.codecs, packet@.payload_type) is None) by {
                if exists|j: int| 0 <= j < self@.codecs.len() && payload_type_of(
                    #[trigger] self@.codecs[j],
                ) == packet@.payload_type {
                    let j = choose|j: int| 0 <= j < self@.codecs.len() && payload_type_of(
                        #[trigger] self@.codecs[j],
                    ) == packet@.payload_type;
                    assert(false);
                }
            }
        }
        Ok(None)
    }

    /// Hands outbound media to the first codec that can carry it.
    #[verifier::rlimit(100)]
    pub fn on_media(&mut self, media: Media)
        requires
            old(self).wf(),
        ensures
            final(self).wf(),
            final(self)@.remote_ip == old(self)@.remote_ip,
            final(self)@.remote_port == old(self)@.remote_port,
            final(self)@.ptime == old(self)@.ptime,
            final(self)@.notified_empty == old(self)@.notified_empty,
            match find_handler(old(self)@.codecs, media@) {
                None => final(self)@ == old(self)@,
                Some(i) => final(self)@.codecs == old(self)@.codecs.update(
                    i,
                    codec_append_step(old(self)@.codecs[i], media@),
                ),
            },
    {
        let n = self.codecs.len();
        let mut i: usize = 0;
        while i < n
            invariant
                n == self.codecs@.len(),
                0 <= i <= n,
                *self == *old(self),
                old(self).wf(),
                forall|j: int| 0 <= j < i ==> !can_handle(#[trigger] self@.codecs[j], media@),
            decreases n - i,
        {
            if self.codecs[i].can_handle_media(&media) {
                let ghost cs = self@.codecs;
                let ghost idx = i as int;
                proof {
                    assert(0 <= idx < cs.len() && can_handle(cs[idx], media@));
                    assert(forall|j: int| 0 <= j < idx ==> !can_handle(
                        #[trigger] cs[j],
                        media@,
                    ));
                    let w = choose|i2: int|
                        0 <= i2 < cs.len() && can_handle(#[trigger] cs[i2], media@) && forall|
                            j: int,
                        | 0 <= j < i2 ==> !can_handle(#[trigger] cs[j], media@);
                    assert(0 <= w < cs.len() && can_handle(cs[w], media@) && forall|j: int|
                        0 <= j < w ==> !can_handle(#[trigger] cs[j], media@)) by {
                        assert(0 <= idx < cs.len() && can_handle(#[trigger] cs[idx], media@)
                            && forall|j: int| 0 <= j < idx ==> !can_handle(
                            #[trigger] cs[j],
                            media@,
                        ));
                    }
                    assert(w == idx);
                    assert(find_handler(cs, media@) == Some(idx));
                }
                let mut c = self.codecs.remove(i);
                c.append_to_buffer(media);
                self.codecs.insert(i, c);
                proof {
                    assert(self@.codecs =~~= cs.update(
                        idx,
                        codec_append_step(cs[idx], media@),
                    ));
                    lemma_append_step_wf(cs[idx], media@);
                    assert forall|j: int| 0 <= j < self@.codecs.len() implies codec_view_wf(
                        #[trigger] self@.codecs[j],
                    ) by {
                        if j == idx {
                        } else {
                            assert(self@.codecs[j] == cs[j]);
                        }
                    }
                }
                return ;
            }
            i += 1;
        }
        proof {
            assert(find_handler(self@.codecs, media@) is None) by {
                if exists|j: int| 0 <= j < self@.codecs.len() && can_handle(
                    #[trigger] self@.codecs[j],
                    media@,
                ) {
                    let j = choose|j: int| 0 <= j < self@.codecs.len() && can_handle(
                        #[trigger] self@.codecs[j],
                        media@,
                    );
                    assert(false);
                }
            }
        }
    }
}

/// The packet time of the first audio section, if it names one.
fn first_audio_ptime(sdp: &SdpSession) -> (r: Option<u32>)
    ensures
        match first_audio(sdp@.media) {
            Some(m) => r == m.ptime,
            None => r is None,
        },
{
    let n = sdp.media.len();
    let mut i: usize = 0;
    proof {
        assert(sdp.media.deep_view().skip(0) =~= sdp.media.deep_view());
    }
    while i < n
        invariant
            n == sdp.media@.len(),
            0 <= i <= n,
            first_audio(sdp@.media) == first_audio(sdp.media.deep_view().skip(i as int)),
        decreases n - i,
    {
        proof {
            let tail = sdp.media.deep_view().skip(i as int);
            assert(tail.first() == sdp.media.deep_view()[i as int]);
            assert(tail.drop_first() =~= sdp.media.deep_view().skip(i + 1));
        }
        let is_audio = match sdp.media[i].kind {
            crate::sdp::SdpMediaKind::Audio => true,
            crate::sdp::SdpMediaKind::Other => false,
        };
        if is_audio {
            return sdp.media[i].ptime;
        }
        i += 1;
    }
    proof {
        assert(sdp.media.deep_view().skip(n as int) =~= Seq::<crate::sdp::SdpMediaView>::empty());
    }
    None
}

} // verus!
