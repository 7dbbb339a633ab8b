//! The closed codec set, dispatched as a sum type, and the negotiation
//! that builds it from a remote session description.

use vstd::prelude::*;
use crate::ascii::ascii_bytes;
use crate::errors::SipError;
use crate::media::{Media, MediaView};
use crate::pcma::PcmaCodec;
use crate::pcmu::PcmuCodec;
use crate::rtp::{RtpPacket, RtpPacketView};
use crate::sdp::{find_codec, SdpSession};
use crate::telephone_events::{
    te_decode_ok, te_decode_output, te_decode_step, TelephoneEventsCodec,
};

verus! {

/// One negotiated codec.
pub enum Codec {
    Pcmu(PcmuCodec),
    Pcma(PcmaCodec),
    TelephoneEvents(TelephoneEventsCodec),
}

/// Ghost image of a codec.
#[verifier::ext_equal]
pub enum CodecView {
    Pcmu(crate::pcmu::PcmuCodecView),
    Pcma(crate::pcma::PcmaCodecView),
    TelephoneEvents(crate::telephone_events::TelephoneEventsCodecView),
}

impl View for Codec {
    type V = CodecView;

    open spec fn view(&self) -> CodecView {
        match self {
            Codec::Pcmu(c) => CodecView::Pcmu(c@),
            Codec::Pcma(c) => CodecView::Pcma(c@),
            Codec::TelephoneEvents(c) => CodecView::TelephoneEvents(c@),
        }
    }
}

impl DeepView for Codec {
    type V = CodecView;

    open spec fn deep_view(&self) -> CodecView {
        self@
    }
}

/// The payload type a codec answers to.
pub open spec fn payload_type_of(v: CodecView) -> u8 {
    match v {
        CodecView::Pcmu(c) => c.payload_type,
        CodecView::Pcma(c) => c.payload_type,
        CodecView::TelephoneEvents(c) => c.payload_type,
    }
}

/// Whether a codec can carry a media value.
pub open spec fn can_handle(v: CodecView, m: MediaView) -> bool {
    match v {
        CodecView::Pcmu(_) => m is Audio,
        CodecView::Pcma(_) => m is Audio,
        CodecView::TelephoneEvents(_) => m is TelephoneEvent,
    }
}

/// Whether decoding a payload succeeds.
pub open spec fn codec_decode_ok(v: CodecView, payload: Seq<u8>) -> bool {
    match v {
        CodecView::TelephoneEvents(_) => te_decode_ok(payload),
        _ => true,
    }
}

/// What decoding a payload yields.
pub open spec fn codec_decode_output(v: CodecView, payload: Seq<u8>) -> Option<MediaView> {
    match v {
        CodecView::Pcmu(_) => Some(MediaView::Audio(crate::pcmu::decoded_payload(payload))),
        CodecView::Pcma(_) => Some(MediaView::Audio(crate::pcma::decoded_payload(payload))),
        CodecView::TelephoneEvents(t) => te_decode_output(t, payload),
    }
}

/// The codec state after decoding a payload.
pub open spec fn codec_decode_step(v: CodecView, payload: Seq<u8>) -> CodecView {
    match v {
        CodecView::TelephoneEvents(t) => CodecView::TelephoneEvents(te_decode_step(t, payload)),
        _ => v,
    }
}

/// The codec state after queueing a media value.
pub open spec fn codec_append_step(v: CodecView, m: MediaView) -> CodecView {
    match v {
        CodecView::Pcmu(c) => CodecView::Pcmu(crate::pcmu::append_step(c, m)),
        CodecView::Pcma(c) => CodecView::Pcma(crate::pcma::append_step(c, m)),
        CodecView::TelephoneEvents(_) => v,
    }
}

/// The packets a send tick emits from a codec.
pub open spec fn codec_tick_packets(v: CodecView) -> Seq<RtpPacketView> {
    match v {
        CodecView::Pcmu(c) => crate::pcmu::tick_packets(c),
        CodecView::Pcma(c) => crate::pcma::tick_packets(c),
        CodecView::TelephoneEvents(_) => Seq::empty(),
    }
}

/// The codec state after a send tick.
pub open spec fn codec_tick_step(v: CodecView) -> CodecView {
    match v {
        CodecView::Pcmu(c) => CodecView::Pcmu(crate::pcmu::tick_step(c)),
        CodecView::Pcma(c) => CodecView::Pcma(crate::pcma::tick_step(c)),
        CodecView::TelephoneEvents(_) => v,
    }
}

/// Workable negotiated parameters, at the view level.
pub open spec fn codec_view_wf(v: CodecView) -> bool {
    match v {
        CodecView::Pcmu(c) => crate::pcmu::wf_view(c),
        CodecView::Pcma(c) => crate::pcma::wf_view(c),
        CodecView::TelephoneEvents(_) => true,
    }
}

/// Packets a workable codec emits carry seven-bit payload types.
pub proof fn lemma_tick_packets_wf(v: CodecView)
    requires
        codec_view_wf(v),
    ensures
        forall|i: int| 0 <= i < codec_tick_packets(v).len() ==> (#[trigger] codec_tick_packets(
            v,
        )[i]).payload_type < 128,
{
}

/// Decoding never breaks a codec's parameters.
pub proof fn lemma_decode_step_wf(v: CodecView, payload: Seq<u8>)
    requires
        codec_view_wf(v),
    ensures
        codec_view_wf(codec_decode_step(v, payload)),
{
}

/// Queueing media never breaks a codec's parameters.
pub proof fn lemma_append_step_wf(v: CodecView, m: MediaView)
    requires
        codec_view_wf(v),
    ensures
        codec_view_wf(codec_append_step(v, m)),
{
}

/// A send tick never breaks a codec's parameters.
pub proof fn lemma_tick_step_wf(v: CodecView)
    requires
        codec_view_wf(v),
    ensures
        codec_view_wf(codec_tick_step(v)),
{
}

impl Codec {
    /// Workable negotiated parameters.
    pub open spec fn wf(&self) -> bool {
        codec_view_wf(self@)
    }

    /// The payload type this codec answers to.
    pub fn get_payload_type(&self) -> (r: u8)
        ensures
            r == payload_type_of(self@),
    {
        match self {
            Codec::Pcmu(c) => c.get_payload_type(),
            Codec::Pcma(c) => c.get_payload_type(),
            Codec::TelephoneEvents(c) => c.get_payload_type(),
        }
    }

    /// Whether this codec can carry the media value.
    pub fn can_handle_media(&self, media: &Media) -> (r: bool)
        ensures
            r == can_handle(self@, media@),
    {
        match self {
            Codec::Pcmu(c) => c.can_handle_media(media),
            Codec::Pcma(c) => c.can_handle_media(media),
            Codec::TelephoneEvents(c) => c.can_handle_media(media),
        }
    }

    /// Decodes one RTP payload addressed to this codec.
    pub fn decode_payload(&mut self, payload: &[u8]) -> (r: Result<Option<Media>, SipError>)
        ensures
            r is Ok <==> codec_decode_ok(old(self)@, payload@),
            final(self)@ == codec_decode_step(old(self)@, payload@),
            match r {
                Ok(None) => codec_decode_output(old(self)@, payload@) is None,
                Ok(Some(m)) => codec_decode_output(old(self)@, payload@) == Some(m@),
                Err(e) => e == SipError::MalformedMessage,
            },
    {
        match self {
            Codec::Pcmu(c) => Ok(Some(c.decode_payload(payload))),
            Codec::Pcma(c) => Ok(Some(c.decode_payload(payload))),
            Codec::TelephoneEvents(c) => c.decode_payload(payload),
        }
    }

    /// Queues one media value for sending.
    pub fn append_to_buffer(&mut self, media: Media)
        ensures
            final(self)@ == codec_append_step(old(self)@, media@),
    {
        match self {
            Codec::Pcmu(c) => c.append_to_buffer(media),
            Codec::Pcma(c) => c.append_to_buffer(media),
            Codec::TelephoneEvents(_) => {}
        }
    }

    /// Packetizes the next frame, if this codec has one to send.
    pub fn get_next_packet(&mut self) -> (r: Vec<RtpPacket>)
        requires
            old(self).wf(),
        ensures
            final(self).wf(),
            r.deep_view() == codec_tick_packets(old(self)@),
            final(self)@ == codec_tick_step(old(self)@),
    {
        match self {
            Codec::Pcmu(c) => c.get_next_packet(),
            Codec::Pcma(c) => c.get_next_packet(),
            Codec::TelephoneEvents(_) => {
                let r: Vec<RtpPacket> = Vec::new();
                assert(r.deep_view() =~= Seq::<RtpPacketView>::empty());
                r
            }
        }
    }
}

/// Whether the remote description names a usable µ-law stream.
pub open spec fn offers_pcmu(sdp: crate::sdp::SdpSessionView) -> bool {
    &&& find_codec(sdp.media, ascii_bytes("pcmu"@)) is Some
    &&& crate::pcmu::usable_match(find_codec(sdp.media, ascii_bytes("pcmu"@)).unwrap())
}

/// Whether the remote description names a usable A-law stream.
pub open spec fn offers_pcma(sdp: crate::sdp::SdpSessionView) -> bool {
    &&& find_codec(sdp.media, ascii_bytes("pcma"@)) is Some
    &&& crate::pcma::usable_match(find_codec(sdp.media, ascii_bytes("pcma"@)).unwrap())
}

/// Whether the remote description names a telephone-event stream.
pub open spec fn offers_te(sdp: crate::sdp::SdpSessionView) -> bool {
    find_codec(sdp.media, ascii_bytes("telephone-event"@)) is Some
}

/// Builds the codec set the remote description supports, in the fixed
/// order µ-law, A-law, telephone-event.
pub fn get_codecs_from_sdp_session(sdp: &SdpSession) -> (r: Result<Vec<Codec>, SipError>)
    ensures
        r is Ok,
        ({
            let u = offers_pcmu(sdp@);
            let a = offers_pcma(sdp@);
            let t = offers_te(sdp@);
            let nu: int = if u { 1 } else { 0 };
            let na: int = if a { 1 } else { 0 };
            let nt: int = if t { 1 } else { 0 };
            match r {
                Ok(cs) => {
                    &&& cs@.len() == nu + na + nt
                    &&& (u ==> (cs@[0]@ matches CodecView::Pcmu(c) && c.payload_type
                        == find_codec(sdp@.media, ascii_bytes("pcmu"@)).unwrap().payload_type
                        && c.buffer_out.len() == 0))
                    &&& (a ==> (cs@[nu]@ matches CodecView::Pcma(c) && c.payload_type
                        == find_codec(sdp@.media, ascii_bytes("pcma"@)).unwrap().payload_type
                        && c.buffer_out.len() == 0))
                    &&& (t ==> (cs@[nu + na]@ matches CodecView::TelephoneEvents(c)
                        && c.payload_type == find_codec(
                        sdp@.media,
                        ascii_bytes("telephone-event"@),
                    ).unwrap().payload_type))
                    &&& forall|i: int| 0 <= i < cs@.len() ==> (#[trigger] cs@[i]).wf()
                },
                Err(_) => false,
            }
        }),
{
    let mut codecs: Vec<Codec> = Vec::new();
    match PcmuCodec::try_from_sdp_session(sdp) {
        Ok(Some(c)) => {
            codecs.push(Codec::Pcmu(c));
        }
        _ => {}
    }
    match PcmaCodec::try_from_sdp_session(sdp) {
        Ok(Some(c)) => {
            codecs.push(Codec::Pcma(c));
        }
        _ => {}
    }
    match TelephoneEventsCodec::try_from_sdp(sdp) {
        Some(c) => {
            codecs.push(Codec::TelephoneEvents(c));
        }
        None => {}
    }
    Ok(codecs)
}

} // verus!
