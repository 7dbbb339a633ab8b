//! SDP: the session model this library reads and writes, its exact
//! serialization, a line-oriented parser, and the codec search used by
//! offer/answer negotiation.

use vstd::prelude::*;
use crate::ascii::{
    all_digits, ascii_bytes, dec_digits, dec_val, eq_ignore_case, find_byte, find_crlf_from,
    lower_seq, parse_dec, slice_range, str_bytes, subvec, u64_to_dec,
};
use crate::errors::SipError;
use crate::message::{crlf, lemma_find_byte_char, sp, spec_find_byte, spec_find_crlf};

verus! {

/// One `a=rtpmap:` attribute.
#[derive(Clone, Debug)]
pub struct SdpRtpmap {
    pub payload_type: u8,
    pub codec_name: Vec<u8>,
    pub frequency: u32,
    pub channels: Option<u32>,
}

/// Ghost image of an rtpmap.
#[verifier::ext_equal]
pub struct SdpRtpmapView {
    pub payload_type: u8,
    pub codec_name: Seq<u8>,
    pub frequency: u32,
    pub channels: Option<u32>,
}

impl View for SdpRtpmap {
    type V = SdpRtpmapView;

    open spec fn view(&self) -> SdpRtpmapView {
        SdpRtpmapView {
            payload_type: self.payload_type,
            codec_name: self.codec_name@,
            frequency: self.frequency,
            channels: self.channels,
        }
    }
}

impl DeepView for SdpRtpmap {
    type V = SdpRtpmapView;

    open spec fn deep_view(&self) -> SdpRtpmapView {
        self@
    }
}

/// The kind of a media section; only audio is negotiated.
#[derive(Clone, Copy, Debug, PartialEq, Eq, Structural)]
pub enum SdpMediaKind {
    Audio,
    Other,
}

/// One `m=` section with the attributes this library reads.
#[derive(Clone, Debug)]
pub struct SdpMedia {
    pub kind: SdpMediaKind,
    pub port: u16,
    pub formats: Vec<u8>,
    pub rtpmaps: Vec<SdpRtpmap>,
    pub ptime: Option<u32>,
    pub dtmf_fmtp: Option<u8>,
    pub sendrecv: bool,
    pub rtcp_mux: bool,
}

/// Ghost image of a media section.
#[verifier::ext_equal]
pub struct SdpMediaView {
    pub kind: SdpMediaKind,
    pub port: u16,
    pub formats: Seq<u8>,
    pub rtpmaps: Seq<SdpRtpmapView>,
    pub ptime: Option<u32>,
    pub dtmf_fmtp: Option<u8>,
    pub sendrecv: bool,
    pub rtcp_mux: bool,
}

impl View for SdpMedia {
    type V = SdpMediaView;

    open spec fn view(&self) -> SdpMediaView {
        SdpMediaView {
            kind: self.kind,
            port: self.port,
            formats: self.formats@,
            rtpmaps: self.rtpmaps.deep_view(),
            ptime: self.ptime,
            dtmf_fmtp: self.dtmf_fmtp,
            sendrecv: self.sendrecv,
            rtcp_mux: self.rtcp_mux,
        }
    }
}

impl DeepView for SdpMedia {
    type V = SdpMediaView;

    open spec fn deep_view(&self) -> SdpMediaView {
        self@
    }
}

/// A session description: the connection address and media sections.
#[derive(Clone, Debug)]
pub struct SdpSession {
    pub origin_ip: Vec<u8>,
    pub connection_ip: Option<Vec<u8>>,
    pub media: Vec<SdpMedia>,
}

/// Ghost image of a session.
#[verifier::ext_equal]
pub struct SdpSessionView {
    pub origin_ip: Seq<u8>,
    pub connection_ip: Option<Seq<u8>>,
    pub media: Seq<SdpMediaView>,
}

impl View for SdpSession {
    type V = SdpSessionView;

    open spec fn view(&self) -> SdpSessionView {
        SdpSessionView {
            origin_ip: self.origin_ip@,
            connection_ip: match self.connection_ip {
                Some(ref ip) => Some(ip@),
                None => None,
            },
            media: self.media.deep_view(),
        }
    }
}

// ------------------------------------------------------------------
// Serialization.
// ------------------------------------------------------------------

/// The format numbers of an `m=` line, each preceded by a space.
pub open spec fn fmt_list_bytes(formats: Seq<u8>) -> Seq<u8>
    decreases formats.len(),
{
    if formats.len() == 0 {
        Seq::empty()
    } else {
        fmt_list_bytes(formats.drop_last()) + sp() + dec_digits(formats.last() as nat)
    }
}

/// The bytes of one `a=rtpmap:` line.
pub open spec fn rtpmap_line_bytes(r: SdpRtpmapView) -> Seq<u8> {
    ascii_bytes("a=rtpmap:"@) + dec_digits(r.payload_type as nat) + sp() + r.codec_name + seq![
        47u8,
    ] + dec_digits(r.frequency as nat) + (match r.channels {
        Some(c) => seq![47u8] + dec_digits(c as nat),
        None => Seq::empty(),
    }) + crlf()
}

/// The rtpmap lines of a media section, in order.
pub open spec fn rtpmap_lines_bytes(rs: Seq<SdpRtpmapView>) -> Seq<u8>
    decreases rs.len(),
{
    if rs.len() == 0 {
        Seq::empty()
    } else {
        rtpmap_lines_bytes(rs.drop_last()) + rtpmap_line_bytes(rs.last())
    }
}

/// The optional `a=ptime:` line of a section.
pub open spec fn ptime_attr_bytes(m: SdpMediaView) -> Seq<u8> {
    match m.ptime {
        Some(p) => ascii_bytes("a=ptime:"@) + dec_digits(p as nat) + crlf(),
        None => Seq::empty(),
    }
}

/// The optional telephone-event `a=fmtp:` line of a section.
pub open spec fn fmtp_attr_bytes(m: SdpMediaView) -> Seq<u8> {
    match m.dtmf_fmtp {
        Some(pt) => ascii_bytes("a=fmtp:"@) + dec_digits(pt as nat) + ascii_bytes(" 0-15"@)
            + crlf(),
        None => Seq::empty(),
    }
}

/// The optional `a=sendrecv` line of a section.
pub open spec fn sendrecv_attr_bytes(m: SdpMediaView) -> Seq<u8> {
    if m.sendrecv {
        ascii_bytes("a=sendrecv"@) + crlf()
    } else {
        Seq::empty()
    }
}

/// The optional `a=rtcp-mux` line of a section.
pub open spec fn rtcp_attr_bytes(m: SdpMediaView) -> Seq<u8> {
    if m.rtcp_mux {
        ascii_bytes("a=rtcp-mux"@) + crlf()
    } else {
        Seq::empty()
    }
}

/// The attribute lines of a section, after its rtpmaps.
pub open spec fn media_attrs_bytes(m: SdpMediaView) -> Seq<u8> {
    ptime_attr_bytes(m) + fmtp_attr_bytes(m) + sendrecv_attr_bytes(m) + rtcp_attr_bytes(m)
}

/// The bytes of one audio media section.
pub open spec fn media_bytes(m: SdpMediaView) -> Seq<u8> {
    ascii_bytes("m=audio "@) + dec_digits(m.port as nat) + ascii_bytes(" RTP/AVP"@)
        + fmt_list_bytes(m.formats) + crlf() + rtpmap_lines_bytes(m.rtpmaps)
        + media_attrs_bytes(m)
}

/// All media sections, in order.
pub open spec fn medias_bytes(ms: Seq<SdpMediaView>) -> Seq<u8>
    decreases ms.len(),
{
    if ms.len() == 0 {
        Seq::empty()
    } else {
        medias_bytes(ms.drop_last()) + media_bytes(ms.last())
    }
}

/// The full text of a session description.
pub open spec fn session_bytes(s: SdpSessionView) -> Seq<u8> {
    ascii_bytes("v=0"@) + crlf() + ascii_bytes("o=Z 0 1234 IN IP4 "@) + s.origin_ip + crlf()
        + ascii_bytes("s=Z"@) + crlf() + (match s.connection_ip {
        Some(ip) => ascii_bytes("c=IN IP4 "@) + ip + crlf(),
        None => Seq::empty(),
    }) + ascii_bytes("t=0 0"@) + crlf() + medias_bytes(s.media)
}

/// Every media section is audio; only those can be serialized.
pub open spec fn session_serializable(s: SdpSessionView) -> bool {
    forall|i: int| 0 <= i < s.media.len() ==> (#[trigger] s.media[i]).kind == SdpMediaKind::Audio
}

fn push_line_tail(out: &mut Vec<u8>)
    ensures
        final(out)@ == old(out)@ + crlf(),
{
    out.push(13);
    out.push(10);
    assert(out@ =~= old(out)@ + crlf());
}

fn push_rtpmap_line(out: &mut Vec<u8>, r: &SdpRtpmap)
    ensures
        final(out)@ == old(out)@ + rtpmap_line_bytes(r@),
{
    proof {
        reveal_strlit("a=rtpmap:");
    }
    let head = str_bytes("a=rtpmap:");
    out.extend_from_slice(head.as_slice());
    let d = u64_to_dec(r.payload_type as u64);
    out.extend_from_slice(d.as_slice());
    out.push(32);
    out.extend_from_slice(r.codec_name.as_slice());
    out.push(47);
    let f = u64_to_dec(r.frequency as u64);
    out.extend_from_slice(f.as_slice());
    match r.channels {
        Some(c) => {
            out.push(47);
            let cd = u64_to_dec(c as u64);
            out.extend_from_slice(cd.as_slice());
        }
        None => {}
    }
    push_line_tail(out);
    assert(out@ =~= old(out)@ + rtpmap_line_bytes(r@));
}

fn push_media_line(out: &mut Vec<u8>, m: &SdpMedia)
    ensures
        final(out)@ == old(out)@ + ascii_bytes("m=audio "@) + dec_digits(m@.port as nat)
            + ascii_bytes(" RTP/AVP"@) + fmt_list_bytes(m@.formats) + crlf(),
{
    proof {
        reveal_strlit("m=audio ");
        reveal_strlit(" RTP/AVP");
    }
    let head = str_bytes("m=audio ");
    out.extend_from_slice(head.as_slice());
    let d = u64_to_dec(m.port as u64);
    out.extend_from_slice(d.as_slice());
    let proto = str_bytes(" RTP/AVP");
    out.extend_from_slice(proto.as_slice());
    let n = m.formats.len();
    let mut i: usize = 0;
    let ghost mid = out@;
    while i < n
        invariant
            n == m.formats@.len(),
            0 <= i <= n,
            out@ == mid + fmt_list_bytes(m.formats@.take(i as int)),
        decreases n - i,
    {
        out.push(32);
        let fd = u64_to_dec(m.formats[i] as u64);
        out.extend_from_slice(fd.as_slice());
        proof {
            assert(m.formats@.take(i + 1).drop_last() =~= m.formats@.take(i as int));
            assert(out@ =~= mid + fmt_list_bytes(m.formats@.take(i + 1)));
        }
        i += 1;
    }
    proof {
        assert(m.formats@.take(n as int) =~= m.formats@);
    }
    push_line_tail(out);
    proof {
        assert(out@ =~= old(out)@ + ascii_bytes("m=audio "@) + dec_digits(m@.port as nat)
            + ascii_bytes(" RTP/AVP"@) + fmt_list_bytes(m@.formats) + crlf());
    }
}

fn push_rtpmaps(out: &mut Vec<u8>, maps: &Vec<SdpRtpmap>)
    ensures
        final(out)@ == old(out)@ + rtpmap_lines_bytes(maps.deep_view()),
{
    let rn = maps.len();
    let mut j: usize = 0;
    while j < rn
        invariant
            rn == maps@.len(),
            0 <= j <= rn,
            out@ == old(out)@ + rtpmap_lines_bytes(maps.deep_view().take(j as int)),
        decreases rn - j,
    {
        push_rtpmap_line(out, &maps[j]);
        proof {
            let rv = maps.deep_view();
            assert(rv.take(j + 1).drop_last() =~= rv.take(j as int));
            assert(rv.take(j + 1).last() == rv[j as int]);
        }
        j += 1;
    }
    proof {
        assert(maps.deep_view().take(rn as int) =~= maps.deep_view());
    }
}

#[verifier::rlimit(80)]
fn push_media_attrs(out: &mut Vec<u8>, m: &SdpMedia)
    ensures
        final(out)@ == old(out)@ + media_attrs_bytes(m@),
{
    proof {
        reveal_strlit("a=ptime:");
        reveal_strlit("a=fmtp:");
        reveal_strlit(" 0-15");
        reveal_strlit("a=sendrecv");
        reveal_strlit("a=rtcp-mux");
    }
    match m.ptime {
        Some(p) => {
            let h = str_bytes("a=ptime:");
            out.extend_from_slice(h.as_slice());
            let pd = u64_to_dec(p as u64);
            out.extend_from_slice(pd.as_slice());
            push_line_tail(out);
        }
        None => {}
    }
    let ghost p1 = ptime_attr_bytes(m@);
    proof {
        assert(out@ =~= old(out)@ + p1);
    }
    match m.dtmf_fmtp {
        Some(pt) => {
            let h = str_bytes("a=fmtp:");
            out.extend_from_slice(h.as_slice());
            let pd = u64_to_dec(pt as u64);
            out.extend_from_slice(pd.as_slice());
            let t = str_bytes(" 0-15");
            out.extend_from_slice(t.as_slice());
            push_line_tail(out);
        }
        None => {}
    }
    let ghost p2 = p1 + fmtp_attr_bytes(m@);
    proof {
        assert(out@ =~= old(out)@ + p2);
    }
    if m.sendrecv {
        let h = str_bytes("a=sendrecv");
        out.extend_from_slice(h.as_slice());
        push_line_tail(out);
    }
    let ghost p3 = p2 + sendrecv_attr_bytes(m@);
    proof {
        assert(out@ =~= old(out)@ + p3);
    }
    if m.rtcp_mux {
        let h = str_bytes("a=rtcp-mux");
        out.extend_from_slice(h.as_slice());
        push_line_tail(out);
    }
    proof {
        assert(out@ =~= old(out)@ + p3 + rtcp_attr_bytes(m@));
        assert(media_attrs_bytes(m@) =~= p3 + rtcp_attr_bytes(m@));
    }
}

fn push_media(out: &mut Vec<u8>, m: &SdpMedia)
    requires
        m.kind == SdpMediaKind::Audio,
    ensures
        final(out)@ == old(out)@ + media_bytes(m@),
{
    push_media_line(out, m);
    let ghost q1 = ascii_bytes("m=audio "@) + dec_digits(m@.port as nat) + ascii_bytes(
        " RTP/AVP"@,
    ) + fmt_list_bytes(m@.formats) + crlf();
    proof {
        assert(out@ =~= old(out)@ + q1);
    }
    push_rtpmaps(out, &m.rtpmaps);
    let ghost q2 = q1 + rtpmap_lines_bytes(m@.rtpmaps);
    proof {
        assert(out@ =~= old(out)@ + q2);
    }
    push_media_attrs(out, m);
    proof {
        assert(out@ =~= old(out)@ + q2 + media_attrs_bytes(m@));
        assert(media_bytes(m@) =~= q2 + media_attrs_bytes(m@));
    }
}

impl SdpSession {
    /// Serializes the session description.
    pub fn to_bytes(&self) -> (r: Vec<u8>)
        requires
            session_serializable(self@),
        ensures
            r@ == session_bytes(self@),
    {
        proof {
            reveal_strlit("v=0");
            reveal_strlit("o=Z 0 1234 IN IP4 ");
            reveal_strlit("s=Z");
            reveal_strlit("c=IN IP4 ");
            reveal_strlit("t=0 0");
        }
        let mut out = str_bytes("v=0");
        push_line_tail(&mut out);
        let o = str_bytes("o=Z 0 1234 IN IP4 ");
        out.extend_from_slice(o.as_slice());
        out.extend_from_slice(self.origin_ip.as_slice());
        push_line_tail(&mut out);
        let sname = str_bytes("s=Z");
        out.extend_from_slice(sname.as_slice());
        push_line_tail(&mut out);
        match &self.connection_ip {
            Some(ip) => {
                let c = str_bytes("c=IN IP4 ");
                out.extend_from_slice(c.as_slice());
                out.extend_from_slice(ip.as_slice());
                push_line_tail(&mut out);
            }
            None => {}
        }
        let t = str_bytes("t=0 0");
        out.extend_from_slice(t.as_slice());
        push_line_tail(&mut out);
        let ghost mid = out@;
        let n = self.media.len();
        let mut i: usize = 0;
        while i < n
            invariant
                n == self.media@.len(),
                session_serializable(self@),
                0 <= i <= n,
                out@ == mid + medias_bytes(self.media.deep_view().take(i as int)),
            decreases n - i,
        {
            assert(self.media.deep_view()[i as int] == self.media@[i as int]@);
            push_media(&mut out, &self.media[i]);
            proof {
                let mv = self.media.deep_view();
                assert(mv.take(i + 1).drop_last() =~= mv.take(i as int));
                assert(mv.take(i + 1).last() == mv[i as int]);
            }
            i += 1;
        }
        proof {
            assert(self.media.deep_view().take(n as int) =~= self.media.deep_view());
            assert(out@ =~= session_bytes(self@));
        }
        out
    }
}

// ------------------------------------------------------------------
// The offer this library generates.
// ------------------------------------------------------------------

/// The offer this library makes from a host address and an RTP port:
/// one audio section carrying PCMU (0), PCMA (8) and telephone-event
/// (101), sendrecv, rtcp-mux.
pub open spec fn local_offer(own_host: Seq<u8>, rtp_port: u16) -> SdpSessionView {
    SdpSessionView {
        origin_ip: own_host,
        connection_ip: Some(own_host),
        media: seq![
            SdpMediaView {
                kind: SdpMediaKind::Audio,
                port: rtp_port,
                formats: seq![0u8, 8u8, 101u8],
                rtpmaps: seq![
                    SdpRtpmapView {
                        payload_type: 0,
                        codec_name: ascii_bytes("PCMU"@),
                        frequency: 8000,
                        channels: None,
                    },
                    SdpRtpmapView {
                        payload_type: 8,
                        codec_name: ascii_bytes("PCMA"@),
                        frequency: 8000,
                        channels: None,
                    },
                    SdpRtpmapView {
                        payload_type: 101,
                        codec_name: ascii_bytes("telephone-event"@),
                        frequency: 8000,
                        channels: None,
                    },
                ],
                ptime: None,
                dtmf_fmtp: Some(101u8),
                sendrecv: true,
                rtcp_mux: true,
            },
        ],
    }
}

/// What this library can receive, as rtpmap entries in offer order.
pub open spec fn supported_rtpmaps() -> Seq<SdpRtpmapView> {
    seq![
        SdpRtpmapView {
            payload_type: 0,
            codec_name: ascii_bytes("PCMU"@),
            frequency: 8000,
            channels: None,
        },
        SdpRtpmapView {
            payload_type: 8,
            codec_name: ascii_bytes("PCMA"@),
            frequency: 8000,
            channels: None,
        },
        SdpRtpmapView {
            payload_type: 101,
            codec_name: ascii_bytes("telephone-event"@),
            frequency: 8000,
            channels: None,
        },
    ]
}

/// Adds every supported codec to a media section: the format numbers
/// 0, 8 and 101, their rtpmap lines, and the telephone-event `fmtp`.
pub fn populate_sdp_media_from_codecs(media: &mut SdpMedia)
    ensures
        final(media)@ == (SdpMediaView {
            kind: old(media)@.kind,
            port: old(media)@.port,
            formats: old(media)@.formats + seq![0u8, 8u8, 101u8],
            rtpmaps: old(media)@.rtpmaps + supported_rtpmaps(),
            ptime: old(media)@.ptime,
            dtmf_fmtp: Some(101u8),
            sendrecv: old(media)@.sendrecv,
            rtcp_mux: old(media)@.rtcp_mux,
        }),
{
    proof {
        reveal_strlit("PCMU");
        reveal_strlit("PCMA");
        reveal_strlit("telephone-event");
    }
    media.formats.push(0);
    media.formats.push(8);
    media.formats.push(101);
    media.rtpmaps.push(
        SdpRtpmap { payload_type: 0, codec_name: str_bytes("PCMU"), frequency: 8000, channels: None },
    );
    media.rtpmaps.push(
        SdpRtpmap { payload_type: 8, codec_name: str_bytes("PCMA"), frequency: 8000, channels: None },
    );
    media.rtpmaps.push(
        SdpRtpmap {
            payload_type: 101,
            codec_name: str_bytes("telephone-event"),
            frequency: 8000,
            channels: None,
        },
    );
    media.dtmf_fmtp = Some(101);
    assert(media@ =~~= SdpMediaView {
        kind: old(media)@.kind,
        port: old(media)@.port,
        formats: old(media)@.formats + seq![0u8, 8u8, 101u8],
        rtpmaps: old(media)@.rtpmaps + supported_rtpmaps(),
        ptime: old(media)@.ptime,
        dtmf_fmtp: Some(101u8),
        sendrecv: old(media)@.sendrecv,
        rtcp_mux: old(media)@.rtcp_mux,
    });
}

/// Builds the local offer: one audio section on `rtp_port` carrying
/// PCMU (0), PCMA (8) and telephone-event (101), sendrecv, rtcp-mux.
pub fn generate_sdp_new(config: &crate::config::Config, rtp_port: u16) -> (r: SdpSession)
    ensures
        r@ == local_offer(config@.own_host, rtp_port),
        session_serializable(r@),
{
    let mut media = SdpMedia {
        kind: SdpMediaKind::Audio,
        port: rtp_port,
        formats: Vec::new(),
        rtpmaps: Vec::new(),
        ptime: None,
        dtmf_fmtp: None,
        sendrecv: true,
        rtcp_mux: true,
    };
    populate_sdp_media_from_codecs(&mut media);
    let mut media_vec: Vec<SdpMedia> = Vec::new();
    media_vec.push(media);
    let r = SdpSession {
        origin_ip: crate::ascii::subvec(
            config.own_host.as_slice(),
            0,
            config.own_host.len(),
        ),
        connection_ip: Some(
            crate::ascii::subvec(config.own_host.as_slice(), 0, config.own_host.len()),
        ),
        media: media_vec,
    };
    assert(r@ =~~= local_offer(config@.own_host, rtp_port));
    r
}

// ------------------------------------------------------------------
// Negotiation searches.
// ------------------------------------------------------------------

/// The first rtpmap whose codec name matches, ASCII-case-insensitively.
pub open spec fn rtpmap_match(maps: Seq<SdpRtpmapView>, name: Seq<u8>) -> Option<SdpRtpmapView>
    decreases maps.len(),
{
    if maps.len() == 0 {
        None
    } else if lower_seq(maps.first().codec_name) == lower_seq(name) {
        Some(maps.first())
    } else {
        rtpmap_match(maps.drop_first(), name)
    }
}

/// What negotiation learned about a codec: the remote payload type,
/// clock rate, channel count, and the packet time of its section.
pub struct CodecMatch {
    pub payload_type: u8,
    pub frequency: u32,
    pub channels: Option<u32>,
    pub ptime: u32,
}

/// The first audio section carrying a matching rtpmap, searched in
/// order; the packet time defaults to 20 ms.
pub open spec fn find_codec(media: Seq<SdpMediaView>, name: Seq<u8>) -> Option<CodecMatch>
    decreases media.len(),
{
    if media.len() == 0 {
        None
    } else if media.first().kind == SdpMediaKind::Audio && rtpmap_match(
        media.first().rtpmaps,
        name,
    ) is Some {
        let r = rtpmap_match(media.first().rtpmaps, name).unwrap();
        Some(
            CodecMatch {
                payload_type: r.payload_type,
                frequency: r.frequency,
                channels: r.channels,
                ptime: match media.first().ptime {
                    Some(p) => p,
                    None => 20,
                },
            },
        )
    } else {
        find_codec(media.drop_first(), name)
    }
}

fn rtpmap_match_exec<'a>(maps: &'a Vec<SdpRtpmap>, name: &[u8]) -> (r: Option<&'a SdpRtpmap>)
    ensures
        match r {
            Some(m) => rtpmap_match(maps.deep_view(), name@) == Some(m@),
            None => rtpmap_match(maps.deep_view(), name@) is None,
        },
{
    let n = maps.len();
    let mut i: usize = 0;
    proof {
        assert(maps.deep_view().skip(0) =~= maps.deep_view());
    }
    while i < n
        invariant
            n == maps@.len(),
            0 <= i <= n,
            rtpmap_match(maps.deep_view(), name@) == rtpmap_match(
                maps.deep_view().skip(i as int),
                name@,
            ),
        decreases n - i,
    {
        proof {
            let tail = maps.deep_view().skip(i as int);
            assert(tail.first() == maps.deep_view()[i as int]);
            assert(tail.drop_first() =~= maps.deep_view().skip(i + 1));
        }
        if eq_ignore_case(maps[i].codec_name.as_slice(), name) {
            return Some(&maps[i]);
        }
        i += 1;
    }
    proof {
        assert(maps.deep_view().skip(n as int) =~= Seq::<SdpRtpmapView>::empty());
    }
    None
}

/// Searches the session for a codec by rtpmap name.
pub fn find_codec_exec(sdp: &SdpSession, name: &[u8]) -> (r: Option<(u8, u32, Option<u32>, u32)>)
    ensures
        match r {
            Some((pt, freq, ch, ptime)) => find_codec(sdp@.media, name@) == Some(
                CodecMatch { payload_type: pt, frequency: freq, channels: ch, ptime },
            ),
            None => find_codec(sdp@.media, name@) is None,
        },
{
    let n = sdp.media.len();
    let mut i: usize = 0;
    proof {
        assert(sdp.media.deep_view().skip(0) =~= sdp.media.deep_view());
    }
    while i < n
        invariant
            n == sdp.media@.len(),
            0 <= i <= n,
            find_codec(sdp@.media, name@) == find_codec(
                sdp.media.deep_view().skip(i as int),
                name@,
            ),
        decreases n - i,
    {
        proof {
            let tail = sdp.media.deep_view().skip(i as int);
            assert(tail.first() == sdp.media.deep_view()[i as int]);
            assert(tail.drop_first() =~= sdp.media.deep_view().skip(i + 1));
        }
        let is_audio = match sdp.media[i].kind {
            SdpMediaKind::Audio => true,
            SdpMediaKind::Other => false,
        };
        if is_audio {
            match rtpmap_match_exec(&sdp.media[i].rtpmaps, name) {
                Some(m) => {
                    let ptime = match sdp.media[i].ptime {
                        Some(p) => p,
                        None => 20,
                    };
                    return Some((m.payload_type, m.frequency, m.channels, ptime));
                }
                None => {}
            }
        }
        i += 1;
    }
    proof {
        assert(sdp.media.deep_view().skip(n as int) =~= Seq::<SdpMediaView>::empty());
    }
    None
}

/// The first audio section of a session.
pub open spec fn first_audio(media: Seq<SdpMediaView>) -> Option<SdpMediaView>
    decreases media.len(),
{
    if media.len() == 0 {
        None
    } else if media.first().kind == SdpMediaKind::Audio {
        Some(media.first())
    } else {
        first_audio(media.drop_first())
    }
}

/// Reads the remote RTP endpoint from an answer: the `c=` address and
/// the port of the first audio section. Anything less is `InvalidSdp`.
pub fn get_remote_endpoint(sdp: &SdpSession) -> (r: Result<(Vec<u8>, u16), SipError>)
    ensures
        r is Ok <==> sdp@.connection_ip is Some && first_audio(sdp@.media) is Some,
        r matches Ok((ip, port)) ==> Some(ip@) == sdp@.connection_ip && port == first_audio(
            sdp@.media,
        ).unwrap().port,
        r matches Err(e) ==> e == SipError::InvalidSdp,
{
    let ip = match &sdp.connection_ip {
        None => {
            return Err(SipError::InvalidSdp);
        }
        Some(ip) => subvec(ip.as_slice(), 0, ip.len()),
    };
    let n = sdp.media.len();
    let mut i: usize = 0;
    proof {
        assert(sdp.media.deep_view().skip(0) =~= sdp.media.deep_view());
    }
    while i < n
        invariant
            n == sdp.media@.len(),
            0 <= i <= n,
            ip@ == sdp@.connection_ip.unwrap(),
            sdp@.connection_ip is Some,
            first_audio(sdp@.media) == first_audio(sdp.media.deep_view().skip(i as int)),
        decreases n - i,
    {
        proof {
            let tail = sdp.media.deep_view().skip(i as int);
            assert(tail.first() == sdp.media.deep_view()[i as int]);
            assert(tail.drop_first() =~= sdp.media.deep_view().skip(i + 1));
        }
        let is_audio = match sdp.media[i].kind {
            SdpMediaKind::Audio => true,
            SdpMediaKind::Other => false,
        };
        if is_audio {
            return Ok((ip, sdp.media[i].port));
        }
        i += 1;
    }
    proof {
        assert(sdp.media.deep_view().skip(n as int) =~= Seq::<SdpMediaView>::empty());
    }
    Err(SipError::InvalidSdp)
}


// ------------------------------------------------------------------
// Parsing.
// ------------------------------------------------------------------

/// A fresh media section holding only its kind and port.
pub open spec fn empty_media(kind: SdpMediaKind, port: u16) -> SdpMediaView {
    SdpMediaView {
        kind,
        port,
        formats: Seq::empty(),
        rtpmaps: Seq::empty(),
        ptime: None,
        dtmf_fmtp: None,
        sendrecv: false,
        rtcp_mux: false,
    }
}

/// Reads an `m=` line: kind token, port, and at least a protocol field.
pub open spec fn spec_parse_media_line(line: Seq<u8>) -> Option<(SdpMediaKind, u16)> {
    let rest = line.skip(2);
    match spec_find_byte(rest, 32) {
        None => None,
        Some(i) => if i < 1 {
            None
        } else {
            let kind = if lower_seq(rest.subrange(0, i)) == lower_seq(ascii_bytes("audio"@)) {
                SdpMediaKind::Audio
            } else {
                SdpMediaKind::Other
            };
            let after = rest.skip(i + 1);
            match spec_find_byte(after, 32) {
                None => None,
                Some(j) => if j < 1 {
                    None
                } else {
                    let digits = after.subrange(0, j);
                    if all_digits(digits) && dec_val(digits) <= u16::MAX {
                        Some((kind, dec_val(digits) as u16))
                    } else {
                        None
                    }
                },
            }
        },
    }
}

/// Reads an `a=rtpmap:` line: payload type, name, clock rate, and an
/// optional channel count.
pub open spec fn spec_parse_rtpmap_line(line: Seq<u8>) -> Option<SdpRtpmapView> {
    let rest = line.skip(9);
    match spec_find_byte(rest, 32) {
        None => None,
        Some(i) => if i < 1 {
            None
        } else {
            let ptd = rest.subrange(0, i);
            let after = rest.skip(i + 1);
            if all_digits(ptd) && dec_val(ptd) <= u8::MAX {
                match spec_find_byte(after, 47) {
                    None => None,
                    Some(k) => if k < 1 {
                        None
                    } else {
                        let name = after.subrange(0, k);
                        let freqpart = after.skip(k + 1);
                        match spec_find_byte(freqpart, 47) {
                            None => if freqpart.len() > 0 && all_digits(freqpart) && dec_val(
                                freqpart,
                            ) <= u32::MAX {
                                Some(
                                    SdpRtpmapView {
                                        payload_type: dec_val(ptd) as u8,
                                        codec_name: name,
                                        frequency: dec_val(freqpart) as u32,
                                        channels: None,
                                    },
                                )
                            } else {
                                None
                            },
                            Some(c) => {
                                let fd = freqpart.subrange(0, c);
                                let cd = freqpart.skip(c + 1);
                                if c >= 1 && all_digits(fd) && dec_val(fd) <= u32::MAX
                                    && cd.len() > 0 && all_digits(cd) && dec_val(cd)
                                    <= u32::MAX {
                                    Some(
                                        SdpRtpmapView {
                                            payload_type: dec_val(ptd) as u8,
                                            codec_name: name,
                                            frequency: dec_val(fd) as u32,
                                            channels: Some(dec_val(cd) as u32),
                                        },
                                    )
                                } else {
                                    None
                                }
                            },
                        }
                    },
                }
            } else {
                None
            }
        },
    }
}

/// Applies one SDP line to the session being built. Lines this library
/// does not read pass through unchanged; a malformed line it does read
/// rejects the whole description.
pub open spec fn spec_sdp_line(line: Seq<u8>, acc: SdpSessionView) -> Option<SdpSessionView> {
    if crate::ascii::starts_with(line, ascii_bytes("c="@)) {
        if crate::ascii::starts_with(line, ascii_bytes("c=IN IP4 "@)) {
            if acc.connection_ip is None {
                Some(
                    SdpSessionView {
                        origin_ip: acc.origin_ip,
                        connection_ip: Some(line.skip(9)),
                        media: acc.media,
                    },
                )
            } else {
                Some(acc)
            }
        } else {
            None
        }
    } else if crate::ascii::starts_with(line, ascii_bytes("m="@)) {
        match spec_parse_media_line(line) {
            None => None,
            Some((kind, port)) => Some(
                SdpSessionView {
                    origin_ip: acc.origin_ip,
                    connection_ip: acc.connection_ip,
                    media: acc.media.push(empty_media(kind, port)),
                },
            ),
        }
    } else if crate::ascii::starts_with(line, ascii_bytes("a=rtpmap:"@)) {
        if acc.media.len() == 0 {
            Some(acc)
        } else {
            match spec_parse_rtpmap_line(line) {
                None => None,
                Some(r) => {
                    let last = acc.media.last();
                    let updated = SdpMediaView {
                        kind: last.kind,
                        port: last.port,
                        formats: last.formats,
                        rtpmaps: last.rtpmaps.push(r),
                        ptime: last.ptime,
                        dtmf_fmtp: last.dtmf_fmtp,
                        sendrecv: last.sendrecv,
                        rtcp_mux: last.rtcp_mux,
                    };
                    Some(
                        SdpSessionView {
                            origin_ip: acc.origin_ip,
                            connection_ip: acc.connection_ip,
                            media: acc.media.update(acc.media.len() - 1, updated),
                        },
                    )
                },
            }
        }
    } else if crate::ascii::starts_with(line, ascii_bytes("a=ptime:"@)) {
        if acc.media.len() == 0 {
            Some(acc)
        } else {
            let d = line.skip(8);
            if d.len() > 0 && all_digits(d) && dec_val(d) <= u32::MAX {
                let last = acc.media.last();
                let updated = SdpMediaView {
                    kind: last.kind,
                    port: last.port,
                    formats: last.formats,
                    rtpmaps: last.rtpmaps,
                    ptime: Some(dec_val(d) as u32),
                    dtmf_fmtp: last.dtmf_fmtp,
                    sendrecv: last.sendrecv,
                    rtcp_mux: last.rtcp_mux,
                };
                Some(
                    SdpSessionView {
                        origin_ip: acc.origin_ip,
                        connection_ip: acc.connection_ip,
                        media: acc.media.update(acc.media.len() - 1, updated),
                    },
                )
            } else {
                None
            }
        }
    } else {
        Some(acc)
    }
}

/// Folds the remaining lines of a description into the session.
pub open spec fn spec_sdp_lines(s: Seq<u8>, acc: SdpSessionView) -> Option<SdpSessionView>
    decreases s.len(),
{
    if s.len() == 0 {
        Some(acc)
    } else {
        match spec_find_crlf(s) {
            None => match spec_sdp_line(s, acc) {
                None => None,
                Some(acc2) => Some(acc2),
            },
            Some(k) => if k < 0 || k + 2 > s.len() {
                None
            } else {
                match spec_sdp_line(s.subrange(0, k), acc) {
                    None => None,
                    Some(acc2) => spec_sdp_lines(s.subrange(k + 2, s.len() as int), acc2),
                }
            },
        }
    }
}

/// The empty session a parse starts from.
pub open spec fn init_session() -> SdpSessionView {
    SdpSessionView { origin_ip: Seq::empty(), connection_ip: None, media: Seq::empty() }
}

/// What `parse_sdp` reads from a description.
pub open spec fn spec_parse_sdp(b: Seq<u8>) -> Option<SdpSessionView> {
    spec_sdp_lines(b, init_session())
}

fn parse_media_line(line: &[u8]) -> (r: Option<(SdpMediaKind, u16)>)
    requires
        line@.len() >= 2,
    ensures
        r == spec_parse_media_line(line@),
{
    proof {
        reveal_strlit("audio");
    }
    let ln = line.len();
    let rest = slice_range(line, 2, ln);
    proof {
        lemma_find_byte_char(rest@, 32);
    }
    let i = match find_byte(rest, 32) {
        None => {
            return None;
        }
        Some(i) => i,
    };
    if i < 1 {
        return None;
    }
    let audio = str_bytes("audio");
    let kind = if eq_ignore_case(slice_range(rest, 0, i), audio.as_slice()) {
        SdpMediaKind::Audio
    } else {
        SdpMediaKind::Other
    };
    let rn = rest.len();
    let after = slice_range(rest, i + 1, rn);
    proof {
        lemma_find_byte_char(after@, 32);
    }
    let j = match find_byte(after, 32) {
        None => {
            return None;
        }
        Some(j) => j,
    };
    if j < 1 {
        return None;
    }
    let port = match parse_dec(slice_range(after, 0, j)) {
        None => {
            return None;
        }
        Some(p) => p,
    };
    if port > u16::MAX as u32 {
        return None;
    }
    Some((kind, port as u16))
}

fn parse_rtpmap_line(line: &[u8]) -> (r: Option<SdpRtpmap>)
    requires
        line@.len() >= 9,
    ensures
        match r {
            Some(m) => spec_parse_rtpmap_line(line@) == Some(m@),
            None => spec_parse_rtpmap_line(line@) is None,
        },
{
    let ln = line.len();
    let rest = slice_range(line, 9, ln);
    proof {
        lemma_find_byte_char(rest@, 32);
    }
    let i = match find_byte(rest, 32) {
        None => {
            return None;
        }
        Some(i) => i,
    };
    if i < 1 {
        return None;
    }
    let pt = match parse_dec(slice_range(rest, 0, i)) {
        None => {
            return None;
        }
        Some(p) => p,
    };
    if pt > u8::MAX as u32 {
        return None;
    }
    let rn = rest.len();
    let after = slice_range(rest, i + 1, rn);
    proof {
        lemma_find_byte_char(after@, 47);
    }
    let k = match find_byte(after, 47) {
        None => {
            return None;
        }
        Some(k) => k,
    };
    if k < 1 {
        return None;
    }
    let name = subvec(after, 0, k);
    let an = after.len();
    let freqpart = slice_range(after, k + 1, an);
    proof {
        lemma_find_byte_char(freqpart@, 47);
    }
    match find_byte(freqpart, 47) {
        None => {
            let freq = match parse_dec(freqpart) {
                None => {
                    return None;
                }
                Some(f) => f,
            };
            Some(SdpRtpmap { payload_type: pt as u8, codec_name: name, frequency: freq, channels: None })
        }
        Some(c) => {
            if c < 1 {
                return None;
            }
            let freq = match parse_dec(slice_range(freqpart, 0, c)) {
                None => {
                    return None;
                }
                Some(f) => f,
            };
            let fpn = freqpart.len();
            let ch = match parse_dec(slice_range(freqpart, c + 1, fpn)) {
                None => {
                    return None;
                }
                Some(ch) => ch,
            };
            Some(
                SdpRtpmap {
                    payload_type: pt as u8,
                    codec_name: name,
                    frequency: freq,
                    channels: Some(ch),
                },
            )
        }
    }
}

fn apply_sdp_line(line: &[u8], acc: SdpSession) -> (r: Result<SdpSession, SipError>)
    ensures
        match r {
            Ok(out) => spec_sdp_line(line@, acc@) == Some(out@),
            Err(e) => spec_sdp_line(line@, acc@) is None && e == SipError::InvalidSdp,
        },
{
    proof {
        reveal_strlit("c=");
        reveal_strlit("c=IN IP4 ");
        reveal_strlit("m=");
        reveal_strlit("a=rtpmap:");
        reveal_strlit("a=ptime:");
    }
    let mut acc = acc;
    let ln = line.len();
    let c_lit = str_bytes("c=");
    let cin_lit = str_bytes("c=IN IP4 ");
    let m_lit = str_bytes("m=");
    let rtpmap_lit = str_bytes("a=rtpmap:");
    let ptime_lit = str_bytes("a=ptime:");
    if crate::ascii::has_prefix(line, c_lit.as_slice()) {
        if crate::ascii::has_prefix(line, cin_lit.as_slice()) {
            if acc.connection_ip.is_none() {
                acc.connection_ip = Some(subvec(line, 9, ln));
            }
            return Ok(acc);
        }
        return Err(SipError::InvalidSdp);
    }
    if crate::ascii::has_prefix(line, m_lit.as_slice()) {
        match parse_media_line(line) {
            None => {
                return Err(SipError::InvalidSdp);
            }
            Some((kind, port)) => {
                let media = SdpMedia {
                    kind,
                    port,
                    formats: Vec::new(),
                    rtpmaps: Vec::new(),
                    ptime: None,
                    dtmf_fmtp: None,
                    sendrecv: false,
                    rtcp_mux: false,
                };
                let ghost pre = acc.media.deep_view();
                acc.media.push(media);
                proof {
                    assert(acc.media.deep_view() =~~= pre.push(empty_media(kind, port)));
                }
                return Ok(acc);
            }
        }
    }
    if crate::ascii::has_prefix(line, rtpmap_lit.as_slice()) {
        if acc.media.len() == 0 {
            return Ok(acc);
        }
        match parse_rtpmap_line(line) {
            None => {
                return Err(SipError::InvalidSdp);
            }
            Some(rm) => {
                let ghost pre = acc.media.deep_view();
                let mut last = match acc.media.pop() {
                    Some(last) => last,
                    None => {
                        return Err(SipError::InvalidSdp);
                    }
                };
                let ghost lastpre = last@;
                last.rtpmaps.push(rm);
                proof {
                    assert(last@.rtpmaps =~= lastpre.rtpmaps.push(rm@));
                }
                acc.media.push(last);
                proof {
                    assert(acc.media.deep_view() =~~= pre.update(pre.len() - 1, last@));
                }
                return Ok(acc);
            }
        }
    }
    if crate::ascii::has_prefix(line, ptime_lit.as_slice()) {
        if acc.media.len() == 0 {
            return Ok(acc);
        }
        let d = slice_range(line, 8, ln);
        let v = match parse_dec(d) {
            None => {
                return Err(SipError::InvalidSdp);
            }
            Some(v) => v,
        };
        let ghost pre = acc.media.deep_view();
        let mut last = match acc.media.pop() {
            Some(last) => last,
            None => {
                return Err(SipError::InvalidSdp);
            }
        };
        last.ptime = Some(v);
        acc.media.push(last);
        proof {
            assert(acc.media.deep_view() =~~= pre.update(pre.len() - 1, last@));
        }
        return Ok(acc);
    }
    Ok(acc)
}

fn parse_sdp_lines(s: &[u8], acc: SdpSession) -> (r: Result<SdpSession, SipError>)
    ensures
        match r {
            Ok(out) => spec_sdp_lines(s@, acc@) == Some(out@),
            Err(e) => spec_sdp_lines(s@, acc@) is None && e == SipError::InvalidSdp,
        },
    decreases s@.len(),
{
    let n = s.len();
    if n == 0 {
        return Ok(acc);
    }
    proof {
        crate::message::lemma_find_crlf_char(s@);
    }
    match find_crlf_from(s, 0) {
        None => {
            match apply_sdp_line(s, acc) {
                Err(e) => Err(e),
                Ok(out) => Ok(out),
            }
        }
        Some(k) => {
            let line = slice_range(s, 0, k);
            let acc2 = match apply_sdp_line(line, acc) {
                Err(e) => {
                    return Err(e);
                }
                Ok(a) => a,
            };
            parse_sdp_lines(slice_range(s, k + 2, n), acc2)
        }
    }
}

/// Parses a session description: `c=`, `m=`, `a=rtpmap:` and
/// `a=ptime:` lines are read; other lines pass through; a malformed
/// line of a read kind is `InvalidSdp`.
pub fn parse_sdp(b: &[u8]) -> (r: Result<SdpSession, SipError>)
    ensures
        match r {
            Ok(out) => spec_parse_sdp(b@) == Some(out@),
            Err(e) => spec_parse_sdp(b@) is None && e == SipError::InvalidSdp,
        },
{
    let acc = SdpSession { origin_ip: Vec::new(), connection_ip: None, media: Vec::new() };
    proof {
        assert(acc@ =~~= init_session());
    }
    parse_sdp_lines(b, acc)
}

} // verus!
