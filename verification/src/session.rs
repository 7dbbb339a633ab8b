//! Per-dialog session state: the Call-ID, the local CSeq counter, and
//! both sides' URIs, tags and session descriptions; plus the header
//! blocks built for in-dialog requests and replies.

use vstd::prelude::*;
use crate::ascii::{
    ascii_bytes, find_byte, slice_range, str_bytes, subvec, u64_to_dec,
};
use crate::config::{own_uri_of, via_value_of, Config, ConfigView};
use crate::digest::{spec_find_sub, sub_at};
use crate::errors::SipError;
use crate::message::{
    find_hdr, find_header, hdr, lemma_find_byte_char, spec_find_byte, Header, HeaderView,
    Request,
};
use crate::sdp::{spec_parse_sdp, SdpSession, SdpSessionView};

verus! {

/// This side of a dialog.
#[derive(Clone)]
pub struct LocalSessionParameters {
    pub uri: Vec<u8>,
    pub tag: Vec<u8>,
    pub sdp: SdpSession,
    pub port: u16,
}

/// Ghost image of the local side.
#[verifier::ext_equal]
pub struct LocalSessionParametersView {
    pub uri: Seq<u8>,
    pub tag: Seq<u8>,
    pub sdp: SdpSessionView,
    pub port: u16,
}

impl View for LocalSessionParameters {
    type V = LocalSessionParametersView;

    open spec fn view(&self) -> LocalSessionParametersView {
        LocalSessionParametersView {
            uri: self.uri@,
            tag: self.tag@,
            sdp: self.sdp@,
            port: self.port,
        }
    }
}

/// The remote side of a dialog.
#[derive(Clone)]
pub struct RemoteSessionParameters {
    pub uri: Vec<u8>,
    pub tag: Vec<u8>,
    pub sdp: SdpSession,
}

/// Ghost image of the remote side.
#[verifier::ext_equal]
pub struct RemoteSessionParametersView {
    pub uri: Seq<u8>,
    pub tag: Seq<u8>,
    pub sdp: SdpSessionView,
}

impl View for RemoteSessionParameters {
    type V = RemoteSessionParametersView;

    open spec fn view(&self) -> RemoteSessionParametersView {
        RemoteSessionParametersView { uri: self.uri@, tag: self.tag@, sdp: self.sdp@ }
    }
}

/// Everything a dialog needs to address its peer.
#[derive(Clone)]
pub struct SessionParameters {
    pub cseq: u32,
    pub call_id: Vec<u8>,
    pub remote: RemoteSessionParameters,
    pub local: LocalSessionParameters,
    pub config: Config,
}

/// Ghost image of a dialog's state.
#[verifier::ext_equal]
pub struct SessionParametersView {
    pub cseq: u32,
    pub call_id: Seq<u8>,
    pub remote: RemoteSessionParametersView,
    pub local: LocalSessionParametersView,
    pub config: ConfigView,
}

impl View for SessionParameters {
    type V = SessionParametersView;

    open spec fn view(&self) -> SessionParametersView {
        SessionParametersView {
            cseq: self.cseq,
            call_id: self.call_id@,
            remote: self.remote@,
            local: self.local@,
            config: self.config@,
        }
    }
}

// ------------------------------------------------------------------
// Tag and URI extraction.
// ------------------------------------------------------------------

/// The value of a `tag` parameter inside a `From` or `To` value: the
/// text after the first `;tag=`, up to the next `;`.
pub open spec fn spec_tag_of(v: Seq<u8>) -> Option<Seq<u8>> {
    match spec_find_sub(v, ascii_bytes(";tag="@)) {
        None => None,
        Some(i) => {
            let rest = v.skip(i + 5);
            match spec_find_byte(rest, 59) {
                None => Some(rest),
                Some(e) => Some(rest.take(e)),
            }
        },
    }
}

/// The URI inside a `From` or `To` value: the text before the first
/// `;tag=`, with one level of angle brackets stripped.
pub open spec fn spec_uri_of(v: Seq<u8>) -> Seq<u8> {
    let base = match spec_find_sub(v, ascii_bytes(";tag="@)) {
        None => v,
        Some(i) => v.take(i),
    };
    if base.len() >= 2 && base.first() == 60 && base.last() == 62 {
        base.subrange(1, base.len() - 1)
    } else {
        base
    }
}

/// Extracts the `tag` parameter of an address header value.
pub fn tag_of(v: &[u8]) -> (r: Option<Vec<u8>>)
    ensures
        match r {
            Some(t) => spec_tag_of(v@) == Some(t@),
            None => spec_tag_of(v@) is None,
        },
{
    proof {
        reveal_strlit(";tag=");
    }
    let pat = str_bytes(";tag=");
    let vn = v.len();
    let i = match crate::digest::find_sub(v, pat.as_slice()) {
        None => {
            return None;
        }
        Some(i) => i,
    };
    proof {
        crate::digest::lemma_find_sub_char(v@, pat@);
    }
    let rest = slice_range(v, i + 5, vn);
    proof {
        lemma_find_byte_char(rest@, 59);
    }
    match find_byte(rest, 59) {
        None => Some(subvec(rest, 0, rest.len())),
        Some(e) => Some(subvec(rest, 0, e)),
    }
}

/// Extracts the URI of an address header value.
pub fn uri_of(v: &[u8]) -> (r: Vec<u8>)
    ensures
        r@ == spec_uri_of(v@),
{
    proof {
        reveal_strlit(";tag=");
    }
    let pat = str_bytes(";tag=");
    let vn = v.len();
    let cut = match crate::digest::find_sub(v, pat.as_slice()) {
        None => vn,
        Some(i) => i,
    };
    proof {
        crate::digest::lemma_find_sub_char(v@, pat@);
    }
    let base = slice_range(v, 0, cut);
    if base.len() >= 2 && base[0] == 60 && base[base.len() - 1] == 62 {
        let r = subvec(base, 1, base.len() - 1);
        assert(r@ =~= spec_uri_of(v@));
        r
    } else {
        let r = subvec(base, 0, base.len());
        assert(r@ =~= spec_uri_of(v@));
        r
    }
}

/// The canonical address value this library writes:
/// `<uri>;tag=<tag>`.
pub open spec fn addr_value_of(uri: Seq<u8>, tag: Seq<u8>) -> Seq<u8> {
    seq![60u8] + uri + ascii_bytes(">;tag="@) + tag
}

/// The canonical address value without a tag: `<uri>`.
pub open spec fn addr_value_untagged(uri: Seq<u8>) -> Seq<u8> {
    seq![60u8] + uri + seq![62u8]
}

/// Builds `<uri>;tag=<tag>`.
pub fn make_addr_value(uri: &[u8], tag: &[u8]) -> (r: Vec<u8>)
    ensures
        r@ == addr_value_of(uri@, tag@),
{
    proof {
        reveal_strlit(">;tag=");
    }
    let mut out: Vec<u8> = Vec::new();
    out.push(60);
    out.extend_from_slice(uri);
    let mid = str_bytes(">;tag=");
    out.extend_from_slice(mid.as_slice());
    out.extend_from_slice(tag);
    assert(out@ =~= addr_value_of(uri@, tag@));
    out
}

/// Builds `<uri>`.
pub fn make_addr_value_untagged(uri: &[u8]) -> (r: Vec<u8>)
    ensures
        r@ == addr_value_untagged(uri@),
{
    let mut out: Vec<u8> = Vec::new();
    out.push(60);
    out.extend_from_slice(uri);
    out.push(62);
    assert(out@ =~= addr_value_untagged(uri@));
    out
}

/// Round trip of the canonical address form: the tag and URI written
/// by this library are read back unchanged, whenever neither holds the
/// separator text itself.
pub proof fn lemma_addr_value_roundtrip(uri: Seq<u8>, tag: Seq<u8>)
    requires
        forall|i: int| !sub_at(uri, ascii_bytes(";tag="@), i),
        forall|i: int| !sub_at(tag, ascii_bytes(";tag="@), i),
        forall|i: int| 0 <= i < tag.len() ==> tag[i] != 59,
        uri.len() > 0,
        tag.len() > 0,
    ensures
        spec_tag_of(addr_value_of(uri, tag)) == Some(tag),
        spec_uri_of(addr_value_of(uri, tag)) == uri,
{
    reveal_strlit(";tag=");
    reveal_strlit(">;tag=");
    let pat = ascii_bytes(";tag="@);
    let v = addr_value_of(uri, tag);
    let k = 2 + uri.len() as int;
    assert(v.subrange(k, k + 5) =~= pat);
    assert(sub_at(v, pat, k));
    assert forall|j: int| 0 <= j < k implies !sub_at(v, pat, j) by {
        if sub_at(v, pat, j) {
            if j == 0 {
                assert(v[0] == 60 && pat[0] == 59);
            } else if j + 5 <= k - 1 {
                assert(uri.subrange(j - 1, j + 4) =~= v.subrange(j, j + 5));
                assert(sub_at(uri, pat, j - 1));
            } else {
                // the window covers the `>` just before `;tag=`
                assert(v[k - 1] == 62);
                assert(pat[(k - 1) - j] == 62);
            }
        }
    }
    crate::digest::lemma_find_sub_char(v, pat);
    match spec_find_sub(v, pat) {
        None => {
            assert(false);
        }
        Some(i) => {
            assert(i == k);
            let rest = v.skip(i + 5);
            assert(rest =~= tag);
            crate::message::lemma_find_byte_char(rest, 59);
            match spec_find_byte(rest, 59) {
                None => {}
                Some(e) => {
                    assert(false);
                }
            }
            assert(spec_tag_of(v) == Some(tag));
        },
    }
    let base = v.take(k);
    assert(base.first() == 60 && base.last() == 62 && base.len() >= 2);
    assert(base.subrange(1, base.len() - 1) =~= uri);
}

// ------------------------------------------------------------------
// The header blocks of in-dialog messages.
// ------------------------------------------------------------------

/// The headers of an in-dialog request this side originates: own Via,
/// Max-Forwards, Call-ID, Contact, From (local, tagged), To (remote,
/// tagged), Content-Length 0, User-Agent.
pub open spec fn request_headers_of(s: SessionParametersView, branch: Seq<u8>) -> Seq<
    HeaderView,
> {
    seq![
        HeaderView { name: ascii_bytes("Via"@), value: via_value_of(s.config, branch) },
        HeaderView { name: ascii_bytes("Max-Forwards"@), value: ascii_bytes("70"@) },
        HeaderView { name: ascii_bytes("Call-ID"@), value: s.call_id },
        HeaderView { name: ascii_bytes("Contact"@), value: own_uri_of(s.config) },
        HeaderView {
            name: ascii_bytes("From"@),
            value: addr_value_of(s.local.uri, s.local.tag),
        },
        HeaderView { name: ascii_bytes("To"@), value: addr_value_of(s.remote.uri, s.remote.tag) },
        HeaderView { name: ascii_bytes("Content-Length"@), value: ascii_bytes("0"@) },
        HeaderView { name: ascii_bytes("User-Agent"@), value: ascii_bytes("sip-rs"@) },
    ]
}

/// The headers of a reply to a received in-dialog request: its `Via`
/// and `CSeq` are echoed byte for byte; `From` is the remote side,
/// `To` the local side with the local tag added.
pub open spec fn response_headers_of(s: SessionParametersView, req: crate::message::RequestView) -> Seq<HeaderView> {
    seq![
        HeaderView { name: ascii_bytes("Max-Forwards"@), value: ascii_bytes("70"@) },
        HeaderView {
            name: ascii_bytes("Via"@),
            value: find_hdr(req.headers, ascii_bytes("Via"@)).unwrap(),
        },
        HeaderView { name: ascii_bytes("Call-ID"@), value: s.call_id },
        HeaderView {
            name: ascii_bytes("From"@),
            value: addr_value_of(s.remote.uri, s.remote.tag),
        },
        HeaderView { name: ascii_bytes("To"@), value: addr_value_of(s.local.uri, s.local.tag) },
        HeaderView {
            name: ascii_bytes("CSeq"@),
            value: find_hdr(req.headers, ascii_bytes("CSeq"@)).unwrap(),
        },
        HeaderView { name: ascii_bytes("Content-Length"@), value: ascii_bytes("0"@) },
        HeaderView { name: ascii_bytes("User-Agent"@), value: ascii_bytes("sip-rs"@) },
    ]
}

/// The headers of a reply that carries an SDP body: as
/// [`response_headers_of`], with the real body length and a
/// `Content-Type` for SDP.
pub open spec fn response_headers_with_body_of(
    s: SessionParametersView,
    req: crate::message::RequestView,
    body_len: int,
) -> Seq<HeaderView> {
    seq![
        HeaderView { name: ascii_bytes("Max-Forwards"@), value: ascii_bytes("70"@) },
        HeaderView {
            name: ascii_bytes("Via"@),
            value: find_hdr(req.headers, ascii_bytes("Via"@)).unwrap(),
        },
        HeaderView { name: ascii_bytes("Call-ID"@), value: s.call_id },
        HeaderView {
            name: ascii_bytes("From"@),
            value: addr_value_of(s.remote.uri, s.remote.tag),
        },
        HeaderView { name: ascii_bytes("To"@), value: addr_value_of(s.local.uri, s.local.tag) },
        HeaderView {
            name: ascii_bytes("CSeq"@),
            value: find_hdr(req.headers, ascii_bytes("CSeq"@)).unwrap(),
        },
        HeaderView {
            name: ascii_bytes("Content-Type"@),
            value: ascii_bytes("application/sdp"@),
        },
        HeaderView {
            name: ascii_bytes("Content-Length"@),
            value: crate::ascii::dec_digits(body_len as nat),
        },
        HeaderView { name: ascii_bytes("User-Agent"@), value: ascii_bytes("sip-rs"@) },
    ]
}

impl SessionParameters {
    /// Steps the dialog's CSeq and returns the new value. Successive
    /// calls return strictly increasing numbers, which keeps every
    /// request this side emits on the dialog above all earlier ones.
    pub fn get_next_cseq(&mut self) -> (r: u32)
        requires
            old(self).cseq < u32::MAX,
        ensures
            final(self).cseq == old(self).cseq + 1,
            r == final(self).cseq,
            r > old(self).cseq,
            final(self).call_id == old(self).call_id,
            final(self).remote == old(self).remote,
            final(self).local == old(self).local,
            final(self).config == old(self).config,
    {
        self.cseq = self.cseq + 1;
        self.cseq
    }

    /// Builds the headers of an in-dialog request under a fresh branch.
    pub fn get_headers_request(&self, branch: &[u8]) -> (r: Vec<Header>)
        ensures
            r.deep_view() == request_headers_of(self@, branch@),
    {
        proof {
            reveal_strlit("Max-Forwards");
            reveal_strlit("70");
            reveal_strlit("Call-ID");
            reveal_strlit("From");
            reveal_strlit("To");
            reveal_strlit("Content-Length");
            reveal_strlit("0");
            reveal_strlit("User-Agent");
            reveal_strlit("sip-rs");
        }
        let mut out: Vec<Header> = Vec::new();
        out.push(self.config.get_own_via(branch));
        out.push(hdr("Max-Forwards", str_bytes("70")));
        out.push(hdr("Call-ID", subvec(self.call_id.as_slice(), 0, self.call_id.len())));
        out.push(self.config.get_own_contact());
        out.push(
            hdr("From", make_addr_value(self.local.uri.as_slice(), self.local.tag.as_slice())),
        );
        out.push(
            hdr("To", make_addr_value(self.remote.uri.as_slice(), self.remote.tag.as_slice())),
        );
        out.push(hdr("Content-Length", str_bytes("0")));
        out.push(hdr("User-Agent", str_bytes("sip-rs")));
        assert(out.deep_view() =~~= request_headers_of(self@, branch@));
        out
    }

    /// Builds the headers of a reply that carries an SDP body of
    /// `body_len` bytes, echoing the request's `Via` and `CSeq`.
    pub fn get_headers_response_with_body(&self, request: &Request, body_len: u32) -> (r: Result<
        Vec<Header>,
        SipError,
    >)
        ensures
            r is Ok <==> find_hdr(request@.headers, ascii_bytes("Via"@)) is Some && find_hdr(
                request@.headers,
                ascii_bytes("CSeq"@),
            ) is Some,
            r matches Ok(hs) ==> hs.deep_view() == response_headers_with_body_of(
                self@,
                request@,
                body_len as int,
            ),
            r matches Err(e) ==> e == SipError::MissingHeader,
    {
        proof {
            reveal_strlit("Max-Forwards");
            reveal_strlit("70");
            reveal_strlit("Via");
            reveal_strlit("Call-ID");
            reveal_strlit("From");
            reveal_strlit("To");
            reveal_strlit("CSeq");
            reveal_strlit("Content-Type");
            reveal_strlit("application/sdp");
            reveal_strlit("Content-Length");
            reveal_strlit("User-Agent");
            reveal_strlit("sip-rs");
        }
        let via_name = str_bytes("Via");
        let via = match find_header(&request.headers, via_name.as_slice()) {
            None => {
                return Err(SipError::MissingHeader);
            }
            Some(v) => subvec(v.as_slice(), 0, v.len()),
        };
        let cseq_name_b = str_bytes("CSeq");
        let cseq = match find_header(&request.headers, cseq_name_b.as_slice()) {
            None => {
                return Err(SipError::MissingHeader);
            }
            Some(v) => subvec(v.as_slice(), 0, v.len()),
        };
        let mut out: Vec<Header> = Vec::new();
        out.push(hdr("Max-Forwards", str_bytes("70")));
        out.push(hdr("Via", via));
        out.push(hdr("Call-ID", subvec(self.call_id.as_slice(), 0, self.call_id.len())));
        out.push(
            hdr("From", make_addr_value(self.remote.uri.as_slice(), self.remote.tag.as_slice())),
        );
        out.push(
            hdr("To", make_addr_value(self.local.uri.as_slice(), self.local.tag.as_slice())),
        );
        out.push(hdr("CSeq", cseq));
        out.push(hdr("Content-Type", str_bytes("application/sdp")));
        out.push(hdr("Content-Length", u64_to_dec(body_len as u64)));
        out.push(hdr("User-Agent", str_bytes("sip-rs")));
        assert(out.deep_view() =~~= response_headers_with_body_of(
            self@,
            request@,
            body_len as int,
        ));
        Ok(out)
    }

    /// Builds the headers of a reply to a received in-dialog request,
    /// echoing its `Via` and `CSeq` byte for byte.
    pub fn get_headers_response(&self, request: &Request) -> (r: Result<Vec<Header>, SipError>)
        ensures
            r is Ok <==> find_hdr(request@.headers, ascii_bytes("Via"@)) is Some && find_hdr(
                request@.headers,
                ascii_bytes("CSeq"@),
            ) is Some,
            r matches Ok(hs) ==> hs.deep_view() == response_headers_of(self@, request@),
            r matches Err(e) ==> e == SipError::MissingHeader,
    {
        proof {
            reveal_strlit("Max-Forwards");
            reveal_strlit("70");
            reveal_strlit("Via");
            reveal_strlit("Call-ID");
            reveal_strlit("From");
            reveal_strlit("To");
            reveal_strlit("CSeq");
            reveal_strlit("Content-Length");
            reveal_strlit("0");
            reveal_strlit("User-Agent");
            reveal_strlit("sip-rs");
        }
        let via_name = str_bytes("Via");
        let via = match find_header(&request.headers, via_name.as_slice()) {
            None => {
                return Err(SipError::MissingHeader);
            }
            Some(v) => subvec(v.as_slice(), 0, v.len()),
        };
        let cseq_name_b = str_bytes("CSeq");
        let cseq = match find_header(&request.headers, cseq_name_b.as_slice()) {
            None => {
                return Err(SipError::MissingHeader);
            }
            Some(v) => subvec(v.as_slice(), 0, v.len()),
        };
        let mut out: Vec<Header> = Vec::new();
        out.push(hdr("Max-Forwards", str_bytes("70")));
        out.push(hdr("Via", via));
        out.push(hdr("Call-ID", subvec(self.call_id.as_slice(), 0, self.call_id.len())));
        out.push(
            hdr("From", make_addr_value(self.remote.uri.as_slice(), self.remote.tag.as_slice())),
        );
        out.push(
            hdr("To", make_addr_value(self.local.uri.as_slice(), self.local.tag.as_slice())),
        );
        out.push(hdr("CSeq", cseq));
        out.push(hdr("Content-Length", str_bytes("0")));
        out.push(hdr("User-Agent", str_bytes("sip-rs")));
        assert(out.deep_view() =~~= response_headers_of(self@, request@));
        Ok(out)
    }
}

/// Replies built for a received request echo it: the reply's `Via` and
/// `CSeq` values are exactly the request's, and its `Call-ID` is the
/// session's.
pub proof fn lemma_reply_echoes_request(s: SessionParametersView, req: crate::message::RequestView)
    requires
        find_hdr(req.headers, ascii_bytes("Via"@)) is Some,
        find_hdr(req.headers, ascii_bytes("CSeq"@)) is Some,
    ensures
        find_hdr(response_headers_of(s, req), ascii_bytes("Via"@)) == find_hdr(
            req.headers,
            ascii_bytes("Via"@),
        ),
        find_hdr(response_headers_of(s, req), ascii_bytes("CSeq"@)) == find_hdr(
            req.headers,
            ascii_bytes("CSeq"@),
        ),
        find_hdr(response_headers_of(s, req), ascii_bytes("Call-ID"@)) == Some(s.call_id),
        find_hdr(response_headers_of(s, req), ascii_bytes("From"@)) == Some(
            addr_value_of(s.remote.uri, s.remote.tag),
        ),
        find_hdr(response_headers_of(s, req), ascii_bytes("To"@)) == Some(
            addr_value_of(s.local.uri, s.local.tag),
        ),
{
    reveal_strlit("Max-Forwards");
    reveal_strlit("Via");
    reveal_strlit("Call-ID");
    reveal_strlit("From");
    reveal_strlit("To");
    reveal_strlit("CSeq");
    reveal_strlit("Content-Length");
    reveal_strlit("User-Agent");
    let hs = response_headers_of(s, req);
    let mf = ascii_bytes("Max-Forwards"@);
    let vian = ascii_bytes("Via"@);
    let cid = ascii_bytes("Call-ID"@);
    let fromn = ascii_bytes("From"@);
    let ton = ascii_bytes("To"@);
    let csn = ascii_bytes("CSeq"@);
    assert(crate::ascii::lower_seq(mf).len() == 12);
    assert(crate::ascii::lower_seq(vian).len() == 3);
    assert(crate::ascii::lower_seq(cid).len() == 7);
    assert(crate::ascii::lower_seq(fromn).len() == 4);
    assert(crate::ascii::lower_seq(ton).len() == 2);
    assert(crate::ascii::lower_seq(csn).len() == 4);
    assert(crate::ascii::lower_seq(fromn)[0] == 102);
    assert(crate::ascii::lower_seq(csn)[0] == 99);
    assert(crate::ascii::lower_seq(fromn) != crate::ascii::lower_seq(csn));
    crate::message::lemma_find_hdr_at(hs, vian, 1);
    crate::message::lemma_find_hdr_at(hs, cid, 2);
    crate::message::lemma_find_hdr_at(hs, fromn, 3);
    crate::message::lemma_find_hdr_at(hs, ton, 4);
    crate::message::lemma_find_hdr_at(hs, csn, 5);
}

// ------------------------------------------------------------------
// Building a session from a dialog-forming message.
// ------------------------------------------------------------------

/// Whether an incoming INVITE carries the headers a dialog needs: a
/// tagged `From`, a `Call-ID`, and a readable `CSeq`.
pub open spec fn invite_headers_ok(req: crate::message::RequestView) -> bool {
    &&& find_hdr(req.headers, ascii_bytes("From"@)) is Some
    &&& spec_tag_of(find_hdr(req.headers, ascii_bytes("From"@)).unwrap()) is Some
    &&& find_hdr(req.headers, crate::message::call_id_name()) is Some
    &&& ({
        match find_hdr(req.headers, crate::message::cseq_name()) {
            Some(v) => crate::message::spec_parse_cseq_value(v) is Some,
            None => false,
        }
    })
}

/// Whether an incoming INVITE carries everything a dialog needs: those
/// headers plus a parseable SDP body.
pub open spec fn invite_forms_dialog(req: crate::message::RequestView) -> bool {
    invite_headers_ok(req) && spec_parse_sdp(req.body) is Some
}

/// Whether a 2xx answer carries the headers a dialog needs: a tagged
/// `To` and a readable `CSeq`.
pub open spec fn answer_headers_ok(res: crate::message::ResponseView) -> bool {
    &&& find_hdr(res.headers, ascii_bytes("To"@)) is Some
    &&& spec_tag_of(find_hdr(res.headers, ascii_bytes("To"@)).unwrap()) is Some
    &&& ({
        match find_hdr(res.headers, crate::message::cseq_name()) {
            Some(v) => crate::message::spec_parse_cseq_value(v) is Some,
            None => false,
        }
    })
}

/// Whether a 2xx answer carries everything a dialog needs: those
/// headers plus a parseable SDP body.
pub open spec fn answer_forms_dialog(res: crate::message::ResponseView) -> bool {
    answer_headers_ok(res) && spec_parse_sdp(res.body) is Some
}

impl SessionParameters {
    /// Builds the dialog state for a received INVITE: the remote side
    /// from its `From` header and SDP body, the local side freshly
    /// allocated (RTP port from the context, a random `tt`-prefixed
    /// tag, the local offer). The CSeq counter starts at the INVITE's.
    pub fn from_request(context: &mut crate::context::SipContext, request: &Request) -> (r:
        Result<SessionParameters, SipError>)
        requires
            old(context).wf(),
        ensures
            final(context).wf(),
            final(context).spec_config() == old(context).spec_config(),
            r is Ok <==> invite_forms_dialog(request@),
            r matches Ok(s) ==> {
                &&& s@.call_id == find_hdr(request@.headers, crate::message::call_id_name()).unwrap()
                &&& s@.cseq as int == crate::message::spec_parse_cseq_value(
                    find_hdr(request@.headers, crate::message::cseq_name()).unwrap(),
                ).unwrap().0
                &&& s@.remote.uri == spec_uri_of(
                    find_hdr(request@.headers, ascii_bytes("From"@)).unwrap(),
                )
                &&& Some(s@.remote.tag) == spec_tag_of(
                    find_hdr(request@.headers, ascii_bytes("From"@)).unwrap(),
                )
                &&& Some(s@.remote.sdp) == spec_parse_sdp(request@.body)
                &&& s@.local.uri == own_uri_of(old(context).spec_config()@)
                &&& s@.local.tag.len() == 38
                &&& s@.local.port == old(context).spec_next_port()
                &&& s@.local.sdp == crate::sdp::local_offer(
                    old(context).spec_config()@.own_host,
                    old(context).spec_next_port(),
                )
                &&& s@.config == old(context).spec_config()@
            },
            r is Err ==> *final(context) == *old(context),
            r matches Err(e) ==> (if invite_headers_ok(request@) {
                e == SipError::InvalidSdp
            } else {
                e == SipError::MissingHeader
            }),
    {
        proof {
            reveal_strlit("From");
        }
        let from_name = str_bytes("From");
        let from_v = match find_header(&request.headers, from_name.as_slice()) {
            None => {
                return Err(SipError::MissingHeader);
            }
            Some(v) => v,
        };
        let remote_tag = match tag_of(from_v.as_slice()) {
            None => {
                return Err(SipError::MissingHeader);
            }
            Some(t) => t,
        };
        let remote_uri = uri_of(from_v.as_slice());
        proof {
            reveal_strlit("Call-ID");
        }
        let cid_name = str_bytes("Call-ID");
        let call_id = match find_header(&request.headers, cid_name.as_slice()) {
            None => {
                return Err(SipError::MissingHeader);
            }
            Some(v) => subvec(v.as_slice(), 0, v.len()),
        };
        proof {
            reveal_strlit("CSeq");
        }
        let csn = str_bytes("CSeq");
        let cseq = match find_header(&request.headers, csn.as_slice()) {
            None => {
                return Err(SipError::MissingHeader);
            }
            Some(v) => match crate::message::parse_cseq_value(v.as_slice()) {
                None => {
                    return Err(SipError::MissingHeader);
                }
                Some((n, _m)) => n,
            },
        };
        let remote_sdp = match crate::sdp::parse_sdp(request.body.as_slice()) {
            Err(e) => {
                return Err(e);
            }
            Ok(sdp) => sdp,
        };
        let local_port = context.get_next_udp_port();
        let local_sdp = crate::sdp::generate_sdp_new(context.config_ref(), local_port);
        proof {
            reveal_strlit("tt");
        }
        let mut local_tag = str_bytes("tt");
        let uuid = crate::entropy::new_uuid_bytes();
        local_tag.extend_from_slice(uuid.as_slice());
        Ok(
            SessionParameters {
                cseq,
                call_id,
                remote: RemoteSessionParameters {
                    uri: remote_uri,
                    tag: remote_tag,
                    sdp: remote_sdp,
                },
                local: LocalSessionParameters {
                    uri: context.config_ref().get_own_uri(),
                    tag: local_tag,
                    sdp: local_sdp,
                    port: local_port,
                },
                config: context.config_ref().duplicate(),
            },
        )
    }

    /// Builds the dialog state for a received 2xx answer: the remote
    /// side from its `To` header and SDP body, the local side as
    /// prepared when the INVITE was sent.
    pub fn from_response(
        response: &crate::message::Response,
        call_id: Vec<u8>,
        local: LocalSessionParameters,
        config: Config,
    ) -> (r: Result<SessionParameters, SipError>)
        ensures
            r is Ok <==> answer_forms_dialog(response@),
            r matches Ok(s) ==> {
                &&& s@.call_id == call_id@
                &&& s@.cseq as int == crate::message::spec_parse_cseq_value(
                    find_hdr(response@.headers, crate::message::cseq_name()).unwrap(),
                ).unwrap().0
                &&& s@.remote.uri == spec_uri_of(
                    find_hdr(response@.headers, ascii_bytes("To"@)).unwrap(),
                )
                &&& Some(s@.remote.tag) == spec_tag_of(
                    find_hdr(response@.headers, ascii_bytes("To"@)).unwrap(),
                )
                &&& Some(s@.remote.sdp) == spec_parse_sdp(response@.body)
                &&& s@.local == local@
                &&& s@.config == config@
            },
            r matches Err(e) ==> (if answer_headers_ok(response@) {
                e == SipError::InvalidSdp
            } else {
                e == SipError::MissingHeader
            }),
    {
        proof {
            reveal_strlit("To");
        }
        let to_name = str_bytes("To");
        let to_v = match find_header(&response.headers, to_name.as_slice()) {
            None => {
                return Err(SipError::MissingHeader);
            }
            Some(v) => v,
        };
        let remote_tag = match tag_of(to_v.as_slice()) {
            None => {
                return Err(SipError::MissingHeader);
            }
            Some(t) => t,
        };
        let remote_uri = uri_of(to_v.as_slice());
        proof {
            reveal_strlit("CSeq");
        }
        let csn = str_bytes("CSeq");
        let cseq = match find_header(&response.headers, csn.as_slice()) {
            None => {
                return Err(SipError::MissingHeader);
            }
            Some(v) => match crate::message::parse_cseq_value(v.as_slice()) {
                None => {
                    return Err(SipError::MissingHeader);
                }
                Some((n, _m)) => n,
            },
        };
        let remote_sdp = match crate::sdp::parse_sdp(response.body.as_slice()) {
            Err(e) => {
                return Err(e);
            }
            Ok(sdp) => sdp,
        };
        Ok(
            SessionParameters {
                cseq,
                call_id,
                remote: RemoteSessionParameters {
                    uri: remote_uri,
                    tag: remote_tag,
                    sdp: remote_sdp,
                },
                local,
                config,
            },
        )
    }
}

/// The CSeq the dialog emits on its `k`-th request: `get_next_cseq`
/// returns `cseq + 1` and leaves the counter there, so starting from
/// counter `c0` the `k`-th call returns this value.
pub open spec fn cseq_emitted(c0: u32, k: nat) -> int {
    c0 + k + 1
}

/// CSeq values emitted by this side of a dialog are strictly
/// monotonically increasing: a later request always carries a larger
/// number than any earlier one.
pub proof fn lemma_cseq_strictly_monotonic(c0: u32, i: nat, j: nat)
    requires
        i < j,
    ensures
        cseq_emitted(c0, i) < cseq_emitted(c0, j),
{
}

} // verus!
