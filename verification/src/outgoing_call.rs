//! An outgoing call before it is answered: send the INVITE, absorb
//! provisional responses, answer one digest challenge, and resolve to
//! an accepted call or a rejection status.

use vstd::prelude::*;
use crate::ascii::{ascii_bytes, str_bytes, subvec};
use crate::config::{via_value_of, Config, ConfigView};
use crate::digest::{add_auth_header, auth_header_for, spec_auth_param, ConfigAuth, get_auth_param};
use crate::errors::SipError;
use crate::message::{
    cseq_value_of, find_hdr, find_header, headers_of, hdr, with_headers, Header, HeaderView,
    Method, Request, RequestView, Response, SipMessage, SipMessageView,
};
use crate::session::{
    addr_value_of, addr_value_untagged, answer_forms_dialog, make_addr_value,
    make_addr_value_untagged, LocalSessionParameters, LocalSessionParametersView,
    SessionParameters,
};

verus! {

/// How an outgoing call resolved.
pub enum OutgoingCallResponse {
    /// The call was answered; these are its dialog parameters.
    Accepted(SessionParameters),
    /// The call was turned down with this status.
    Rejected(u16),
}

/// What a stored final response means, without consuming the call.
#[derive(Clone, Copy, Debug, PartialEq, Eq, Structural)]
pub enum PeekOutgoingCallResponse {
    Accepted,
    Rejected(u16),
}

/// An outgoing call whose INVITE is out but unanswered.
pub struct OutgoingCall {
    pub call_id: Vec<u8>,
    pub remote_uri: Vec<u8>,
    pub cseq: u32,
    pub branch: Vec<u8>,
    pub local: LocalSessionParameters,
    pub config: Config,
    pub response: Option<Response>,
}

/// The base headers of every request this call sends.
pub open spec fn base_headers_of(
    c: ConfigView,
    call_id: Seq<u8>,
    branch: Seq<u8>,
    local: LocalSessionParametersView,
    remote_uri: Seq<u8>,
) -> Seq<HeaderView> {
    seq![
        HeaderView { name: ascii_bytes("Max-Forwards"@), value: ascii_bytes("70"@) },
        HeaderView { name: ascii_bytes("Via"@), value: via_value_of(c, branch) },
        HeaderView { name: ascii_bytes("Call-ID"@), value: call_id },
        HeaderView { name: ascii_bytes("From"@), value: addr_value_of(local.uri, local.tag) },
        HeaderView { name: ascii_bytes("To"@), value: addr_value_untagged(remote_uri) },
        HeaderView { name: ascii_bytes("User-Agent"@), value: ascii_bytes("sip-rs"@) },
    ]
}

/// The INVITE this call sends under sequence number `cseq`.
pub open spec fn invite_request_of(
    c: ConfigView,
    call_id: Seq<u8>,
    branch: Seq<u8>,
    local: LocalSessionParametersView,
    remote_uri: Seq<u8>,
    cseq: u32,
) -> SipMessageView {
    SipMessageView::Request(
        RequestView {
            method: Method::Invite,
            uri: remote_uri,
            headers: base_headers_of(c, call_id, branch, local, remote_uri) + seq![
                HeaderView {
                    name: ascii_bytes("Content-Length"@),
                    value: crate::ascii::dec_digits(
                        crate::sdp::session_bytes(local.sdp).len() as nat,
                    ),
                },
                HeaderView {
                    name: ascii_bytes("Content-Type"@),
                    value: ascii_bytes("application/sdp"@),
                },
                HeaderView {
                    name: ascii_bytes("CSeq"@),
                    value: cseq_value_of(cseq, Method::Invite),
                },
                HeaderView {
                    name: ascii_bytes("Contact"@),
                    value: crate::config::own_uri_of(c),
                },
            ],
            body: crate::sdp::session_bytes(local.sdp),
        },
    )
}

/// The CANCEL this call sends: the INVITE's branch and sequence
/// number, method CANCEL.
pub open spec fn cancel_request_of(
    c: ConfigView,
    call_id: Seq<u8>,
    branch: Seq<u8>,
    local: LocalSessionParametersView,
    remote_uri: Seq<u8>,
    cseq: u32,
) -> SipMessageView {
    SipMessageView::Request(
        RequestView {
            method: Method::Cancel,
            uri: remote_uri,
            headers: base_headers_of(c, call_id, branch, local, remote_uri) + seq![
                HeaderView {
                    name: ascii_bytes("CSeq"@),
                    value: cseq_value_of(cseq, Method::Cancel),
                },
                HeaderView { name: ascii_bytes("Content-Length"@), value: ascii_bytes("0"@) },
            ],
            body: Seq::empty(),
        },
    )
}

fn build_base_headers(call: &OutgoingCall) -> (r: Vec<Header>)
    ensures
        r.deep_view() == base_headers_of(
            call.config@,
            call.call_id@,
            call.branch@,
            call.local@,
            call.remote_uri@,
        ),
{
    proof {
        reveal_strlit("Max-Forwards");
        reveal_strlit("70");
        reveal_strlit("Call-ID");
        reveal_strlit("From");
        reveal_strlit("To");
        reveal_strlit("User-Agent");
        reveal_strlit("sip-rs");
    }
    let mut out: Vec<Header> = Vec::new();
    out.push(hdr("Max-Forwards", str_bytes("70")));
    out.push(call.config.get_own_via(call.branch.as_slice()));
    out.push(hdr("Call-ID", subvec(call.call_id.as_slice(), 0, call.call_id.len())));
    out.push(hdr("From", make_addr_value(call.local.uri.as_slice(), call.local.tag.as_slice())));
    out.push(hdr("To", make_addr_value_untagged(call.remote_uri.as_slice())));
    out.push(hdr("User-Agent", str_bytes("sip-rs")));
    assert(out.deep_view() =~~= base_headers_of(
        call.config@,
        call.call_id@,
        call.branch@,
        call.local@,
        call.remote_uri@,
    ));
    out
}

impl OutgoingCall {
    /// Opens an outgoing call: allocates an RTP port, prepares the
    /// local side (fresh tag and branch, local offer), and builds the
    /// INVITE to send. The sequence number starts at 1234.
    pub fn try_from(
        context: &mut crate::context::SipContext,
        call_id: Vec<u8>,
        remote_uri: Vec<u8>,
    ) -> (r: (OutgoingCall, SipMessage))
        requires
            old(context).wf(),
        ensures
            final(context).wf(),
            final(context).spec_config() == old(context).spec_config(),
            r.0.call_id@ == call_id@,
            r.0.remote_uri@ == remote_uri@,
            r.0.cseq == 1234,
            r.0.response is None,
            r.0.config@ == old(context).spec_config()@,
            r.0.local@.port == old(context).spec_next_port(),
            r.0.local@.sdp == crate::sdp::local_offer(
                old(context).spec_config()@.own_host,
                old(context).spec_next_port(),
            ),
            r.1@ == invite_request_of(
                old(context).spec_config()@,
                call_id@,
                r.0.branch@,
                r.0.local@,
                remote_uri@,
                1234,
            ),
    {
        let local_port = context.get_next_udp_port();
        let local_sdp = crate::sdp::generate_sdp_new(context.config_ref(), local_port);
        proof {
            reveal_strlit("tt");
            reveal_strlit("z9hG4bK");
        }
        let mut tag = str_bytes("tt");
        let uuid1 = crate::entropy::new_uuid_bytes();
        tag.extend_from_slice(uuid1.as_slice());
        let mut branch = str_bytes("z9hG4bK");
        let uuid2 = crate::entropy::new_uuid_bytes();
        branch.extend_from_slice(uuid2.as_slice());
        let local = LocalSessionParameters {
            uri: context.config_ref().get_own_uri(),
            tag,
            sdp: local_sdp,
            port: local_port,
        };
        let call = OutgoingCall {
            call_id,
            remote_uri,
            cseq: 1234,
            branch,
            local,
            config: context.config_ref().duplicate(),
            response: None,
        };
        let invite = call.generate_invite();
        (call, invite)
    }

    /// Builds the INVITE under the current sequence number.
    pub fn generate_invite(&self) -> (r: SipMessage)
        requires
            crate::sdp::session_serializable(self.local@.sdp),
        ensures
            r@ == invite_request_of(
                self.config@,
                self.call_id@,
                self.branch@,
                self.local@,
                self.remote_uri@,
                self.cseq,
            ),
    {
        proof {
            reveal_strlit("Content-Length");
            reveal_strlit("Content-Type");
            reveal_strlit("application/sdp");
            reveal_strlit("CSeq");
        }
        let mut headers = build_base_headers(self);
        let body = self.local.sdp.to_bytes();
        headers.push(hdr("Content-Length", crate::ascii::u64_to_dec(body.len() as u64)));
        headers.push(hdr("Content-Type", str_bytes("application/sdp")));
        headers.push(hdr("CSeq", crate::message::make_cseq_value(self.cseq, Method::Invite)));
        headers.push(self.config.get_own_contact());
        let r = SipMessage::Request(
            Request {
                method: Method::Invite,
                uri: subvec(self.remote_uri.as_slice(), 0, self.remote_uri.len()),
                headers,
                body,
            },
        );
        assert(r@ =~~= invite_request_of(
            self.config@,
            self.call_id@,
            self.branch@,
            self.local@,
            self.remote_uri@,
            self.cseq,
        ));
        r
    }

    /// Builds the CANCEL: the INVITE's branch and sequence number.
    pub fn generate_cancel(&self) -> (r: SipMessage)
        ensures
            r@ == cancel_request_of(
                self.config@,
                self.call_id@,
                self.branch@,
                self.local@,
                self.remote_uri@,
                self.cseq,
            ),
    {
        proof {
            reveal_strlit("CSeq");
            reveal_strlit("Content-Length");
            reveal_strlit("0");
        }
        let mut headers = build_base_headers(self);
        headers.push(hdr("CSeq", crate::message::make_cseq_value(self.cseq, Method::Cancel)));
        headers.push(hdr("Content-Length", str_bytes("0")));
        let r = SipMessage::Request(
            Request {
                method: Method::Cancel,
                uri: subvec(self.remote_uri.as_slice(), 0, self.remote_uri.len()),
                headers,
                body: Vec::new(),
            },
        );
        assert(r@ =~~= cancel_request_of(
            self.config@,
            self.call_id@,
            self.branch@,
            self.local@,
            self.remote_uri@,
            self.cseq,
        ));
        r
    }

    /// Absorbs one response while waiting for the answer.
    ///
    /// Provisional responses (100, 180, 183) pass; a final answer (200,
    /// 480, 486, 503, 600) is stored for [`Self::peek_result`]; a 401
    /// with a readable challenge is answered once by resending the
    /// INVITE with the next sequence number and an `Authorization`
    /// header. Everything else is ignored.
    pub fn handle_response(&mut self, response: Response) -> (r: Result<
        Option<SipMessage>,
        SipError,
    >)
        requires
            old(self).cseq < u32::MAX,
            crate::sdp::session_serializable(old(self).local@.sdp),
        ensures
            final(self).call_id == old(self).call_id,
            final(self).remote_uri == old(self).remote_uri,
            final(self).branch == old(self).branch,
            final(self).local == old(self).local,
            final(self).config == old(self).config,
            response.status == 200 || response.status == 480 || response.status == 486
                || response.status == 503 || response.status == 600 ==> {
                &&& final(self).response == Some(response)
                &&& final(self).cseq == old(self).cseq
                &&& r == Ok::<Option<SipMessage>, SipError>(None)
            },
            response.status != 200 && response.status != 480 && response.status != 486
                && response.status != 503 && response.status != 600 && response.status != 401
                ==> {
                &&& *final(self) == *old(self)
                &&& r == Ok::<Option<SipMessage>, SipError>(None)
            },
            response.status == 401 ==> ({
                let www = find_hdr(response@.headers, ascii_bytes("WWW-Authenticate"@));
                if www is Some && spec_auth_param(www.unwrap(), ascii_bytes("realm=\""@))
                    is Some && spec_auth_param(www.unwrap(), ascii_bytes("nonce=\""@)) is Some {
                    &&& final(self).cseq == old(self).cseq + 1
                    &&& (r matches Ok(Some(m)) && m@ == with_headers(
                        invite_request_of(
                            old(self).config@,
                            old(self).call_id@,
                            old(self).branch@,
                            old(self).local@,
                            old(self).remote_uri@,
                            (old(self).cseq + 1) as u32,
                        ),
                        headers_of(
                            invite_request_of(
                                old(self).config@,
                                old(self).call_id@,
                                old(self).branch@,
                                old(self).local@,
                                old(self).remote_uri@,
                                (old(self).cseq + 1) as u32,
                            ),
                        ).push(
                            auth_header_for(
                                old(self).config@,
                                spec_auth_param(
                                    www.unwrap(),
                                    ascii_bytes("realm=\""@),
                                ).unwrap(),
                                spec_auth_param(
                                    www.unwrap(),
                                    ascii_bytes("nonce=\""@),
                                ).unwrap(),
                                Method::Invite,
                            ),
                        ),
                    ))
                } else {
                    r == Err::<Option<SipMessage>, SipError>(SipError::MissingHeader)
                }
            }),
    {
        if response.status == 200 || response.status == 480 || response.status == 486
            || response.status == 503 || response.status == 600 {
            self.response = Some(response);
            return Ok(None);
        }
        if response.status == 401 {
            proof {
                reveal_strlit("WWW-Authenticate");
                reveal_strlit("realm=\"");
                reveal_strlit("nonce=\"");
            }
            let www_name = str_bytes("WWW-Authenticate");
            let www = match find_header(&response.headers, www_name.as_slice()) {
                None => {
                    return Err(SipError::MissingHeader);
                }
                Some(v) => v,
            };
            let realm_key = str_bytes("realm=\"");
            let realm = match get_auth_param(www.as_slice(), realm_key.as_slice()) {
                None => {
                    return Err(SipError::MissingHeader);
                }
                Some(v) => v,
            };
            let nonce_key = str_bytes("nonce=\"");
            let nonce = match get_auth_param(www.as_slice(), nonce_key.as_slice()) {
                None => {
                    return Err(SipError::MissingHeader);
                }
                Some(v) => v,
            };
            self.cseq = self.cseq + 1;
            let invite = self.generate_invite();
            proof {
                lemma_invite_request_has_cseq(
                    self.config@,
                    self.call_id@,
                    self.branch@,
                    self.local@,
                    self.remote_uri@,
                    self.cseq,
                );
            }
            let payload = ConfigAuth { config: &self.config, realm, nonce };
            let authed = match add_auth_header(invite, &payload) {
                Err(e) => {
                    proof {
                        assert(false);
                    }
                    return Err(e);
                }
                Ok(m) => m,
            };
            return Ok(Some(authed));
        }
        Ok(None)
    }

    /// What the stored final response resolves to, if one has arrived.
    pub fn peek_result(&self) -> (r: Option<PeekOutgoingCallResponse>)
        ensures
            match self.response {
                Some(resp) => r == Some(
                    if resp.status == 200 {
                        PeekOutgoingCallResponse::Accepted
                    } else {
                        PeekOutgoingCallResponse::Rejected(resp.status)
                    },
                ),
                None => r is None,
            },
    {
        match &self.response {
            None => None,
            Some(resp) => {
                if resp.status == 200 {
                    Some(PeekOutgoingCallResponse::Accepted)
                } else {
                    Some(PeekOutgoingCallResponse::Rejected(resp.status))
                }
            }
        }
    }

    /// Resolves the call from a final response: a 200 builds the
    /// dialog state and the ACK to send (method ACK under the 2xx's
    /// own sequence number); any other status is a rejection.
    pub fn get_outgoing_call_response(self, response: &Response) -> (r: Result<
        (Option<SipMessage>, OutgoingCallResponse),
        SipError,
    >)
        ensures
            response.status != 200 ==> (r matches Ok((ack, res)) && ack is None && (
            res matches OutgoingCallResponse::Rejected(st) && st == response.status)),
            response.status == 200 ==> {
                &&& (r is Ok <==> answer_forms_dialog(response@))
                &&& (r matches Ok((ack, res)) ==> {
                    &&& (res matches OutgoingCallResponse::Accepted(s) && s@.call_id
                        == self.call_id@ && s@.local == self.local@ && s@.config == self.config@
                        && s@.remote.uri == crate::session::spec_uri_of(
                        find_hdr(response@.headers, ascii_bytes("To"@)).unwrap(),
                    ) && Some(s@.remote.tag) == crate::session::spec_tag_of(
                        find_hdr(response@.headers, ascii_bytes("To"@)).unwrap(),
                    ) && Some(s@.remote.sdp) == crate::sdp::spec_parse_sdp(response@.body)
                        && (ack matches Some(m) && m@ == SipMessageView::Request(
                        RequestView {
                            method: Method::Ack,
                            uri: s@.remote.uri,
                            headers: crate::session::request_headers_of(s@, self.branch@).push(
                                HeaderView {
                                    name: ascii_bytes("CSeq"@),
                                    value: cseq_value_of(
                                        (crate::message::spec_parse_cseq_value(
                                            find_hdr(
                                                response@.headers,
                                                crate::message::cseq_name(),
                                            ).unwrap(),
                                        ).unwrap().0) as u32,
                                        Method::Ack,
                                    ),
                                },
                            ),
                            body: Seq::empty(),
                        },
                    )))
                })
                &&& (r matches Err(e) ==> e == SipError::MissingHeader || e
                    == SipError::InvalidSdp)
            },
    {
        if response.status != 200 {
            let status = response.status;
            return Ok((None, OutgoingCallResponse::Rejected(status)));
        }
        proof {
            reveal_strlit("CSeq");
        }
        let csn = str_bytes("CSeq");
        let resp_cseq = match find_header(&response.headers, csn.as_slice()) {
            None => {
                return Err(SipError::MissingHeader);
            }
            Some(v) => match crate::message::parse_cseq_value(v.as_slice()) {
                None => {
                    return Err(SipError::MissingHeader);
                }
                Some((n, _m)) => n,
            },
        };
        let call_id = self.call_id;
        let branch = self.branch;
        let session = match SessionParameters::from_response(
            response,
            call_id,
            self.local,
            self.config,
        ) {
            Err(e) => {
                return Err(e);
            }
            Ok(s) => s,
        };
        let mut headers = session.get_headers_request(branch.as_slice());
        headers.push(hdr("CSeq", crate::message::make_cseq_value(resp_cseq, Method::Ack)));
        let uri = subvec(session.remote.uri.as_slice(), 0, session.remote.uri.len());
        let ack = SipMessage::Request(
            Request { method: Method::Ack, uri, headers, body: Vec::new() },
        );
        proof {
            assert(ack@ =~~= SipMessageView::Request(
                RequestView {
                    method: Method::Ack,
                    uri: session@.remote.uri,
                    headers: crate::session::request_headers_of(session@, branch@).push(
                        HeaderView {
                            name: ascii_bytes("CSeq"@),
                            value: cseq_value_of(resp_cseq, Method::Ack),
                        },
                    ),
                    body: Seq::empty(),
                },
            ));
        }
        Ok((Some(ack), OutgoingCallResponse::Accepted(session)))
    }
}

/// The INVITE this call builds always carries a readable `CSeq`.
pub proof fn lemma_invite_request_has_cseq(
    c: ConfigView,
    call_id: Seq<u8>,
    branch: Seq<u8>,
    local: LocalSessionParametersView,
    remote_uri: Seq<u8>,
    cseq: u32,
)
    ensures
        crate::message::spec_cseq(
            invite_request_of(c, call_id, branch, local, remote_uri, cseq),
        ) == Some((cseq as int, Method::Invite)),
{
    reveal_strlit("Max-Forwards");
    reveal_strlit("Via");
    reveal_strlit("Call-ID");
    reveal_strlit("From");
    reveal_strlit("To");
    reveal_strlit("User-Agent");
    reveal_strlit("Content-Length");
    reveal_strlit("Content-Type");
    reveal_strlit("CSeq");
    reveal_strlit("Contact");
    reveal_strlit("INVITE");
    let hs = headers_of(invite_request_of(c, call_id, branch, local, remote_uri, cseq));
    let csn = crate::message::cseq_name();
    assert(crate::ascii::lower_seq(ascii_bytes("Max-Forwards"@)).len() == 12);
    assert(crate::ascii::lower_seq(ascii_bytes("Via"@)).len() == 3);
    assert(crate::ascii::lower_seq(ascii_bytes("Call-ID"@)).len() == 7);
    assert(crate::ascii::lower_seq(ascii_bytes("From"@)).len() == 4);
    assert(crate::ascii::lower_seq(ascii_bytes("To"@)).len() == 2);
    assert(crate::ascii::lower_seq(ascii_bytes("User-Agent"@)).len() == 10);
    assert(crate::ascii::lower_seq(ascii_bytes("Content-Length"@)).len() == 14);
    assert(crate::ascii::lower_seq(ascii_bytes("Content-Type"@)).len() == 12);
    assert(crate::ascii::lower_seq(csn).len() == 4);
    assert(crate::ascii::lower_seq(ascii_bytes("From"@))[0] == 102);
    assert(crate::ascii::lower_seq(csn)[0] == 99);
    assert(crate::ascii::lower_seq(ascii_bytes("From"@)) != crate::ascii::lower_seq(csn));
    assert(hs[8].name == csn);
    crate::message::lemma_find_hdr_at(hs, csn, 8);
    let v = cseq_value_of(cseq, Method::Invite);
    crate::ascii::lemma_dec_digits_value(cseq as nat);
    let digits = crate::ascii::dec_digits(cseq as nat);
    let ln = digits.len() as int;
    assert(v[ln] == 32);
    crate::message::lemma_find_byte_char(v, 32);
    match crate::message::spec_find_byte(v, 32) {
        None => {
            assert(false);
        }
        Some(i) => {
            assert forall|j: int| 0 <= j < ln implies v[j] != 32 by {
                assert(v[j] == digits[j]);
                assert(crate::ascii::is_digit(digits[j]));
            }
            assert(i == ln);
            assert(v.subrange(0, ln) =~= digits);
            assert(v.skip(ln + 1) =~= crate::message::method_name(Method::Invite));
            reveal_strlit("ACK");
            reveal_strlit("BYE");
            reveal_strlit("CANCEL");
            reveal_strlit("OPTIONS");
            reveal_strlit("REGISTER");
            assert(crate::message::method_of(crate::message::method_name(Method::Invite))
                == Some(Method::Invite));
            assert(crate::message::spec_parse_cseq_value(v) == Some(
                (cseq as int, Method::Invite),
            ));
        },
    }
}

} // verus!
