//! An incoming call before it is answered: ring, then accept or
//! reject, honouring a CANCEL that arrived first.

use vstd::prelude::*;
use crate::ascii::{ascii_bytes, str_bytes};
use crate::errors::SipError;
use crate::message::{
    find_hdr, Method, Request, RequestView, Response, ResponseView, SipMessage, SipMessageView,
};
use crate::session::{
    invite_forms_dialog, response_headers_of, response_headers_with_body_of, SessionParameters,
    SessionParametersView,
};

verus! {

/// How an accepted incoming call resolved.
pub enum IncomingCallResult {
    /// The call can start; these are its dialog parameters.
    Accepted(SessionParameters),
    /// The peer cancelled before the call was answered.
    Cancelled,
}

/// An incoming call that has rung but is not yet answered.
pub struct IncomingCall {
    pub session: SessionParameters,
    pub invite: Request,
}

/// A plain reply within the dialog of `s`, echoing `req`.
pub open spec fn reply_of(s: SessionParametersView, req: RequestView, status: u16, reason: Seq<
    u8,
>) -> SipMessageView {
    SipMessageView::Response(
        ResponseView { status, reason, headers: response_headers_of(s, req), body: Seq::empty() },
    )
}

/// The first CANCEL among the messages drained before answering.
pub open spec fn first_cancel(pending: Seq<SipMessageView>) -> Option<RequestView>
    decreases pending.len(),
{
    if pending.len() == 0 {
        None
    } else {
        match pending.first() {
            SipMessageView::Request(r) => if r.method == Method::Cancel {
                Some(r)
            } else {
                first_cancel(pending.drop_first())
            },
            SipMessageView::Response(_) => first_cancel(pending.drop_first()),
        }
    }
}

/// Whether a request carries the `Via` and `CSeq` a reply must echo.
pub open spec fn echoable(req: RequestView) -> bool {
    find_hdr(req.headers, ascii_bytes("Via"@)) is Some && find_hdr(
        req.headers,
        ascii_bytes("CSeq"@),
    ) is Some
}

impl IncomingCall {
    /// Takes in a received INVITE: builds the dialog state (allocating
    /// an RTP port and a fresh local tag) and the 180 Ringing to send
    /// at once.
    pub fn try_from_request(context: &mut crate::context::SipContext, request: Request) -> (r:
        Result<(IncomingCall, SipMessage), SipError>)
        requires
            old(context).wf(),
        ensures
            final(context).wf(),
            final(context).spec_config() == old(context).spec_config(),
            r is Ok <==> invite_forms_dialog(request@) && echoable(request@),
            r matches Ok((call, ringing)) ==> {
                &&& call.invite@ == request@
                &&& ringing@ == reply_of(call.session@, request@, 180, ascii_bytes("Ringing"@))
                &&& call.session@.local.port == old(context).spec_next_port()
            },
            r matches Err(e) ==> e == SipError::MissingHeader || e == SipError::InvalidSdp,
    {
        proof {
            reveal_strlit("Via");
            reveal_strlit("CSeq");
            reveal_strlit("Ringing");
        }
        let via_name = str_bytes("Via");
        let cseq_name_b = str_bytes("CSeq");
        if crate::message::find_header(&request.headers, via_name.as_slice()).is_none() {
            return Err(SipError::MissingHeader);
        }
        if crate::message::find_header(&request.headers, cseq_name_b.as_slice()).is_none() {
            return Err(SipError::MissingHeader);
        }
        let session = match SessionParameters::from_request(context, &request) {
            Err(e) => {
                return Err(e);
            }
            Ok(s) => s,
        };
        let headers = match session.get_headers_response(&request) {
            Err(e) => {
                return Err(e);
            }
            Ok(hs) => hs,
        };
        let ringing = SipMessage::Response(
            Response { status: 180, reason: str_bytes("Ringing"), headers, body: Vec::new() },
        );
        proof {
            assert(ringing@ =~~= reply_of(session@, request@, 180, ascii_bytes("Ringing"@)));
        }
        Ok((IncomingCall { session, invite: request }, ringing))
    }

    /// The URI of the caller.
    pub fn get_remote_uri(&self) -> (r: &Vec<u8>)
        ensures
            r@ == self.session@.remote.uri,
    {
        &self.session.remote.uri
    }

    /// Answers the call, first honouring any CANCEL drained from the
    /// dialog channel.
    ///
    /// With a CANCEL among the pending messages, the CANCEL is answered
    /// with 200 and the call resolves `Cancelled` — no media is set up.
    /// Otherwise the INVITE is answered with 200 carrying the local
    /// SDP, and the dialog parameters are handed out for the call to
    /// start.
    pub fn accept(self, pending: &Vec<SipMessage>) -> (r: Result<
        (SipMessage, IncomingCallResult),
        SipError,
    >)
        requires
            crate::sdp::session_serializable(self.session@.local.sdp),
            crate::sdp::session_bytes(self.session@.local.sdp).len() <= u32::MAX,
        ensures
            ({
                match first_cancel(pending.deep_view()) {
                    Some(cancel) => {
                        &&& (r is Ok <==> echoable(cancel))
                        &&& (r matches Ok((reply, res)) ==> reply@ == reply_of(
                            self.session@,
                            cancel,
                            200,
                            ascii_bytes("OK"@),
                        ) && res is Cancelled)
                    },
                    None => {
                        &&& (r is Ok <==> echoable(self.invite@))
                        &&& (r matches Ok((reply, res)) ==> {
                            &&& reply@ == SipMessageView::Response(
                                ResponseView {
                                    status: 200,
                                    reason: ascii_bytes("OK"@),
                                    headers: response_headers_with_body_of(
                                        self.session@,
                                        self.invite@,
                                        crate::sdp::session_bytes(self.session@.local.sdp).len()
                                            as int,
                                    ),
                                    body: crate::sdp::session_bytes(self.session@.local.sdp),
                                },
                            )
                            &&& (res matches IncomingCallResult::Accepted(s) && s == self.session)
                        })
                    },
                }
            }),
            r matches Err(e) ==> e == SipError::MissingHeader,
    {
        proof {
            reveal_strlit("OK");
        }
        match find_cancel(pending) {
            Some(cancel) => {
                let headers = match self.session.get_headers_response(cancel) {
                    Err(e) => {
                        return Err(e);
                    }
                    Ok(hs) => hs,
                };
                let reply = SipMessage::Response(
                    Response { status: 200, reason: str_bytes("OK"), headers, body: Vec::new() },
                );
                proof {
                    assert(reply@ =~~= reply_of(
                        self.session@,
                        first_cancel(pending.deep_view()).unwrap(),
                        200,
                        ascii_bytes("OK"@),
                    ));
                }
                Ok((reply, IncomingCallResult::Cancelled))
            }
            None => {
                let body = self.session.local.sdp.to_bytes();
                let headers = match self.session.get_headers_response_with_body(
                    &self.invite,
                    body.len() as u32,
                ) {
                    Err(e) => {
                        return Err(e);
                    }
                    Ok(hs) => hs,
                };
                let reply = SipMessage::Response(
                    Response { status: 200, reason: str_bytes("OK"), headers, body },
                );
                Ok((reply, IncomingCallResult::Accepted(self.session)))
            }
        }
    }

    /// Turns the call down: a CANCEL that already arrived is answered
    /// with 200; otherwise the INVITE is answered with 600 Busy
    /// Everywhere.
    pub fn reject(self, pending: &Vec<SipMessage>) -> (r: Result<SipMessage, SipError>)
        ensures
            ({
                match first_cancel(pending.deep_view()) {
                    Some(cancel) => {
                        &&& (r is Ok <==> echoable(cancel))
                        &&& (r matches Ok(reply) ==> reply@ == reply_of(
                            self.session@,
                            cancel,
                            200,
                            ascii_bytes("OK"@),
                        ))
                    },
                    None => {
                        &&& (r is Ok <==> echoable(self.invite@))
                        &&& (r matches Ok(reply) ==> reply@ == reply_of(
                            self.session@,
                            self.invite@,
                            600,
                            ascii_bytes("Busy Everywhere"@),
                        ))
                    },
                }
            }),
            r matches Err(e) ==> e == SipError::MissingHeader,
    {
        proof {
            reveal_strlit("OK");
            reveal_strlit("Busy Everywhere");
        }
        match find_cancel(pending) {
            Some(cancel) => {
                let headers = match self.session.get_headers_response(cancel) {
                    Err(e) => {
                        return Err(e);
                    }
                    Ok(hs) => hs,
                };
                let reply = SipMessage::Response(
                    Response { status: 200, reason: str_bytes("OK"), headers, body: Vec::new() },
                );
                proof {
                    assert(reply@ =~~= reply_of(
                        self.session@,
                        first_cancel(pending.deep_view()).unwrap(),
                        200,
                        ascii_bytes("OK"@),
                    ));
                }
                Ok(reply)
            }
            None => {
                let headers = match self.session.get_headers_response(&self.invite) {
                    Err(e) => {
                        return Err(e);
                    }
                    Ok(hs) => hs,
                };
                let reply = SipMessage::Response(
                    Response {
                        status: 600,
                        reason: str_bytes("Busy Everywhere"),
                        headers,
                        body: Vec::new(),
                    },
                );
                proof {
                    assert(reply@ =~~= reply_of(
                        self.session@,
                        self.invite@,
                        600,
                        ascii_bytes("Busy Everywhere"@),
                    ));
                }
                Ok(reply)
            }
        }
    }
}

/// Finds the first CANCEL among the drained messages.
fn find_cancel<'a>(pending: &'a Vec<SipMessage>) -> (r: Option<&'a Request>)
    ensures
        match r {
            Some(req) => first_cancel(pending.deep_view()) == Some(req@),
            None => first_cancel(pending.deep_view()) is None,
        },
{
    let n = pending.len();
    let mut i: usize = 0;
    proof {
        assert(pending.deep_view().skip(0) =~= pending.deep_view());
    }
    while i < n
        invariant
            n == pending@.len(),
            0 <= i <= n,
            first_cancel(pending.deep_view()) == first_cancel(
                pending.deep_view().skip(i as int),
            ),
        decreases n - i,
    {
        proof {
            let tail = pending.deep_view().skip(i as int);
            assert(tail.first() == pending.deep_view()[i as int]);
            assert(tail.drop_first() =~= pending.deep_view().skip(i + 1));
        }
        match &pending[i] {
            SipMessage::Request(req) => {
                match req.method {
                    Method::Cancel => {
                        return Some(req);
                    }
                    _ => {}
                }
            }
            SipMessage::Response(_) => {}
        }
        i += 1;
    }
    proof {
        assert(pending.deep_view().skip(n as int) =~= Seq::<SipMessageView>::empty());
    }
    None
}

} // verus!
