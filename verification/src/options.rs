//! The reply to an OPTIONS ping: a 200 that echoes the request's
//! addressing headers and advertises what this library accepts.

use vstd::prelude::*;
use crate::ascii::{ascii_bytes, str_bytes, subvec};
use crate::config::{own_uri_of, Config, ConfigView};
use crate::errors::SipError;
use crate::message::{
    find_hdr, find_header, hdr, Header, HeaderView, Request, RequestView, Response, ResponseView,
    SipMessage, SipMessageView,
};

verus! {

/// Whether an OPTIONS request carries every header the reply echoes.
pub open spec fn options_echoable(req: RequestView) -> bool {
    &&& find_hdr(req.headers, ascii_bytes("Via"@)) is Some
    &&& find_hdr(req.headers, ascii_bytes("To"@)) is Some
    &&& find_hdr(req.headers, ascii_bytes("From"@)) is Some
    &&& find_hdr(req.headers, ascii_bytes("Call-ID"@)) is Some
    &&& find_hdr(req.headers, ascii_bytes("CSeq"@)) is Some
}

/// The headers of the OPTIONS reply: the request's `Via`, `To`,
/// `From`, `Call-ID` and `CSeq` echoed byte for byte, plus this
/// agent's contact and capabilities.
pub open spec fn options_headers_of(c: ConfigView, req: RequestView) -> Seq<HeaderView> {
    seq![
        HeaderView {
            name: ascii_bytes("Via"@),
            value: find_hdr(req.headers, ascii_bytes("Via"@)).unwrap(),
        },
        HeaderView { name: ascii_bytes("Contact"@), value: own_uri_of(c) },
        HeaderView {
            name: ascii_bytes("To"@),
            value: find_hdr(req.headers, ascii_bytes("To"@)).unwrap(),
        },
        HeaderView {
            name: ascii_bytes("From"@),
            value: find_hdr(req.headers, ascii_bytes("From"@)).unwrap(),
        },
        HeaderView {
            name: ascii_bytes("Call-ID"@),
            value: find_hdr(req.headers, ascii_bytes("Call-ID"@)).unwrap(),
        },
        HeaderView {
            name: ascii_bytes("CSeq"@),
            value: find_hdr(req.headers, ascii_bytes("CSeq"@)).unwrap(),
        },
        HeaderView {
            name: ascii_bytes("Allow"@),
            value: ascii_bytes("INVITE, ACK, BYE, CANCEL, OPTIONS"@),
        },
        HeaderView { name: ascii_bytes("Accept"@), value: ascii_bytes("application/sdp"@) },
        HeaderView { name: ascii_bytes("Accept-Language"@), value: ascii_bytes("en"@) },
        HeaderView { name: ascii_bytes("User-Agent"@), value: ascii_bytes("sip-rs"@) },
        HeaderView { name: ascii_bytes("Content-Length"@), value: ascii_bytes("0"@) },
    ]
}

/// The OPTIONS reply itself: a 200 OK around those headers.
pub open spec fn options_response_of(c: ConfigView, req: RequestView) -> SipMessageView {
    SipMessageView::Response(
        ResponseView {
            status: 200,
            reason: ascii_bytes("OK"@),
            headers: options_headers_of(c, req),
            body: Seq::empty(),
        },
    )
}

/// Builds the 200 reply to an OPTIONS request, echoing its `Via`,
/// `To`, `From`, `Call-ID` and `CSeq` byte for byte. A request missing
/// one of those headers cannot be answered.
pub fn generate_options_response(request: &Request, config: &Config) -> (r: Result<
    SipMessage,
    SipError,
>)
    ensures
        r is Ok <==> options_echoable(request@),
        r matches Ok(m) ==> m@ == options_response_of(config@, request@),
        r matches Err(e) ==> e == SipError::MissingHeader,
{
    proof {
        reveal_strlit("Via");
        reveal_strlit("Contact");
        reveal_strlit("To");
        reveal_strlit("From");
        reveal_strlit("Call-ID");
        reveal_strlit("CSeq");
        reveal_strlit("Allow");
        reveal_strlit("INVITE, ACK, BYE, CANCEL, OPTIONS");
        reveal_strlit("Accept");
        reveal_strlit("application/sdp");
        reveal_strlit("Accept-Language");
        reveal_strlit("en");
        reveal_strlit("User-Agent");
        reveal_strlit("sip-rs");
        reveal_strlit("Content-Length");
        reveal_strlit("0");
        reveal_strlit("OK");
    }
    let via_name = str_bytes("Via");
    let via = match find_header(&request.headers, via_name.as_slice()) {
        None => {
            return Err(SipError::MissingHeader);
        }
        Some(v) => subvec(v.as_slice(), 0, v.len()),
    };
    let to_name = str_bytes("To");
    let to = match find_header(&request.headers, to_name.as_slice()) {
        None => {
            return Err(SipError::MissingHeader);
        }
        Some(v) => subvec(v.as_slice(), 0, v.len()),
    };
    let from_name = str_bytes("From");
    let from = match find_header(&request.headers, from_name.as_slice()) {
        None => {
            return Err(SipError::MissingHeader);
        }
        Some(v) => subvec(v.as_slice(), 0, v.len()),
    };
    let cid_name = str_bytes("Call-ID");
    let cid = match find_header(&request.headers, cid_name.as_slice()) {
        None => {
            return Err(SipError::MissingHeader);
        }
        Some(v) => subvec(v.as_slice(), 0, v.len()),
    };
    let cseq_name_b = str_bytes("CSeq");
    let cseq = match find_header(&request.headers, cseq_name_b.as_slice()) {
        None => {
            return Err(SipError::MissingHeader);
        }
        Some(v) => subvec(v.as_slice(), 0, v.len()),
    };
    let mut headers: Vec<Header> = Vec::new();
    headers.push(hdr("Via", via));
    headers.push(hdr("Contact", config.get_own_uri()));
    headers.push(hdr("To", to));
    headers.push(hdr("From", from));
    headers.push(hdr("Call-ID", cid));
    headers.push(hdr("CSeq", cseq));
    headers.push(crate::message::get_allow_header());
    headers.push(hdr("Accept", str_bytes("application/sdp")));
    headers.push(hdr("Accept-Language", str_bytes("en")));
    headers.push(hdr("User-Agent", str_bytes("sip-rs")));
    headers.push(hdr("Content-Length", str_bytes("0")));
    let r = SipMessage::Response(
        Response { status: 200, reason: str_bytes("OK"), headers, body: Vec::new() },
    );
    assert(r@ =~~= options_response_of(config@, request@));
    Ok(r)
}

} // verus!
