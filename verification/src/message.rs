//! The SIP message model: requests, responses, headers, and the exact
//! byte-level grammar this library reads and writes.
//!
//! Serialization is specified byte for byte by [`message_bytes`]. The parser
//! is canonically sound: whenever it accepts a byte string, re-serializing
//! its result reproduces the input exactly.

use vstd::prelude::*;
use crate::ascii::{
    all_digits, ascii_bytes, bytes_eq, crlf_at, dec_digits, dec_val, eq_ignore_case,
    find_byte, find_crlf_from, lemma_dec_digits_canon, lower_seq, parse_dec, slice_range,
    str_bytes, subvec, u64_to_dec,
};
use crate::errors::SipError;

verus! {

/// The request methods this library understands.
#[derive(Clone, Copy, Debug, PartialEq, Eq, Structural)]
pub enum Method {
    Invite,
    Ack,
    Bye,
    Cancel,
    Options,
    Register,
}

/// One `name: value` header field.
#[derive(Clone, Debug)]
pub struct Header {
    pub name: Vec<u8>,
    pub value: Vec<u8>,
}

/// Ghost image of a header.
#[verifier::ext_equal]
pub struct HeaderView {
    pub name: Seq<u8>,
    pub value: Seq<u8>,
}

impl View for Header {
    type V = HeaderView;

    open spec fn view(&self) -> HeaderView {
        HeaderView { name: self.name@, value: self.value@ }
    }
}

impl DeepView for Header {
    type V = HeaderView;

    open spec fn deep_view(&self) -> HeaderView {
        self@
    }
}

/// A SIP request.
#[derive(Clone, Debug)]
pub struct Request {
    pub method: Method,
    pub uri: Vec<u8>,
    pub headers: Vec<Header>,
    pub body: Vec<u8>,
}

/// Ghost image of a request.
#[verifier::ext_equal]
pub struct RequestView {
    pub method: Method,
    pub uri: Seq<u8>,
    pub headers: Seq<HeaderView>,
    pub body: Seq<u8>,
}

impl View for Request {
    type V = RequestView;

    open spec fn view(&self) -> RequestView {
        RequestView {
            method: self.method,
            uri: self.uri@,
            headers: self.headers.deep_view(),
            body: self.body@,
        }
    }
}

/// A SIP response.
#[derive(Clone, Debug)]
pub struct Response {
    pub status: u16,
    pub reason: Vec<u8>,
    pub headers: Vec<Header>,
    pub body: Vec<u8>,
}

/// Ghost image of a response.
#[verifier::ext_equal]
pub struct ResponseView {
    pub status: u16,
    pub reason: Seq<u8>,
    pub headers: Seq<HeaderView>,
    pub body: Seq<u8>,
}

impl View for Response {
    type V = ResponseView;

    open spec fn view(&self) -> ResponseView {
        ResponseView {
            status: self.status,
            reason: self.reason@,
            headers: self.headers.deep_view(),
            body: self.body@,
        }
    }
}

/// A request or a response.
#[derive(Clone, Debug)]
pub enum SipMessage {
    Request(Request),
    Response(Response),
}

/// Ghost image of a message.
#[verifier::ext_equal]
pub enum SipMessageView {
    Request(RequestView),
    Response(ResponseView),
}

impl View for SipMessage {
    type V = SipMessageView;

    open spec fn view(&self) -> SipMessageView {
        match self {
            SipMessage::Request(r) => SipMessageView::Request(r@),
            SipMessage::Response(r) => SipMessageView::Response(r@),
        }
    }
}

impl DeepView for SipMessage {
    type V = SipMessageView;

    open spec fn deep_view(&self) -> SipMessageView {
        self@
    }
}

// ------------------------------------------------------------------
// The wire grammar, byte for byte.
// ------------------------------------------------------------------

/// A single space.
pub open spec fn sp() -> Seq<u8> {
    seq![32u8]
}

/// Carriage return, line feed.
pub open spec fn crlf() -> Seq<u8> {
    seq![13u8, 10u8]
}

/// The `": "` separating a header name from its value.
pub open spec fn colon_sp() -> Seq<u8> {
    seq![58u8, 32u8]
}

/// The protocol version token.
pub open spec fn sip_version() -> Seq<u8> {
    ascii_bytes("SIP/2.0"@)
}

/// The canonical spelling of a method.
pub open spec fn method_name(m: Method) -> Seq<u8> {
    match m {
        Method::Invite => ascii_bytes("INVITE"@),
        Method::Ack => ascii_bytes("ACK"@),
        Method::Bye => ascii_bytes("BYE"@),
        Method::Cancel => ascii_bytes("CANCEL"@),
        Method::Options => ascii_bytes("OPTIONS"@),
        Method::Register => ascii_bytes("REGISTER"@),
    }
}

/// The bytes of one header line, terminator included.
pub open spec fn header_line(h: HeaderView) -> Seq<u8> {
    h.name + colon_sp() + h.value + crlf()
}

/// The bytes of a header block, in insertion order.
pub open spec fn headers_bytes(hs: Seq<HeaderView>) -> Seq<u8>
    decreases hs.len(),
{
    if hs.len() == 0 {
        Seq::empty()
    } else {
        headers_bytes(hs.drop_last()) + header_line(hs.last())
    }
}

/// The bytes of a request line.
pub open spec fn request_line(r: RequestView) -> Seq<u8> {
    method_name(r.method) + sp() + r.uri + sp() + sip_version() + crlf()
}

/// The bytes of a status line.
pub open spec fn status_line(r: ResponseView) -> Seq<u8> {
    sip_version() + sp() + dec_digits(r.status as nat) + sp() + r.reason + crlf()
}

/// Start line plus header lines; everything before the blank line.
pub open spec fn head_bytes(m: SipMessageView) -> Seq<u8> {
    match m {
        SipMessageView::Request(r) => request_line(r) + headers_bytes(r.headers),
        SipMessageView::Response(r) => status_line(r) + headers_bytes(r.headers),
    }
}

/// The body of a message.
pub open spec fn body_of(m: SipMessageView) -> Seq<u8> {
    match m {
        SipMessageView::Request(r) => r.body,
        SipMessageView::Response(r) => r.body,
    }
}

/// The headers of a message.
pub open spec fn headers_of(m: SipMessageView) -> Seq<HeaderView> {
    match m {
        SipMessageView::Request(r) => r.headers,
        SipMessageView::Response(r) => r.headers,
    }
}

/// The complete wire image of a message.
pub open spec fn message_bytes(m: SipMessageView) -> Seq<u8> {
    head_bytes(m) + crlf() + body_of(m)
}

// ------------------------------------------------------------------
// Serialization.
// ------------------------------------------------------------------

/// The canonical spelling of a method, as a fresh vector.
pub fn method_bytes(m: Method) -> (r: Vec<u8>)
    ensures
        r@ == method_name(m),
{
    proof {
        reveal_strlit("INVITE");
        reveal_strlit("ACK");
        reveal_strlit("BYE");
        reveal_strlit("CANCEL");
        reveal_strlit("OPTIONS");
        reveal_strlit("REGISTER");
    }
    match m {
        Method::Invite => str_bytes("INVITE"),
        Method::Ack => str_bytes("ACK"),
        Method::Bye => str_bytes("BYE"),
        Method::Cancel => str_bytes("CANCEL"),
        Method::Options => str_bytes("OPTIONS"),
        Method::Register => str_bytes("REGISTER"),
    }
}

fn push_version(out: &mut Vec<u8>)
    ensures
        final(out)@ == old(out)@ + sip_version(),
{
    proof {
        reveal_strlit("SIP/2.0");
    }
    let v = str_bytes("SIP/2.0");
    out.extend_from_slice(v.as_slice());
}

fn push_header(out: &mut Vec<u8>, h: &Header)
    ensures
        final(out)@ == old(out)@ + header_line(h@),
{
    out.extend_from_slice(h.name.as_slice());
    out.push(58);
    out.push(32);
    out.extend_from_slice(h.value.as_slice());
    out.push(13);
    out.push(10);
    assert(out@ =~= old(out)@ + header_line(h@));
}

fn push_headers(out: &mut Vec<u8>, hs: &Vec<Header>)
    ensures
        final(out)@ == old(out)@ + headers_bytes(hs.deep_view()),
{
    let n = hs.len();
    let mut i: usize = 0;
    while i < n
        invariant
            n == hs@.len(),
            0 <= i <= n,
            out@ == old(out)@ + headers_bytes(hs.deep_view().take(i as int)),
        decreases n - i,
    {
        push_header(out, &hs[i]);
        proof {
            let hv = hs.deep_view();
            assert(hv.take(i + 1).drop_last() =~= hv.take(i as int));
            assert(hv.take(i + 1).last() == hv[i as int]);
        }
        i += 1;
    }
    proof {
        assert(hs.deep_view().take(n as int) =~= hs.deep_view());
    }
}

impl SipMessage {
    /// Serializes the message for the wire.
    pub fn encode(&self) -> (r: Vec<u8>)
        ensures
            r@ == message_bytes(self@),
    {
        let mut out: Vec<u8> = Vec::new();
        match self {
            SipMessage::Request(req) => {
                let m = method_bytes(req.method);
                out.extend_from_slice(m.as_slice());
                out.push(32);
                out.extend_from_slice(req.uri.as_slice());
                out.push(32);
                push_version(&mut out);
                out.push(13);
                out.push(10);
                assert(out@ =~= request_line(req@));
                push_headers(&mut out, &req.headers);
                out.push(13);
                out.push(10);
                out.extend_from_slice(req.body.as_slice());
                assert(out@ =~= message_bytes(self@));
            }
            SipMessage::Response(res) => {
                push_version(&mut out);
                out.push(32);
                let d = u64_to_dec(res.status as u64);
                out.extend_from_slice(d.as_slice());
                out.push(32);
                out.extend_from_slice(res.reason.as_slice());
                out.push(13);
                out.push(10);
                assert(out@ =~= status_line(res@));
                push_headers(&mut out, &res.headers);
                out.push(13);
                out.push(10);
                out.extend_from_slice(res.body.as_slice());
                assert(out@ =~= message_bytes(self@));
            }
        }
        out
    }

    /// The headers of the message, shared between both shapes.
    pub fn headers(&self) -> (r: &Vec<Header>)
        ensures
            r.deep_view() == headers_of(self@),
    {
        match self {
            SipMessage::Request(req) => &req.headers,
            SipMessage::Response(res) => &res.headers,
        }
    }

    /// The body of the message.
    pub fn body(&self) -> (r: &Vec<u8>)
        ensures
            r@ == body_of(self@),
    {
        match self {
            SipMessage::Request(req) => &req.body,
            SipMessage::Response(res) => &res.body,
        }
    }
}

// ------------------------------------------------------------------
// Header lookup.
// ------------------------------------------------------------------

/// The value of the first header whose name matches `name`,
/// ASCII-case-insensitively.
pub open spec fn find_hdr(hs: Seq<HeaderView>, name: Seq<u8>) -> Option<Seq<u8>>
    decreases hs.len(),
{
    if hs.len() == 0 {
        None
    } else if lower_seq(hs.first().name) == lower_seq(name) {
        Some(hs.first().value)
    } else {
        find_hdr(hs.drop_first(), name)
    }
}

/// Finds the first header named `name` (ASCII case-insensitive).
pub fn find_header<'a>(hs: &'a Vec<Header>, name: &[u8]) -> (r: Option<&'a Vec<u8>>)
    ensures
        match r {
            Some(v) => find_hdr(hs.deep_view(), name@) == Some(v@),
            None => find_hdr(hs.deep_view(), name@) is None,
        },
{
    let n = hs.len();
    let mut i: usize = 0;
    proof {
        assert(hs.deep_view().skip(0) =~= hs.deep_view());
    }
    while i < n
        invariant
            n == hs@.len(),
            0 <= i <= n,
            find_hdr(hs.deep_view(), name@) == find_hdr(hs.deep_view().skip(i as int), name@),
        decreases n - i,
    {
        proof {
            let tail = hs.deep_view().skip(i as int);
            assert(tail.first() == hs.deep_view()[i as int]);
            assert(tail.drop_first() =~= hs.deep_view().skip(i + 1));
        }
        if eq_ignore_case(hs[i].name.as_slice(), name) {
            return Some(&hs[i].value);
        }
        i += 1;
    }
    proof {
        assert(hs.deep_view().skip(n as int) =~= Seq::<HeaderView>::empty());
    }
    None
}

/// When position `i` is the first whose name matches, the lookup
/// returns that header's value.
pub proof fn lemma_find_hdr_at(hs: Seq<HeaderView>, name: Seq<u8>, i: int)
    requires
        0 <= i < hs.len(),
        lower_seq(hs[i].name) == lower_seq(name),
        forall|j: int| 0 <= j < i ==> lower_seq((#[trigger] hs[j]).name) != lower_seq(name),
    ensures
        find_hdr(hs, name) == Some(hs[i].value),
    decreases i,
{
    if i == 0 {
    } else {
        let t = hs.drop_first();
        assert(forall|j: int| 0 <= j < i - 1 ==> t[j] == hs[j + 1]);
        lemma_find_hdr_at(t, name, i - 1);
    }
}

// ------------------------------------------------------------------
// Standard header accessors.
// ------------------------------------------------------------------

/// The canonical `Content-Length` header name.
pub open spec fn content_length_name() -> Seq<u8> {
    ascii_bytes("Content-Length"@)
}

/// `Content-Length` as a fresh vector.
pub fn content_length_bytes() -> (r: Vec<u8>)
    ensures
        r@ == content_length_name(),
{
    proof {
        reveal_strlit("Content-Length");
    }
    str_bytes("Content-Length")
}

/// The declared body length of a message: the value of its
/// `Content-Length` header, or zero when the header is absent or
/// unreadable.
pub open spec fn spec_content_length(m: SipMessageView) -> int {
    match find_hdr(headers_of(m), content_length_name()) {
        None => 0,
        Some(v) => if v.len() > 0 && all_digits(v) && dec_val(v) <= u32::MAX {
            dec_val(v)
        } else {
            0
        },
    }
}

/// Reads the declared body length of a message.
pub fn content_length(m: &SipMessage) -> (r: u32)
    ensures
        r as int == spec_content_length(m@),
{
    let name = content_length_bytes();
    match find_header(m.headers(), name.as_slice()) {
        None => 0,
        Some(v) => match parse_dec(v.as_slice()) {
            None => 0,
            Some(n) => n,
        },
    }
}

/// A header built from a literal name and an owned value.
pub fn hdr(name: &str, value: Vec<u8>) -> (r: Header)
    requires
        name.is_ascii(),
    ensures
        r@ == (HeaderView { name: ascii_bytes(name@), value: value@ }),
{
    Header { name: str_bytes(name), value }
}

/// The methods this library advertises.
pub open spec fn allow_value() -> Seq<u8> {
    ascii_bytes("INVITE, ACK, BYE, CANCEL, OPTIONS"@)
}

/// The `Allow` header this library sends.
pub fn get_allow_header() -> (r: Header)
    ensures
        r@ == (HeaderView { name: ascii_bytes("Allow"@), value: allow_value() }),
{
    proof {
        reveal_strlit("Allow");
        reveal_strlit("INVITE, ACK, BYE, CANCEL, OPTIONS");
    }
    hdr("Allow", str_bytes("INVITE, ACK, BYE, CANCEL, OPTIONS"))
}

/// The canonical `CSeq` header name.
pub open spec fn cseq_name() -> Seq<u8> {
    ascii_bytes("CSeq"@)
}

/// The canonical `Call-ID` header name.
pub open spec fn call_id_name() -> Seq<u8> {
    ascii_bytes("Call-ID"@)
}

/// The value of a `CSeq` header: `<seq> <METHOD>`.
pub open spec fn cseq_value_of(seq: u32, m: Method) -> Seq<u8> {
    dec_digits(seq as nat) + sp() + method_name(m)
}

/// Builds a `CSeq` header value.
pub fn make_cseq_value(seq: u32, m: Method) -> (r: Vec<u8>)
    ensures
        r@ == cseq_value_of(seq, m),
{
    let mut out = u64_to_dec(seq as u64);
    out.push(32);
    let mb = method_bytes(m);
    out.extend_from_slice(mb.as_slice());
    assert(out@ =~= cseq_value_of(seq, m));
    out
}

/// Reads a `CSeq` header value: sequence number, one space, method.
pub open spec fn spec_parse_cseq_value(v: Seq<u8>) -> Option<(int, Method)> {
    match spec_find_byte(v, 32) {
        None => None,
        Some(i) => if i < 1 {
            None
        } else {
            let num = v.subrange(0, i);
            let rest = v.subrange(i + 1, v.len() as int);
            if all_digits(num) && dec_val(num) <= u32::MAX {
                match method_of(rest) {
                    Some(m) => Some((dec_val(num), m)),
                    None => None,
                }
            } else {
                None
            }
        },
    }
}

/// The sequence number and method of the message's `CSeq` header.
pub open spec fn spec_cseq(m: SipMessageView) -> Option<(int, Method)> {
    match find_hdr(headers_of(m), cseq_name()) {
        None => None,
        Some(v) => spec_parse_cseq_value(v),
    }
}

/// Reads one `CSeq` header value.
pub fn parse_cseq_value(v: &[u8]) -> (r: Option<(u32, Method)>)
    ensures
        match r {
            Some((n, mth)) => spec_parse_cseq_value(v@) == Some((n as int, mth)),
            None => spec_parse_cseq_value(v@) is None,
        },
{
    proof {
        lemma_find_byte_char(v@, 32);
    }
    let vl = v.len();
    let i = match find_byte(v, 32) {
        None => {
            return None;
        }
        Some(i) => i,
    };
    if i < 1 {
        return None;
    }
    let num = match parse_dec(slice_range(v, 0, i)) {
        None => {
            return None;
        }
        Some(n) => n,
    };
    let mth = match parse_method(slice_range(v, i + 1, vl)) {
        None => {
            return None;
        }
        Some(mth) => mth,
    };
    Some((num, mth))
}

/// Reads the `CSeq` header of a message.
pub fn get_cseq(m: &SipMessage) -> (r: Option<(u32, Method)>)
    ensures
        match r {
            Some((n, mth)) => spec_cseq(m@) == Some((n as int, mth)),
            None => spec_cseq(m@) is None,
        },
{
    proof {
        reveal_strlit("CSeq");
    }
    let name = str_bytes("CSeq");
    let v = match find_header(m.headers(), name.as_slice()) {
        None => {
            return None;
        }
        Some(v) => v,
    };
    parse_cseq_value(v.as_slice())
}

/// The value of the message's `Call-ID` header.
pub open spec fn spec_call_id(m: SipMessageView) -> Option<Seq<u8>> {
    find_hdr(headers_of(m), call_id_name())
}

/// Reads the `Call-ID` header of a message.
pub fn get_call_id<'a>(m: &'a SipMessage) -> (r: Option<&'a Vec<u8>>)
    ensures
        match r {
            Some(v) => spec_call_id(m@) == Some(v@),
            None => spec_call_id(m@) is None,
        },
{
    proof {
        reveal_strlit("Call-ID");
    }
    let name = str_bytes("Call-ID");
    find_header(m.headers(), name.as_slice())
}

/// The same message with its body replaced.
pub open spec fn with_body(m: SipMessageView, body: Seq<u8>) -> SipMessageView {
    match m {
        SipMessageView::Request(r) => SipMessageView::Request(
            RequestView { method: r.method, uri: r.uri, headers: r.headers, body },
        ),
        SipMessageView::Response(r) => SipMessageView::Response(
            ResponseView { status: r.status, reason: r.reason, headers: r.headers, body },
        ),
    }
}

/// The same message with its headers replaced.
pub open spec fn with_headers(m: SipMessageView, headers: Seq<HeaderView>) -> SipMessageView {
    match m {
        SipMessageView::Request(r) => SipMessageView::Request(
            RequestView { method: r.method, uri: r.uri, headers, body: r.body },
        ),
        SipMessageView::Response(r) => SipMessageView::Response(
            ResponseView { status: r.status, reason: r.reason, headers, body: r.body },
        ),
    }
}

impl SipMessage {
    /// Replaces the body of the message.
    pub fn set_body(&mut self, body: Vec<u8>)
        ensures
            final(self)@ == with_body(old(self)@, body@),
    {
        match self {
            SipMessage::Request(r) => {
                r.body = body;
            }
            SipMessage::Response(r) => {
                r.body = body;
            }
        }
    }

    /// Appends one header to the message.
    pub fn push_header(&mut self, h: Header)
        ensures
            final(self)@ == with_headers(old(self)@, headers_of(old(self)@).push(h@)),
    {
        match self {
            SipMessage::Request(r) => {
                r.headers.push(h);
                assert(r.headers.deep_view() =~= headers_of(old(self)@).push(h@));
            }
            SipMessage::Response(r) => {
                r.headers.push(h);
                assert(r.headers.deep_view() =~= headers_of(old(self)@).push(h@));
            }
        }
    }
}

// ------------------------------------------------------------------
// Parsing.
// ------------------------------------------------------------------

/// The position of the first CRLF in `s`.
pub open spec fn spec_find_crlf(s: Seq<u8>) -> Option<int>
    decreases s.len(),
{
    if s.len() < 2 {
        None
    } else if s[0] == 13 && s[1] == 10 {
        Some(0)
    } else {
        match spec_find_crlf(s.drop_first()) {
            Some(i) => Some(i + 1),
            None => None,
        }
    }
}

pub proof fn lemma_find_crlf_char(s: Seq<u8>)
    ensures
        match spec_find_crlf(s) {
            Some(i) => crlf_at(s, i) && forall|j: int| 0 <= j < i ==> !crlf_at(s, j),
            None => forall|j: int| !crlf_at(s, j),
        },
    decreases s.len(),
{
    if s.len() < 2 {
    } else if s[0] == 13 && s[1] == 10 {
    } else {
        let t = s.drop_first();
        lemma_find_crlf_char(t);
        assert forall|j: int| 1 <= j && crlf_at(s, j) implies crlf_at(t, j - 1) by {
            assert(t[j - 1] == s[j] && t[j] == s[j + 1]);
        }
        match spec_find_crlf(t) {
            Some(i) => {
                assert(s[i + 1] == t[i] && s[i + 2] == t[i + 1]);
                assert(crlf_at(s, i + 1));
            }
            None => {}
        }
    }
}

/// The position of the first occurrence of `b` in `s`.
pub open spec fn spec_find_byte(s: Seq<u8>, b: u8) -> Option<int>
    decreases s.len(),
{
    if s.len() == 0 {
        None
    } else if s[0] == b {
        Some(0)
    } else {
        match spec_find_byte(s.drop_first(), b) {
            Some(i) => Some(i + 1),
            None => None,
        }
    }
}

pub proof fn lemma_find_byte_char(s: Seq<u8>, b: u8)
    ensures
        match spec_find_byte(s, b) {
            Some(i) => 0 <= i < s.len() && s[i] == b && forall|j: int| 0 <= j < i ==> s[j] != b,
            None => forall|j: int| 0 <= j < s.len() ==> s[j] != b,
        },
    decreases s.len(),
{
    if s.len() == 0 {
    } else if s[0] == b {
    } else {
        let t = s.drop_first();
        lemma_find_byte_char(t, b);
        match spec_find_byte(t, b) {
            Some(i) => {
                assert(s[i + 1] == t[i]);
                assert forall|j: int| 0 <= j < i + 1 implies s[j] != b by {
                    if j >= 1 {
                        assert(t[j - 1] == s[j]);
                    }
                }
            }
            None => {
                assert forall|j: int| 0 <= j < s.len() implies s[j] != b by {
                    if j >= 1 {
                        assert(t[j - 1] == s[j]);
                    }
                }
            }
        }
    }
}

/// Parses one header line of the form `name: value` (no terminator).
pub open spec fn spec_parse_header_line(line: Seq<u8>) -> Option<HeaderView> {
    match spec_find_byte(line, 58) {
        None => None,
        Some(k) => if k <= 0 {
            None
        } else if k + 2 <= line.len() && line[k + 1] == 32 {
            Some(
                HeaderView {
                    name: line.subrange(0, k),
                    value: line.subrange(k + 2, line.len() as int),
                },
            )
        } else {
            None
        },
    }
}

proof fn lemma_parse_header_line_sound(line: Seq<u8>)
    requires
        spec_parse_header_line(line) is Some,
    ensures
        header_line(spec_parse_header_line(line).unwrap()) == line + crlf(),
{
    lemma_find_byte_char(line, 58);
    let k = spec_find_byte(line, 58).unwrap();
    let h = spec_parse_header_line(line).unwrap();
    assert(header_line(h) =~= line + crlf());
}

/// Parses a block of CRLF-terminated header lines.
pub open spec fn spec_parse_headers(s: Seq<u8>) -> Option<Seq<HeaderView>>
    decreases s.len(),
{
    if s.len() == 0 {
        Some(Seq::empty())
    } else {
        match spec_find_crlf(s) {
            None => None,
            Some(k) => if k < 0 || k + 2 > s.len() {
                None
            } else {
                match spec_parse_header_line(s.subrange(0, k)) {
                    None => None,
                    Some(h) => match spec_parse_headers(s.subrange(k + 2, s.len() as int)) {
                        None => None,
                        Some(rest) => Some(seq![h] + rest),
                    },
                }
            },
        }
    }
}

proof fn lemma_headers_bytes_concat(a: Seq<HeaderView>, b: Seq<HeaderView>)
    ensures
        headers_bytes(a + b) == headers_bytes(a) + headers_bytes(b),
    decreases b.len(),
{
    if b.len() == 0 {
        assert(a + b =~= a);
        assert(headers_bytes(a) + headers_bytes(b) =~= headers_bytes(a));
    } else {
        lemma_headers_bytes_concat(a, b.drop_last());
        assert((a + b).drop_last() =~= a + b.drop_last());
        assert((a + b).last() == b.last());
        assert(headers_bytes(a + b) =~= headers_bytes(a) + headers_bytes(b));
    }
}

proof fn lemma_parse_headers_sound(s: Seq<u8>)
    requires
        spec_parse_headers(s) is Some,
    ensures
        headers_bytes(spec_parse_headers(s).unwrap()) == s,
    decreases s.len(),
{
    if s.len() == 0 {
        assert(headers_bytes(Seq::empty()) =~= s);
    } else {
        lemma_find_crlf_char(s);
        let k = spec_find_crlf(s).unwrap();
        let line = s.subrange(0, k);
        let rest_bytes = s.subrange(k + 2, s.len() as int);
        let h = spec_parse_header_line(line).unwrap();
        let rest = spec_parse_headers(rest_bytes).unwrap();
        lemma_parse_header_line_sound(line);
        lemma_parse_headers_sound(rest_bytes);
        lemma_headers_bytes_concat(seq![h], rest);
        assert(seq![h].drop_last() =~= Seq::<HeaderView>::empty());
        assert(headers_bytes(Seq::<HeaderView>::empty()) =~= Seq::<u8>::empty());
        assert(headers_bytes(seq![h]) == headers_bytes(seq![h].drop_last()) + header_line(
            seq![h].last(),
        ));
        assert(headers_bytes(seq![h]) =~= header_line(h));
        assert(s =~= line + crlf() + rest_bytes);
        assert(headers_bytes(seq![h] + rest) =~= s);
    }
}

/// Maps a canonical method spelling back to the method.
pub open spec fn method_of(s: Seq<u8>) -> Option<Method> {
    if s == method_name(Method::Invite) {
        Some(Method::Invite)
    } else if s == method_name(Method::Ack) {
        Some(Method::Ack)
    } else if s == method_name(Method::Bye) {
        Some(Method::Bye)
    } else if s == method_name(Method::Cancel) {
        Some(Method::Cancel)
    } else if s == method_name(Method::Options) {
        Some(Method::Options)
    } else if s == method_name(Method::Register) {
        Some(Method::Register)
    } else {
        None
    }
}

/// `"SIP/2.0 "`, the prefix of every status line.
pub open spec fn version_sp() -> Seq<u8> {
    sip_version() + sp()
}

/// `" SIP/2.0"`, the tail of every request line.
pub open spec fn sp_version() -> Seq<u8> {
    sp() + sip_version()
}

/// Parses a request line (no terminator).
pub open spec fn spec_parse_request_line(line: Seq<u8>) -> Option<(Method, Seq<u8>)> {
    match spec_find_byte(line, 32) {
        None => None,
        Some(i) => if i < 0 {
            None
        } else {
            match method_of(line.subrange(0, i)) {
                None => None,
                Some(m) => if i + 9 <= line.len() && line.subrange(
                    line.len() - 8,
                    line.len() as int,
                ) == sp_version() {
                    Some((m, line.subrange(i + 1, line.len() - 8)))
                } else {
                    None
                },
            }
        },
    }
}

/// Parses a status line (no terminator).
pub open spec fn spec_parse_status_line(line: Seq<u8>) -> Option<(u16, Seq<u8>)> {
    if line.len() >= 8 && line.subrange(0, 8) == version_sp() {
        let rest = line.subrange(8, line.len() as int);
        match spec_find_byte(rest, 32) {
            None => None,
            Some(d) => if d < 1 {
                None
            } else {
                let field = rest.subrange(0, d);
                if all_digits(field) && (field[0] != 48 || d == 1) && dec_val(field)
                    <= u16::MAX {
                    Some(((dec_val(field)) as u16, rest.subrange(d + 1, rest.len() as int)))
                } else {
                    None
                }
            },
        }
    } else {
        None
    }
}

/// Parses the head of a message: start line plus header block, final
/// CRLF included, blank line excluded.
pub open spec fn spec_parse_head(b: Seq<u8>) -> Option<SipMessageView> {
    match spec_find_crlf(b) {
        None => None,
        Some(k) => if k < 0 || k + 2 > b.len() {
            None
        } else {
            let line = b.subrange(0, k);
            let rest = b.subrange(k + 2, b.len() as int);
            match spec_parse_headers(rest) {
                None => None,
                Some(hs) => if 8 <= line.len() && line.subrange(0, 8) == version_sp() {
                    match spec_parse_status_line(line) {
                        None => None,
                        Some((st, reason)) => Some(
                            SipMessageView::Response(
                                ResponseView {
                                    status: st,
                                    reason,
                                    headers: hs,
                                    body: Seq::empty(),
                                },
                            ),
                        ),
                    }
                } else {
                    match spec_parse_request_line(line) {
                        None => None,
                        Some((m, uri)) => Some(
                            SipMessageView::Request(
                                RequestView { method: m, uri, headers: hs, body: Seq::empty() },
                            ),
                        ),
                    }
                },
            }
        },
    }
}

/// A parse that succeeds is canonically sound: re-serializing its result
/// reproduces the input bytes exactly.
pub proof fn lemma_parse_head_sound(b: Seq<u8>)
    requires
        spec_parse_head(b) is Some,
    ensures
        head_bytes(spec_parse_head(b).unwrap()) == b,
        body_of(spec_parse_head(b).unwrap()) == Seq::<u8>::empty(),
{
    lemma_find_crlf_char(b);
    let k = spec_find_crlf(b).unwrap();
    let line = b.subrange(0, k);
    let rest = b.subrange(k + 2, b.len() as int);
    let hs = spec_parse_headers(rest).unwrap();
    lemma_parse_headers_sound(rest);
    assert(b =~= line + crlf() + rest);
    reveal_strlit("SIP/2.0");
    assert(sip_version().len() == 7);
    if 8 <= line.len() && line.subrange(0, 8) == version_sp() {
        let (st, reason) = spec_parse_status_line(line).unwrap();
        let inner = line.subrange(8, line.len() as int);
        lemma_find_byte_char(inner, 32);
        let d = spec_find_byte(inner, 32).unwrap();
        let field = inner.subrange(0, d);
        lemma_dec_digits_canon(field);
        let m = spec_parse_head(b).unwrap();
        let r = m->Response_0;
        assert(dec_digits(r.status as nat) == field);
        assert(r.reason == inner.subrange(d + 1, inner.len() as int));
        assert(line.subrange(0, 8) == version_sp());
        assert(status_line(r) =~= line + crlf());
        assert(head_bytes(m) =~= b);
    } else {
        let (mth, uri) = spec_parse_request_line(line).unwrap();
        lemma_find_byte_char(line, 32);
        let i = spec_find_byte(line, 32).unwrap();
        let m = spec_parse_head(b).unwrap();
        let r = m->Request_0;
        assert(method_of(line.subrange(0, i)) == Some(r.method));
        assert(line.subrange(0, i) == method_name(r.method));
        assert(method_name(r.method).len() == i);
        assert(r.uri == line.subrange(i + 1, line.len() - 8));
        assert(line.subrange(line.len() - 8, line.len() as int) == sp_version());
        assert(line =~= line.subrange(0, line.len() - 8) + sp_version());
        assert(line.subrange(0, line.len() - 8) =~= method_name(r.method) + sp() + r.uri);
        assert(request_line(r) =~= (method_name(r.method) + sp() + r.uri) + sp_version()
            + crlf());
        assert(request_line(r) =~= line + crlf());
        assert(head_bytes(m) =~= b);
    }
}

// ------------------------------------------------------------------
// The executable parser.
// ------------------------------------------------------------------

/// `"SIP/2.0 "` as a fresh vector.
fn version_sp_bytes() -> (r: Vec<u8>)
    ensures
        r@ == version_sp(),
{
    proof {
        reveal_strlit("SIP/2.0");
    }
    let mut v = str_bytes("SIP/2.0");
    v.push(32);
    assert(v@ =~= version_sp());
    v
}

/// `" SIP/2.0"` as a fresh vector.
fn sp_version_bytes() -> (r: Vec<u8>)
    ensures
        r@ == sp_version(),
{
    proof {
        reveal_strlit("SIP/2.0");
    }
    let mut v: Vec<u8> = Vec::new();
    v.push(32);
    let tail = str_bytes("SIP/2.0");
    v.extend_from_slice(tail.as_slice());
    assert(v@ =~= sp_version());
    v
}

/// Recognizes a canonical method spelling.
pub fn parse_method(s: &[u8]) -> (r: Option<Method>)
    ensures
        r == method_of(s@),
{
    if bytes_eq(s, method_bytes(Method::Invite).as_slice()) {
        Some(Method::Invite)
    } else if bytes_eq(s, method_bytes(Method::Ack).as_slice()) {
        Some(Method::Ack)
    } else if bytes_eq(s, method_bytes(Method::Bye).as_slice()) {
        Some(Method::Bye)
    } else if bytes_eq(s, method_bytes(Method::Cancel).as_slice()) {
        Some(Method::Cancel)
    } else if bytes_eq(s, method_bytes(Method::Options).as_slice()) {
        Some(Method::Options)
    } else if bytes_eq(s, method_bytes(Method::Register).as_slice()) {
        Some(Method::Register)
    } else {
        None
    }
}

fn parse_header_line(line: &[u8]) -> (r: Option<Header>)
    ensures
        match r {
            Some(h) => spec_parse_header_line(line@) == Some(h@),
            None => spec_parse_header_line(line@) is None,
        },
{
    proof {
        lemma_find_byte_char(line@, 58);
    }
    match find_byte(line, 58) {
        None => None,
        Some(k) => {
            if k == 0 {
                None
            } else if line.len() >= 2 && k <= line.len() - 2 && line[k + 1] == 32 {
                let name = subvec(line, 0, k);
                let value = subvec(line, k + 2, line.len());
                Some(Header { name, value })
            } else {
                None
            }
        }
    }
}

fn parse_headers(s: &[u8]) -> (r: Result<Vec<Header>, SipError>)
    ensures
        match r {
            Ok(hs) => spec_parse_headers(s@) == Some(hs.deep_view()),
            Err(e) => spec_parse_headers(s@) is None && e == SipError::MalformedMessage,
        },
    decreases s@.len(),
{
    if s.len() == 0 {
        let hs: Vec<Header> = Vec::new();
        assert(hs.deep_view() =~= Seq::<HeaderView>::empty());
        return Ok(hs);
    }
    proof {
        lemma_find_crlf_char(s@);
    }
    let k = match find_crlf_from(s, 0) {
        None => {
            return Err(SipError::MalformedMessage);
        }
        Some(k) => k,
    };
    assert(k + 2 <= s@.len());
    let line = slice_range(s, 0, k);
    let h = match parse_header_line(line) {
        None => {
            return Err(SipError::MalformedMessage);
        }
        Some(h) => h,
    };
    let tail = slice_range(s, k + 2, s.len());
    let mut rest = match parse_headers(tail) {
        Err(e) => {
            return Err(e);
        }
        Ok(rest) => rest,
    };
    let ghost old_rest = rest.deep_view();
    rest.insert(0, h);
    proof {
        assert(rest.deep_view() =~= seq![h@] + old_rest);
    }
    Ok(rest)
}

fn parse_request_line(line: &[u8]) -> (r: Result<(Method, Vec<u8>), SipError>)
    ensures
        match r {
            Ok((m, uri)) => spec_parse_request_line(line@) == Some((m, uri@)),
            Err(e) => spec_parse_request_line(line@) is None && e == SipError::MalformedMessage,
        },
{
    proof {
        lemma_find_byte_char(line@, 32);
    }
    let i = match find_byte(line, 32) {
        None => {
            return Err(SipError::MalformedMessage);
        }
        Some(i) => i,
    };
    let m = match parse_method(slice_range(line, 0, i)) {
        None => {
            return Err(SipError::MalformedMessage);
        }
        Some(m) => m,
    };
    if line.len() >= 9 && i <= line.len() - 9 {
        let tail = slice_range(line, line.len() - 8, line.len());
        if bytes_eq(tail, sp_version_bytes().as_slice()) {
            let uri = subvec(line, i + 1, line.len() - 8);
            return Ok((m, uri));
        }
        return Err(SipError::MalformedMessage);
    }
    Err(SipError::MalformedMessage)
}

fn parse_status_line(line: &[u8]) -> (r: Result<(u16, Vec<u8>), SipError>)
    ensures
        match r {
            Ok((st, reason)) => spec_parse_status_line(line@) == Some((st, reason@)),
            Err(e) => spec_parse_status_line(line@) is None && e == SipError::MalformedMessage,
        },
{
    if line.len() < 8 || !bytes_eq(slice_range(line, 0, 8), version_sp_bytes().as_slice()) {
        return Err(SipError::MalformedMessage);
    }
    let rest = slice_range(line, 8, line.len());
    proof {
        lemma_find_byte_char(rest@, 32);
    }
    let d = match find_byte(rest, 32) {
        None => {
            return Err(SipError::MalformedMessage);
        }
        Some(d) => d,
    };
    if d < 1 {
        return Err(SipError::MalformedMessage);
    }
    let field = slice_range(rest, 0, d);
    let value = match parse_dec(field) {
        None => {
            return Err(SipError::MalformedMessage);
        }
        Some(v) => v,
    };
    if !(field[0] != 48 || d == 1) {
        return Err(SipError::MalformedMessage);
    }
    if value > u16::MAX as u32 {
        return Err(SipError::MalformedMessage);
    }
    let reason = subvec(rest, d + 1, rest.len());
    Ok((value as u16, reason))
}

/// Parses a message head: the start line and header block of a message,
/// up to and including the CRLF that ends the last header line.
///
/// Success is canonically sound: the head of the returned message
/// re-serializes to exactly the input bytes, and the body is empty.
pub fn parse_head(b: &[u8]) -> (r: Result<SipMessage, SipError>)
    ensures
        match r {
            Ok(m) => spec_parse_head(b@) == Some(m@) && head_bytes(m@) == b@ && body_of(m@)
                == Seq::<u8>::empty(),
            Err(e) => spec_parse_head(b@) is None && e == SipError::MalformedMessage,
        },
{
    let n = b.len();
    proof {
        lemma_find_crlf_char(b@);
    }
    let k = match find_crlf_from(b, 0) {
        None => {
            return Err(SipError::MalformedMessage);
        }
        Some(k) => k,
    };
    assert(k + 2 <= n);
    let line = slice_range(b, 0, k);
    let rest = slice_range(b, k + 2, n);
    let headers = match parse_headers(rest) {
        Err(e) => {
            return Err(e);
        }
        Ok(hs) => hs,
    };
    let is_response = line.len() >= 8 && bytes_eq(
        slice_range(line, 0, 8),
        version_sp_bytes().as_slice(),
    );
    if is_response {
        let (status, reason) = match parse_status_line(line) {
            Err(e) => {
                return Err(e);
            }
            Ok(p) => p,
        };
        let m = SipMessage::Response(
            Response { status, reason, headers, body: Vec::new() },
        );
        proof {
            lemma_parse_head_sound(b@);
        }
        Ok(m)
    } else {
        let (method, uri) = match parse_request_line(line) {
            Err(e) => {
                return Err(e);
            }
            Ok(p) => p,
        };
        let m = SipMessage::Request(
            Request { method, uri, headers, body: Vec::new() },
        );
        proof {
            lemma_parse_head_sound(b@);
        }
        Ok(m)
    }
}

} // verus!
