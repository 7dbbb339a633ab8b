//! The REGISTER request and the registration handshake: send, answer a
//! digest challenge once with CSeq 2, and settle on registered or
//! failed.

use vstd::prelude::*;
use crate::ascii::{ascii_bytes, str_bytes, subvec};
use crate::config::{server_user_uri_of, via_value_of, Config, ConfigView};
use crate::digest::{
    add_auth_header, auth_header_for, digest_uri, digest_uri_of, spec_auth_param, ConfigAuth,
    get_auth_param,
};
use crate::errors::SipError;
use crate::message::{
    cseq_value_of, find_hdr, find_header, headers_of, hdr, with_headers, Header, HeaderView,
    Method, Request, Response, SipMessage, SipMessageView,
};
use crate::session::{addr_value_of, addr_value_untagged, make_addr_value,
    make_addr_value_untagged};

verus! {

/// The headers of the REGISTER this library sends, in order.
pub open spec fn register_headers_of(c: ConfigView, call_id: Seq<u8>, branch: Seq<u8>, cseq: u32) -> Seq<HeaderView> {
    seq![
        HeaderView { name: ascii_bytes("Via"@), value: via_value_of(c, branch) },
        HeaderView { name: ascii_bytes("Max-Forwards"@), value: ascii_bytes("70"@) },
        HeaderView {
            name: ascii_bytes("Contact"@),
            value: addr_value_untagged(crate::config::own_uri_of(c)),
        },
        HeaderView {
            name: ascii_bytes("To"@),
            value: addr_value_untagged(server_user_uri_of(c, c.username)),
        },
        HeaderView {
            name: ascii_bytes("From"@),
            value: addr_value_of(server_user_uri_of(c, c.username), ascii_bytes(
                "a73kszlflasda"@,
            )),
        },
        HeaderView { name: ascii_bytes("Call-ID"@), value: call_id },
        HeaderView { name: ascii_bytes("CSeq"@), value: cseq_value_of(cseq, Method::Register) },
        HeaderView {
            name: ascii_bytes("Allow"@),
            value: ascii_bytes("INVITE, ACK, BYE, CANCEL, OPTIONS"@),
        },
        HeaderView { name: ascii_bytes("User-Agent"@), value: ascii_bytes("sip-rs"@) },
        HeaderView { name: ascii_bytes("Content-Length"@), value: ascii_bytes("0"@) },
    ]
}

/// The REGISTER request itself.
pub open spec fn register_request_of(c: ConfigView, call_id: Seq<u8>, branch: Seq<u8>, cseq: u32) -> SipMessageView {
    SipMessageView::Request(
        crate::message::RequestView {
            method: Method::Register,
            uri: digest_uri_of(c.server_host),
            headers: register_headers_of(c, call_id, branch, cseq),
            body: Seq::empty(),
        },
    )
}

/// Builds a REGISTER request for this configuration under the given
/// Call-ID, Via branch and sequence number.
pub fn generate_register_request(config: &Config, call_id: &[u8], branch: &[u8], cseq: u32) -> (r:
    SipMessage)
    ensures
        r@ == register_request_of(config@, call_id@, branch@, cseq),
{
    proof {
        reveal_strlit("Max-Forwards");
        reveal_strlit("70");
        reveal_strlit("To");
        reveal_strlit("From");
        reveal_strlit("a73kszlflasda");
        reveal_strlit("Call-ID");
        reveal_strlit("CSeq");
        reveal_strlit("Allow");
        reveal_strlit("INVITE, ACK, BYE, CANCEL, OPTIONS");
        reveal_strlit("User-Agent");
        reveal_strlit("sip-rs");
        reveal_strlit("Content-Length");
        reveal_strlit("0");
        reveal_strlit("Contact");
    }
    let mut headers: Vec<Header> = Vec::new();
    headers.push(config.get_own_via(branch));
    headers.push(hdr("Max-Forwards", str_bytes("70")));
    let own = config.get_own_uri();
    headers.push(hdr("Contact", make_addr_value_untagged(own.as_slice())));
    let server_user = make_server_user_uri(config);
    headers.push(hdr("To", make_addr_value_untagged(server_user.as_slice())));
    let tag = str_bytes("a73kszlflasda");
    headers.push(hdr("From", make_addr_value(server_user.as_slice(), tag.as_slice())));
    headers.push(hdr("Call-ID", subvec(call_id, 0, call_id.len())));
    headers.push(hdr("CSeq", crate::message::make_cseq_value(cseq, Method::Register)));
    headers.push(crate::message::get_allow_header());
    headers.push(hdr("User-Agent", str_bytes("sip-rs")));
    headers.push(hdr("Content-Length", str_bytes("0")));
    let r = SipMessage::Request(
        Request {
            method: Method::Register,
            uri: digest_uri(config.server_host.as_slice()),
            headers,
            body: Vec::new(),
        },
    );
    assert(r@ =~~= register_request_of(config@, call_id@, branch@, cseq));
    r
}

/// Builds `sip:<username>@<server_host>:<server_port>`.
pub fn make_server_user_uri(config: &Config) -> (r: Vec<u8>)
    ensures
        r@ == server_user_uri_of(config@, config@.username),
{
    proof {
        reveal_strlit("sip:");
    }
    let mut out = str_bytes("sip:");
    out.extend_from_slice(config.username.as_slice());
    out.push(64);
    crate::config::push_host_port(&mut out, config.server_host.as_slice(), config.server_port);
    assert(out@ =~= server_user_uri_of(config@, config@.username));
    out
}

/// The REGISTER this library builds always carries a readable `CSeq`.
pub proof fn lemma_register_request_has_cseq(c: ConfigView, call_id: Seq<u8>, branch: Seq<u8>, cseq: u32)
    ensures
        crate::message::spec_cseq(register_request_of(c, call_id, branch, cseq)) == Some(
            (cseq as int, Method::Register),
        ),
{
    reveal_strlit("Via");
    reveal_strlit("Max-Forwards");
    reveal_strlit("Contact");
    reveal_strlit("To");
    reveal_strlit("From");
    reveal_strlit("Call-ID");
    reveal_strlit("CSeq");
    reveal_strlit("REGISTER");
    let hs = register_headers_of(c, call_id, branch, cseq);
    let csn = crate::message::cseq_name();
    assert(crate::ascii::lower_seq(ascii_bytes("Via"@)).len() == 3);
    assert(crate::ascii::lower_seq(ascii_bytes("Max-Forwards"@)).len() == 12);
    assert(crate::ascii::lower_seq(ascii_bytes("Contact"@)).len() == 7);
    assert(crate::ascii::lower_seq(ascii_bytes("To"@)).len() == 2);
    assert(crate::ascii::lower_seq(ascii_bytes("From"@)).len() == 4);
    assert(crate::ascii::lower_seq(ascii_bytes("Call-ID"@)).len() == 7);
    assert(crate::ascii::lower_seq(csn).len() == 4);
    assert(crate::ascii::lower_seq(ascii_bytes("From"@))[0] == 102);
    assert(crate::ascii::lower_seq(csn)[0] == 99);
    assert(crate::ascii::lower_seq(ascii_bytes("From"@)) != crate::ascii::lower_seq(csn));
    crate::message::lemma_find_hdr_at(hs, csn, 6);
    let v = cseq_value_of(cseq, Method::Register);
    crate::ascii::lemma_dec_digits_value(cseq as nat);
    let digits = crate::ascii::dec_digits(cseq as nat);
    let ln = digits.len() as int;
    assert(v[ln] == 32);
    crate::message::lemma_find_byte_char(v, 32);
    match crate::message::spec_find_byte(v, 32) {
        None => {
            assert(false);
        }
        Some(i) => {
            assert forall|j: int| 0 <= j < ln implies v[j] != 32 by {
                assert(v[j] == digits[j]);
                assert(crate::ascii::is_digit(digits[j]));
            }
            assert(i == ln);
            assert(v.subrange(0, ln) =~= digits);
            assert(v.skip(ln + 1) =~= crate::message::method_name(Method::Register));
            reveal_strlit("INVITE");
            reveal_strlit("ACK");
            reveal_strlit("BYE");
            reveal_strlit("CANCEL");
            reveal_strlit("OPTIONS");
            assert(crate::message::method_of(crate::message::method_name(Method::Register))
                == Some(Method::Register));
            assert(crate::message::spec_parse_cseq_value(v) == Some(
                (cseq as int, Method::Register),
            ));
        },
    }
}

/// Where the registration handshake stands.
#[derive(Clone, Copy, Debug, PartialEq, Eq, Structural)]
pub enum RegisterState {
    /// The first REGISTER (CSeq 1) is out.
    AwaitingFirst,
    /// The authorized REGISTER (CSeq 2) is out.
    AwaitingAuthed,
    /// The server accepted the registration.
    Registered,
    /// The server turned the registration down with this status.
    Failed(u16),
}

/// The registration handshake of one connection.
pub struct RegisterFlow {
    pub state: RegisterState,
    pub call_id: Vec<u8>,
    pub branch: Vec<u8>,
}

impl RegisterFlow {
    /// Starts the handshake: the flow and the first REGISTER (CSeq 1).
    pub fn start(config: &Config, call_id: Vec<u8>, branch: Vec<u8>) -> (r: (
        RegisterFlow,
        SipMessage,
    ))
        ensures
            r.0.state == RegisterState::AwaitingFirst,
            r.0.call_id@ == call_id@,
            r.0.branch@ == branch@,
            r.1@ == register_request_of(config@, call_id@, branch@, 1),
    {
        let message = generate_register_request(config, call_id.as_slice(), branch.as_slice(), 1);
        (RegisterFlow { state: RegisterState::AwaitingFirst, call_id, branch }, message)
    }

    /// Feeds one response into the handshake.
    ///
    /// Waiting for the first answer: 200 registers; 401 with a readable
    /// challenge answers it once, with CSeq stepped to 2; anything else
    /// fails with that status. Waiting for the authorized answer: 200
    /// registers, anything else fails. A settled flow takes nothing
    /// more.
    pub fn on_response(&mut self, response: &Response, config: &Config) -> (r: Result<
        Option<SipMessage>,
        SipError,
    >)
        ensures
            old(self).state == RegisterState::AwaitingFirst && response.status == 200 ==> {
                &&& final(self).state == RegisterState::Registered
                &&& r == Ok::<Option<SipMessage>, SipError>(None)
            },
            old(self).state == RegisterState::AwaitingFirst && response.status == 401 ==> ({
                let www = find_hdr(response@.headers, ascii_bytes("WWW-Authenticate"@));
                if www is Some && spec_auth_param(www.unwrap(), ascii_bytes("realm=\""@))
                    is Some && spec_auth_param(www.unwrap(), ascii_bytes("nonce=\""@)) is Some {
                    &&& final(self).state == RegisterState::AwaitingAuthed
                    &&& (r matches Ok(Some(m)) && m@ == with_headers(
                        register_request_of(config@, old(self).call_id@, old(self).branch@, 2),
                        headers_of(
                            register_request_of(
                                config@,
                                old(self).call_id@,
                                old(self).branch@,
                                2,
                            ),
                        ).push(
                            auth_header_for(
                                config@,
                                spec_auth_param(
                                    www.unwrap(),
                                    ascii_bytes("realm=\""@),
                                ).unwrap(),
                                spec_auth_param(
                                    www.unwrap(),
                                    ascii_bytes("nonce=\""@),
                                ).unwrap(),
                                Method::Register,
                            ),
                        ),
                    ))
                } else {
                    &&& final(self).state == RegisterState::Failed(401)
                    &&& r == Err::<Option<SipMessage>, SipError>(SipError::MissingHeader)
                }
            }),
            old(self).state == RegisterState::AwaitingFirst && response.status != 200
                && response.status != 401 ==> {
                &&& final(self).state == RegisterState::Failed(response.status)
                &&& r == Err::<Option<SipMessage>, SipError>(
                    SipError::RegisterFailed(response.status),
                )
            },
            old(self).state == RegisterState::AwaitingAuthed ==> (if response.status == 200 {
                final(self).state == RegisterState::Registered && r == Ok::<
                    Option<SipMessage>,
                    SipError,
                >(None)
            } else {
                final(self).state == RegisterState::Failed(response.status) && r == Err::<
                    Option<SipMessage>,
                    SipError,
                >(SipError::RegisterFailed(response.status))
            }),
            (old(self).state == RegisterState::Registered || (old(self).state matches
                RegisterState::Failed(_))) ==> *final(self) == *old(self) && r == Err::<
                Option<SipMessage>,
                SipError,
            >(SipError::AlreadyTerminated),
            final(self).call_id == old(self).call_id,
            final(self).branch == old(self).branch,
    {
        match self.state {
            RegisterState::AwaitingFirst => {
                if response.status == 200 {
                    self.state = RegisterState::Registered;
                    return Ok(None);
                }
                if response.status == 401 {
                    proof {
                        reveal_strlit("WWW-Authenticate");
                        reveal_strlit("realm=\"");
                        reveal_strlit("nonce=\"");
                    }
                    let www_name = str_bytes("WWW-Authenticate");
                    let www = match find_header(&response.headers, www_name.as_slice()) {
                        None => {
                            self.state = RegisterState::Failed(401);
                            return Err(SipError::MissingHeader);
                        }
                        Some(v) => v,
                    };
                    let realm_key = str_bytes("realm=\"");
                    let realm = match get_auth_param(www.as_slice(), realm_key.as_slice()) {
                        None => {
                            self.state = RegisterState::Failed(401);
                            return Err(SipError::MissingHeader);
                        }
                        Some(v) => v,
                    };
                    let nonce_key = str_bytes("nonce=\"");
                    let nonce = match get_auth_param(www.as_slice(), nonce_key.as_slice()) {
                        None => {
                            self.state = RegisterState::Failed(401);
                            return Err(SipError::MissingHeader);
                        }
                        Some(v) => v,
                    };
                    let retry = generate_register_request(
                        config,
                        self.call_id.as_slice(),
                        self.branch.as_slice(),
                        2,
                    );
                    let payload = ConfigAuth { config, realm, nonce };
                    proof {
                        lemma_register_request_has_cseq(config@, self.call_id@, self.branch@, 2);
                    }
                    let authed = match add_auth_header(retry, &payload) {
                        Err(e) => {
                            proof {
                                assert(false);
                            }
                            self.state = RegisterState::Failed(401);
                            return Err(e);
                        }
                        Ok(m) => m,
                    };
                    self.state = RegisterState::AwaitingAuthed;
                    return Ok(Some(authed));
                }
                self.state = RegisterState::Failed(response.status);
                Err(SipError::RegisterFailed(response.status))
            }
            RegisterState::AwaitingAuthed => {
                if response.status == 200 {
                    self.state = RegisterState::Registered;
                    return Ok(None);
                }
                self.state = RegisterState::Failed(response.status);
                Err(SipError::RegisterFailed(response.status))
            }
            RegisterState::Registered => Err(SipError::AlreadyTerminated),
            RegisterState::Failed(_) => Err(SipError::AlreadyTerminated),
        }
    }

    /// Whether the handshake ended in a registration.
    pub fn is_registered(&self) -> (r: bool)
        ensures
            r == (self.state == RegisterState::Registered),
    {
        match self.state {
            RegisterState::Registered => true,
            _ => false,
        }
    }
}

} // verus!
