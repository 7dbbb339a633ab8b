//! Wire-level tests: message framing and parsing, SDP, and the
//! registration handshake with digest authentication.

use md5::Digest;
use simple_sip_rs::config::Config;
use simple_sip_rs::errors::SipError;
use simple_sip_rs::framing::SipMessageDecoder;
use simple_sip_rs::message::{
    find_header, parse_head, Header, Method, Request, Response, SipMessage,
};
use simple_sip_rs::register::{RegisterFlow, RegisterState};
use simple_sip_rs::sdp::{generate_sdp_new, parse_sdp};

fn test_config() -> Config {
    Config {
        server_host: b"192.0.2.1".to_vec(),
        server_port: 5060,
        own_host: b"192.0.2.2".to_vec(),
        own_port: 5060,
        username: b"alice".to_vec(),
        password: b"secret".to_vec(),
        rtp_port_start: 40000,
        rtp_port_end: 40100,
    }
}

fn header(name: &str, value: &str) -> Header {
    Header { name: name.as_bytes().to_vec(), value: value.as_bytes().to_vec() }
}

fn md5_hex(data: &[u8]) -> String {
    let mut h = md5::Md5::new();
    h.update(data);
    let out = h.finalize();
    let mut s = String::new();
    for b in out.iter() {
        s.push_str(&format!("{:02x}", b));
    }
    s
}

#[test]
fn message_encode_then_parse_round_trips() {
    let req = Request {
        method: Method::Invite,
        uri: b"sip:1002@192.0.2.1:5060".to_vec(),
        headers: vec![header("Call-ID", "abc"), header("CSeq", "1 INVITE")],
        body: Vec::new(),
    };
    let msg = SipMessage::Request(req);
    let bytes = msg.encode();
    let text = String::from_utf8(bytes.clone()).unwrap();
    assert_eq!(
        text,
        "INVITE sip:1002@192.0.2.1:5060 SIP/2.0\r\nCall-ID: abc\r\nCSeq: 1 INVITE\r\n\r\n"
    );
    // the head is everything up to (not including) the blank line
    let head = &bytes[..bytes.len() - 2];
    let parsed = parse_head(head).unwrap();
    match parsed {
        SipMessage::Request(r) => {
            assert_eq!(r.method, Method::Invite);
            assert_eq!(r.uri, b"sip:1002@192.0.2.1:5060".to_vec());
            assert_eq!(r.headers.len(), 2);
            assert_eq!(r.headers[1].value, b"1 INVITE".to_vec());
        }
        _ => panic!("expected request"),
    }
}

#[test]
fn parse_head_rejects_garbage() {
    assert_eq!(parse_head(b"not sip at all\r\n").unwrap_err(), SipError::MalformedMessage);
    assert_eq!(parse_head(b"SUBSCRIBE sip:x SIP/2.0\r\n").unwrap_err(), SipError::MalformedMessage);
}

#[test]
fn parse_head_reads_status_lines() {
    let m = parse_head(b"SIP/2.0 486 Busy Here\r\nCSeq: 7 INVITE\r\n").unwrap();
    match m {
        SipMessage::Response(r) => {
            assert_eq!(r.status, 486);
            assert_eq!(r.reason, b"Busy Here".to_vec());
        }
        _ => panic!("expected response"),
    }
}

#[test]
fn keepalive_is_not_a_message() {
    let mut decoder = SipMessageDecoder::new();
    decoder.push_bytes(b"\r\n\r\n");
    assert!(decoder.decode().unwrap().is_none());
    // a keep-alive in front of a real message is discarded silently
    decoder.push_bytes(b"\r\n\r\nOPTIONS sip:alice SIP/2.0\r\nContent-Length: 0\r\n\r\n");
    let m = decoder.decode().unwrap().unwrap();
    match m {
        SipMessage::Request(r) => assert_eq!(r.method, Method::Options),
        _ => panic!("expected request"),
    }
}

#[test]
fn decoder_waits_for_split_delivery() {
    let mut decoder = SipMessageDecoder::new();
    decoder.push_bytes(b"BYE sip:alice SIP");
    assert!(decoder.decode().unwrap().is_none());
    decoder.push_bytes(b"/2.0\r\nContent-Length: 4\r\n\r\nab");
    assert!(decoder.decode().unwrap().is_none());
    decoder.push_bytes(b"cd");
    let m = decoder.decode().unwrap().unwrap();
    match m {
        SipMessage::Request(r) => {
            assert_eq!(r.method, Method::Bye);
            assert_eq!(r.body, b"abcd".to_vec());
        }
        _ => panic!("expected request"),
    }
}

#[test]
fn oversized_content_length_is_rejected() {
    let mut decoder = SipMessageDecoder::new();
    decoder.push_bytes(b"INVITE sip:alice SIP/2.0\r\nContent-Length: 50001\r\n\r\n");
    assert_eq!(decoder.decode().unwrap_err(), SipError::BodyTooLarge);
    // the stream stays usable afterwards
    decoder.push_bytes(b"OPTIONS sip:alice SIP/2.0\r\nContent-Length: 0\r\n\r\n");
    assert!(decoder.decode().unwrap().is_some());
}

#[test]
fn content_length_at_cap_is_accepted() {
    let mut decoder = SipMessageDecoder::new();
    decoder.push_bytes(b"INVITE sip:alice SIP/2.0\r\nContent-Length: 50000\r\n\r\n");
    assert!(decoder.decode().unwrap().is_none());
    decoder.push_bytes(&vec![b'x'; 50000]);
    let m = decoder.decode().unwrap().unwrap();
    assert_eq!(m.body().len(), 50000);
}

#[test]
fn malformed_header_block_is_surfaced_and_skipped() {
    let mut decoder = SipMessageDecoder::new();
    decoder.push_bytes(b"garbage\r\n\r\n");
    assert_eq!(decoder.decode().unwrap_err(), SipError::MalformedMessage);
    decoder.push_bytes(b"OPTIONS sip:alice SIP/2.0\r\nContent-Length: 0\r\n\r\n");
    assert!(decoder.decode().unwrap().is_some());
}

#[test]
fn generated_sdp_serializes_and_parses_back() {
    let config = test_config();
    let sdp = generate_sdp_new(&config, 40000);
    let text = String::from_utf8(sdp.to_bytes()).unwrap();
    assert_eq!(
        text,
        "v=0\r\no=Z 0 1234 IN IP4 192.0.2.2\r\ns=Z\r\nc=IN IP4 192.0.2.2\r\nt=0 0\r\n\
m=audio 40000 RTP/AVP 0 8 101\r\na=rtpmap:0 PCMU/8000\r\na=rtpmap:8 PCMA/8000\r\n\
a=rtpmap:101 telephone-event/8000\r\na=fmtp:101 0-15\r\na=sendrecv\r\na=rtcp-mux\r\n"
    );
    let parsed = parse_sdp(&sdp.to_bytes()).unwrap();
    assert_eq!(parsed.connection_ip, Some(b"192.0.2.2".to_vec()));
    assert_eq!(parsed.media.len(), 1);
    assert_eq!(parsed.media[0].port, 40000);
    assert_eq!(parsed.media[0].rtpmaps.len(), 3);
    assert_eq!(parsed.media[0].rtpmaps[1].codec_name, b"PCMA".to_vec());
    assert_eq!(parsed.media[0].rtpmaps[1].payload_type, 8);
}

#[test]
fn malformed_connection_line_is_invalid_sdp() {
    assert_eq!(parse_sdp(b"v=0\r\nc=IN IP6 ::1\r\n").unwrap_err(), SipError::InvalidSdp);
}

#[test]
fn sdp_reads_ptime() {
    let sdp = parse_sdp(
        b"v=0\r\nc=IN IP4 10.0.0.1\r\nm=audio 9000 RTP/AVP 8\r\na=rtpmap:8 pcma/8000\r\na=ptime:30\r\n",
    )
    .unwrap();
    assert_eq!(sdp.media[0].ptime, Some(30));
}

#[test]
fn registration_with_auth_challenge() {
    let config = test_config();
    let (mut flow, first) = RegisterFlow::start(
        &config,
        b"reg-call-1".to_vec(),
        b"z9hG4bKtest".to_vec(),
    );
    // the first REGISTER carries CSeq 1
    match &first {
        SipMessage::Request(r) => {
            assert_eq!(r.method, Method::Register);
            assert_eq!(r.uri, b"sip:192.0.2.1;transport=TCP".to_vec());
            let cseq = find_header(&r.headers, b"CSeq").unwrap();
            assert_eq!(cseq, &b"1 REGISTER".to_vec());
        }
        _ => panic!("expected request"),
    }
    // the server challenges
    let challenge = Response {
        status: 401,
        reason: b"Unauthorized".to_vec(),
        headers: vec![header(
            "WWW-Authenticate",
            "Digest algorithm=MD5, realm=\"asterisk\", nonce=\"abcdef\"",
        )],
        body: Vec::new(),
    };
    let retry = flow.on_response(&challenge, &config).unwrap().unwrap();
    assert_eq!(flow.state, RegisterState::AwaitingAuthed);
    let expected = md5_hex(
        format!(
            "{}:abcdef:{}",
            md5_hex(b"alice:asterisk:secret"),
            md5_hex(b"REGISTER:sip:192.0.2.1;transport=TCP")
        )
        .as_bytes(),
    );
    match &retry {
        SipMessage::Request(r) => {
            let cseq = find_header(&r.headers, b"CSeq").unwrap();
            assert_eq!(cseq, &b"2 REGISTER".to_vec());
            let auth = String::from_utf8(find_header(&r.headers, b"Authorization").unwrap().clone())
                .unwrap();
            assert_eq!(
                auth,
                format!(
                    "Digest username=\"alice\", realm=\"asterisk\", nonce=\"abcdef\", \
uri=\"sip:192.0.2.1;transport=TCP\", response=\"{}\", algorithm=MD5",
                    expected
                )
            );
        }
        _ => panic!("expected request"),
    }
    // the server accepts
    let ok = Response { status: 200, reason: b"OK".to_vec(), headers: vec![], body: Vec::new() };
    assert!(flow.on_response(&ok, &config).unwrap().is_none());
    assert!(flow.is_registered());
    // a settled flow takes nothing more
    assert_eq!(flow.on_response(&ok, &config).unwrap_err(), SipError::AlreadyTerminated);
}

#[test]
fn registration_without_challenge_succeeds_directly() {
    let config = test_config();
    let (mut flow, _first) =
        RegisterFlow::start(&config, b"reg-call-2".to_vec(), b"z9hG4bKtest".to_vec());
    let ok = Response { status: 200, reason: b"OK".to_vec(), headers: vec![], body: Vec::new() };
    assert!(flow.on_response(&ok, &config).unwrap().is_none());
    assert!(flow.is_registered());
}

#[test]
fn registration_failure_reports_the_status() {
    let config = test_config();
    let (mut flow, _first) =
        RegisterFlow::start(&config, b"reg-call-3".to_vec(), b"z9hG4bKtest".to_vec());
    let nope =
        Response { status: 403, reason: b"Forbidden".to_vec(), headers: vec![], body: Vec::new() };
    assert_eq!(flow.on_response(&nope, &config).unwrap_err(), SipError::RegisterFailed(403));
    assert_eq!(flow.state, RegisterState::Failed(403));
}

#[test]
fn fresh_uuids_have_the_hyphenated_shape() {
    let id = simple_sip_rs::entropy::new_uuid_bytes();
    assert_eq!(id.len(), 36);
    assert_eq!(id[8], b'-');
    assert_eq!(id[13], b'-');
    assert_eq!(id[18], b'-');
    assert_eq!(id[23], b'-');
}
