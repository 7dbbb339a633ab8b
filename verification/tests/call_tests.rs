//! Signaling tests: the port allocator, header echo, the pre-answer
//! state machines, the in-call handler, and top-level routing.

use simple_sip_rs::call_handler::{CallAction, CallControl, CallEvent, CallHandler};
use simple_sip_rs::config::Config;
use simple_sip_rs::context::SipContext;
use simple_sip_rs::errors::SipError;
use simple_sip_rs::incoming_call::{IncomingCall, IncomingCallResult};
use simple_sip_rs::message::{
    find_header, Header, Method, Request, Response, SipMessage,
};
use simple_sip_rs::options::generate_options_response;
use simple_sip_rs::outgoing_call::{OutgoingCall, PeekOutgoingCallResponse, OutgoingCallResponse};
use simple_sip_rs::sip_socket::{dispatch_message, DispatchAction, SocketData};

fn test_config() -> Config {
    Config {
        server_host: b"192.0.2.1".to_vec(),
        server_port: 5060,
        own_host: b"192.0.2.2".to_vec(),
        own_port: 5060,
        username: b"alice".to_vec(),
        password: b"secret".to_vec(),
        rtp_port_start: 40000,
        rtp_port_end: 40006,
    }
}

fn header(name: &str, value: &str) -> Header {
    Header { name: name.as_bytes().to_vec(), value: value.as_bytes().to_vec() }
}

fn invite_request() -> Request {
    Request {
        method: Method::Invite,
        uri: b"sip:alice@192.0.2.2:5060".to_vec(),
        headers: vec![
            header("Via", "SIP/2.0/TCP 192.0.2.7:5060;branch=z9hG4bKpeer"),
            header("Max-Forwards", "70"),
            header("From", "<sip:bob@192.0.2.7:5060>;tag=peertag"),
            header("To", "<sip:alice@192.0.2.2:5060>"),
            header("Call-ID", "call-1"),
            header("CSeq", "314159 INVITE"),
            header("Content-Type", "application/sdp"),
        ],
        body: b"v=0\r\nc=IN IP4 192.0.2.7\r\nm=audio 40000 RTP/AVP 0\r\na=rtpmap:0 PCMU/8000\r\n"
            .to_vec(),
    }
}

#[test]
fn port_allocator_steps_even_ports_and_wraps() {
    let config = test_config();
    let mut context = SipContext::from_config(config).unwrap();
    let mut seen = Vec::new();
    for _ in 0..4 {
        let p = context.get_next_udp_port();
        assert!(p % 2 == 0);
        assert!((40000..=40006).contains(&p));
        assert!(!seen.contains(&p), "port {} repeated before wrap", p);
        seen.push(p);
    }
    // the range is exhausted; the allocator wraps to the start
    assert_eq!(context.get_next_udp_port(), 40000);
}

#[test]
fn empty_port_range_is_refused() {
    let mut config = test_config();
    config.rtp_port_start = 41000;
    config.rtp_port_end = 40000;
    match SipContext::from_config(config) {
        Err(e) => assert_eq!(e, SipError::InvalidPortRange),
        Ok(_) => panic!("empty range accepted"),
    }
}

#[test]
fn cseq_values_increase_strictly() {
    let config = test_config();
    let mut context = SipContext::from_config(config).unwrap();
    let request = invite_request();
    let mut session =
        simple_sip_rs::session::SessionParameters::from_request(&mut context, &request).unwrap();
    assert_eq!(session.cseq, 314159);
    let a = session.get_next_cseq();
    let b = session.get_next_cseq();
    let c = session.get_next_cseq();
    assert_eq!(a, 314160);
    assert!(a < b && b < c);
}

#[test]
fn replies_echo_via_and_cseq_of_the_request() {
    let config = test_config();
    let mut context = SipContext::from_config(config).unwrap();
    let request = invite_request();
    let session =
        simple_sip_rs::session::SessionParameters::from_request(&mut context, &request).unwrap();
    assert_eq!(session.remote.uri, b"sip:bob@192.0.2.7:5060".to_vec());
    assert_eq!(session.remote.tag, b"peertag".to_vec());
    let headers = session.get_headers_response(&request).unwrap();
    assert_eq!(
        find_header(&headers, b"Via").unwrap(),
        &b"SIP/2.0/TCP 192.0.2.7:5060;branch=z9hG4bKpeer".to_vec()
    );
    assert_eq!(find_header(&headers, b"CSeq").unwrap(), &b"314159 INVITE".to_vec());
    assert_eq!(find_header(&headers, b"Call-ID").unwrap(), &b"call-1".to_vec());
    assert_eq!(
        find_header(&headers, b"From").unwrap(),
        &b"<sip:bob@192.0.2.7:5060>;tag=peertag".to_vec()
    );
    // To carries the local side with its fresh tag appended
    let to = find_header(&headers, b"To").unwrap();
    let to_text = String::from_utf8(to.clone()).unwrap();
    assert!(to_text.starts_with("<sip:alice@192.0.2.2:5060>;tag=tt"));
}

#[test]
fn options_reply_echoes_the_request() {
    let config = test_config();
    let request = Request {
        method: Method::Options,
        uri: b"sip:alice@192.0.2.2".to_vec(),
        headers: vec![
            header("Via", "SIP/2.0/TCP 192.0.2.1:5060;branch=z9hG4bKping"),
            header("From", "<sip:ping@192.0.2.1>;tag=p"),
            header("To", "<sip:alice@192.0.2.2>"),
            header("Call-ID", "ping-1"),
            header("CSeq", "1 OPTIONS"),
        ],
        body: Vec::new(),
    };
    let reply = generate_options_response(&request, &config).unwrap();
    match reply {
        SipMessage::Response(r) => {
            assert_eq!(r.status, 200);
            assert_eq!(
                find_header(&r.headers, b"Via").unwrap(),
                &b"SIP/2.0/TCP 192.0.2.1:5060;branch=z9hG4bKping".to_vec()
            );
            assert_eq!(find_header(&r.headers, b"CSeq").unwrap(), &b"1 OPTIONS".to_vec());
            assert_eq!(find_header(&r.headers, b"Call-ID").unwrap(), &b"ping-1".to_vec());
            assert_eq!(
                find_header(&r.headers, b"Accept").unwrap(),
                &b"application/sdp".to_vec()
            );
            assert_eq!(find_header(&r.headers, b"Accept-Language").unwrap(), &b"en".to_vec());
        }
        _ => panic!("expected response"),
    }
}

#[test]
fn options_without_via_cannot_be_answered() {
    let config = test_config();
    let request = Request {
        method: Method::Options,
        uri: b"sip:alice".to_vec(),
        headers: vec![header("Call-ID", "x")],
        body: Vec::new(),
    };
    assert_eq!(generate_options_response(&request, &config).unwrap_err(), SipError::MissingHeader);
}

#[test]
fn incoming_call_rings_then_accepts_with_sdp() {
    let config = test_config();
    let mut context = SipContext::from_config(config).unwrap();
    let (call, ringing) = IncomingCall::try_from_request(&mut context, invite_request()).unwrap();
    match &ringing {
        SipMessage::Response(r) => {
            assert_eq!(r.status, 180);
            assert_eq!(r.reason, b"Ringing".to_vec());
        }
        _ => panic!("expected response"),
    }
    let (reply, result) = call.accept(&Vec::new()).unwrap();
    match reply {
        SipMessage::Response(r) => {
            assert_eq!(r.status, 200);
            assert!(!r.body.is_empty());
            assert_eq!(
                find_header(&r.headers, b"Content-Type").unwrap(),
                &b"application/sdp".to_vec()
            );
            let cl = String::from_utf8(find_header(&r.headers, b"Content-Length").unwrap().clone())
                .unwrap();
            assert_eq!(cl, format!("{}", r.body.len()));
        }
        _ => panic!("expected response"),
    }
    match result {
        IncomingCallResult::Accepted(session) => {
            assert_eq!(session.call_id, b"call-1".to_vec());
            assert_eq!(session.local.port, 40000);
        }
        IncomingCallResult::Cancelled => panic!("not cancelled"),
    }
}

#[test]
fn cancel_before_accept_resolves_cancelled() {
    let config = test_config();
    let mut context = SipContext::from_config(config).unwrap();
    let (call, _ringing) = IncomingCall::try_from_request(&mut context, invite_request()).unwrap();
    let cancel = Request {
        method: Method::Cancel,
        uri: b"sip:alice@192.0.2.2:5060".to_vec(),
        headers: vec![
            header("Via", "SIP/2.0/TCP 192.0.2.7:5060;branch=z9hG4bKpeer"),
            header("Call-ID", "call-1"),
            header("CSeq", "314159 CANCEL"),
        ],
        body: Vec::new(),
    };
    let pending = vec![SipMessage::Request(cancel)];
    let (reply, result) = call.accept(&pending).unwrap();
    match reply {
        SipMessage::Response(r) => {
            assert_eq!(r.status, 200);
            // the 200 answers the CANCEL, not the INVITE
            assert_eq!(find_header(&r.headers, b"CSeq").unwrap(), &b"314159 CANCEL".to_vec());
        }
        _ => panic!("expected response"),
    }
    assert!(matches!(result, IncomingCallResult::Cancelled));
}

#[test]
fn reject_sends_busy_everywhere() {
    let config = test_config();
    let mut context = SipContext::from_config(config).unwrap();
    let (call, _ringing) = IncomingCall::try_from_request(&mut context, invite_request()).unwrap();
    let reply = call.reject(&Vec::new()).unwrap();
    match reply {
        SipMessage::Response(r) => {
            assert_eq!(r.status, 600);
            assert_eq!(r.reason, b"Busy Everywhere".to_vec());
        }
        _ => panic!("expected response"),
    }
}

#[test]
fn outgoing_call_rejected_busy() {
    let config = test_config();
    let mut context = SipContext::from_config(config).unwrap();
    let (mut call, invite) = OutgoingCall::try_from(
        &mut context,
        b"out-call-1".to_vec(),
        b"sip:1002@192.0.2.1:5060".to_vec(),
    );
    match &invite {
        SipMessage::Request(r) => {
            assert_eq!(r.method, Method::Invite);
            assert_eq!(find_header(&r.headers, b"CSeq").unwrap(), &b"1234 INVITE".to_vec());
            assert!(!r.body.is_empty());
        }
        _ => panic!("expected request"),
    }
    let trying =
        Response { status: 100, reason: b"Trying".to_vec(), headers: vec![], body: Vec::new() };
    assert!(call.handle_response(trying).unwrap().is_none());
    assert!(call.peek_result().is_none());
    let ringing =
        Response { status: 180, reason: b"Ringing".to_vec(), headers: vec![], body: Vec::new() };
    assert!(call.handle_response(ringing).unwrap().is_none());
    let busy =
        Response { status: 486, reason: b"Busy Here".to_vec(), headers: vec![], body: Vec::new() };
    assert!(call.handle_response(busy.clone()).unwrap().is_none());
    assert_eq!(call.peek_result(), Some(PeekOutgoingCallResponse::Rejected(486)));
    let (ack, resolution) = call.get_outgoing_call_response(&busy).unwrap();
    assert!(ack.is_none());
    assert!(matches!(resolution, OutgoingCallResponse::Rejected(486)));
}

#[test]
fn outgoing_call_accepted_sends_ack() {
    let config = test_config();
    let mut context = SipContext::from_config(config).unwrap();
    let (mut call, _invite) = OutgoingCall::try_from(
        &mut context,
        b"out-call-2".to_vec(),
        b"sip:1002@192.0.2.1:5060".to_vec(),
    );
    let ok = Response {
        status: 200,
        reason: b"OK".to_vec(),
        headers: vec![
            header("To", "<sip:1002@192.0.2.1:5060>;tag=srvtag"),
            header("Call-ID", "out-call-2"),
            header("CSeq", "1234 INVITE"),
        ],
        body: b"v=0\r\nc=IN IP4 192.0.2.7\r\nm=audio 41000 RTP/AVP 0\r\na=rtpmap:0 PCMU/8000\r\n"
            .to_vec(),
    };
    assert!(call.handle_response(ok.clone()).unwrap().is_none());
    assert_eq!(call.peek_result(), Some(PeekOutgoingCallResponse::Accepted));
    let (ack, resolution) = call.get_outgoing_call_response(&ok).unwrap();
    let ack = ack.unwrap();
    match &ack {
        SipMessage::Request(r) => {
            assert_eq!(r.method, Method::Ack);
            assert_eq!(find_header(&r.headers, b"CSeq").unwrap(), &b"1234 ACK".to_vec());
        }
        _ => panic!("expected request"),
    }
    match resolution {
        OutgoingCallResponse::Accepted(session) => {
            assert_eq!(session.remote.tag, b"srvtag".to_vec());
            assert_eq!(session.call_id, b"out-call-2".to_vec());
        }
        OutgoingCallResponse::Rejected(_) => panic!("not rejected"),
    }
}

#[test]
fn outgoing_cancel_reuses_branch_and_cseq() {
    let config = test_config();
    let mut context = SipContext::from_config(config).unwrap();
    let (call, invite) = OutgoingCall::try_from(
        &mut context,
        b"out-call-3".to_vec(),
        b"sip:1002@192.0.2.1:5060".to_vec(),
    );
    let cancel = call.generate_cancel();
    match (&invite, &cancel) {
        (SipMessage::Request(inv), SipMessage::Request(can)) => {
            assert_eq!(can.method, Method::Cancel);
            assert_eq!(
                find_header(&inv.headers, b"Via").unwrap(),
                find_header(&can.headers, b"Via").unwrap()
            );
            assert_eq!(find_header(&can.headers, b"CSeq").unwrap(), &b"1234 CANCEL".to_vec());
        }
        _ => panic!("expected requests"),
    }
}

fn established_handler() -> CallHandler {
    let config = test_config();
    let mut context = SipContext::from_config(config).unwrap();
    let request = invite_request();
    let session =
        simple_sip_rs::session::SessionParameters::from_request(&mut context, &request).unwrap();
    CallHandler::new(session)
}

fn count_finished(actions: &[CallAction]) -> usize {
    actions
        .iter()
        .filter(|a| matches!(a, CallAction::Notify(CallControl::Finished)))
        .count()
}

#[test]
fn graceful_hangup_sends_bye_and_finishes_once() {
    let mut handler = established_handler();
    let events = vec![CallEvent::Control(CallControl::Hangup)];
    let actions = handler.process_events(events, b"z9hG4bKbye");
    assert!(!handler.is_running());
    // the BYE goes out with the CSeq stepped once past the INVITE's
    match &actions[0] {
        CallAction::Send(SipMessage::Request(r)) => {
            assert_eq!(r.method, Method::Bye);
            assert_eq!(find_header(&r.headers, b"CSeq").unwrap(), &b"314160 BYE".to_vec());
        }
        _ => panic!("expected BYE first"),
    }
    assert!(matches!(actions[1], CallAction::Notify(CallControl::Hangup)));
    assert_eq!(count_finished(&actions), 1);
}

#[test]
fn remote_bye_is_answered_and_finishes_once() {
    let mut handler = established_handler();
    let bye = Request {
        method: Method::Bye,
        uri: b"sip:alice@192.0.2.2:5060".to_vec(),
        headers: vec![
            header("Via", "SIP/2.0/TCP 192.0.2.7:5060;branch=z9hG4bKbye2"),
            header("Call-ID", "call-1"),
            header("CSeq", "314160 BYE"),
        ],
        body: Vec::new(),
    };
    let events = vec![
        CallEvent::Control(CallControl::AudioOutEmpty),
        CallEvent::Message(SipMessage::Request(bye)),
        // anything after the BYE is left unread
        CallEvent::Control(CallControl::Hangup),
    ];
    let actions = handler.process_events(events, b"z9hG4bKx");
    assert!(!handler.is_running());
    match &actions[0] {
        CallAction::Send(SipMessage::Response(r)) => {
            assert_eq!(r.status, 200);
            assert_eq!(find_header(&r.headers, b"CSeq").unwrap(), &b"314160 BYE".to_vec());
        }
        _ => panic!("expected 200 to the BYE"),
    }
    assert_eq!(count_finished(&actions), 1);
}

#[test]
fn no_bye_no_finished() {
    let mut handler = established_handler();
    let events = vec![CallEvent::Control(CallControl::AudioOutEmpty)];
    let actions = handler.process_events(events, b"z9hG4bKy");
    assert!(handler.is_running());
    assert_eq!(count_finished(&actions), 0);
}

#[test]
fn routing_prefers_live_dialogs() {
    let config = test_config();
    let mut data = SocketData::new();
    data.create_call_channel(b"call-1".to_vec()).unwrap();
    // a second channel under the same Call-ID is refused
    assert_eq!(
        data.create_call_channel(b"call-1".to_vec()).unwrap_err(),
        SipError::DuplicateCallId
    );
    let invite = SipMessage::Request(invite_request());
    assert!(matches!(dispatch_message(&data, &config, &invite).unwrap(), DispatchAction::ToCall));
    // once the dialog is gone, the INVITE opens a new incoming call
    data.remove_call_id(b"call-1");
    assert!(matches!(
        dispatch_message(&data, &config, &invite).unwrap(),
        DispatchAction::NewIncomingCall
    ));
    // a stray response is ignored
    let stray = SipMessage::Response(Response {
        status: 200,
        reason: b"OK".to_vec(),
        headers: vec![header("Call-ID", "gone")],
        body: Vec::new(),
    });
    assert!(matches!(dispatch_message(&data, &config, &stray).unwrap(), DispatchAction::Ignore));
    // an OPTIONS ping at top level is answered
    let ping = SipMessage::Request(Request {
        method: Method::Options,
        uri: b"sip:alice".to_vec(),
        headers: vec![
            header("Via", "SIP/2.0/TCP 192.0.2.1:5060;branch=z9hG4bKping"),
            header("From", "<sip:ping@192.0.2.1>;tag=p"),
            header("To", "<sip:alice@192.0.2.2>"),
            header("Call-ID", "ping-2"),
            header("CSeq", "2 OPTIONS"),
        ],
        body: Vec::new(),
    });
    match dispatch_message(&data, &config, &ping).unwrap() {
        DispatchAction::ReplyOptions(reply) => match reply {
            SipMessage::Response(r) => assert_eq!(r.status, 200),
            _ => panic!("expected response"),
        },
        _ => panic!("expected options reply"),
    }
}
