//! Media-plane tests: G.711 companding against the classic reference
//! formulas, DTMF edge detection, RTP packet bytes, and the engine's
//! paced send tick.

use simple_sip_rs::codecs::Codec;
use simple_sip_rs::media::Media;
use simple_sip_rs::pcma;
use simple_sip_rs::pcmu;
use simple_sip_rs::rtp::{unmarshal, RtpPacket};
use simple_sip_rs::rtp_engine::RtpEngine;
use simple_sip_rs::sdp::parse_sdp;
use simple_sip_rs::telephone_events::{TelephoneEvent, TelephoneEventsCodec};

/// The classic shift-based µ-law encoder, kept as an independent
/// reference for the library's arithmetic formulation.
fn mulaw_encode_reference(x: i16) -> u8 {
    let mut absno = if x < 0 { ((!x) >> 2) + 33 } else { (x >> 2) + 33 };
    if absno > 0x1FFF {
        absno = 0x1FFF;
    }
    let mut i = absno >> 6;
    let mut segno = 1;
    while i != 0 {
        segno += 1;
        i >>= 1;
    }
    let high_nibble = 0x8 - segno;
    let low_nibble = 0xF - ((absno >> segno) & 0xF);
    let mut ret = (high_nibble << 4) | low_nibble;
    if x >= 0 {
        ret |= 0x0080;
    }
    ret as u8
}

fn mulaw_decode_reference(y: u8) -> i16 {
    let y = y as i16;
    let sign: i16 = if y < 0x0080 { -1 } else { 1 };
    let mantissa = !y;
    let exponent = (mantissa >> 4) & 0x7;
    let segment = exponent + 1;
    let mantissa = mantissa & 0xF;
    let step = 4 << segment;
    sign * ((0x0080 << exponent) + step * mantissa + step / 2 - 4 * 33)
}

fn alaw_encode_reference(x: i16) -> u8 {
    let mut ix = if x < 0 { (!x) >> 4 } else { x >> 4 };
    if ix > 15 {
        let mut iexp = 1;
        while ix > 16 + 15 {
            ix >>= 1;
            iexp += 1;
        }
        ix -= 16;
        ix += iexp << 4;
    }
    if x >= 0 {
        ix |= 0x0080;
    }
    ((ix ^ 0x55) & 0xFF) as u8
}

fn alaw_decode_reference(y: u8) -> i16 {
    let mut ix = y ^ 0x55;
    ix &= 0x7F;
    let iexp = ix >> 4;
    let mut mant = (ix & 0xF) as i16;
    if iexp > 0 {
        mant += 16;
    }
    mant = (mant << 4) + 0x8;
    if iexp > 1 {
        mant <<= iexp - 1;
    }
    if y > 127 {
        mant
    } else {
        -mant
    }
}

#[test]
fn pcmu_encode_matches_reference_on_all_samples() {
    let mut x: i32 = i16::MIN as i32;
    while x <= i16::MAX as i32 {
        assert_eq!(pcmu::encode(x as i16), mulaw_encode_reference(x as i16), "sample {}", x);
        x += 1;
    }
}

#[test]
fn pcmu_decode_matches_reference_on_all_codes() {
    for y in 0..=255u8 {
        assert_eq!(pcmu::decode(y) as i32, mulaw_decode_reference(y) as i32, "code {}", y);
    }
}

#[test]
fn pcma_encode_matches_reference_on_all_samples() {
    let mut x: i32 = i16::MIN as i32;
    while x <= i16::MAX as i32 {
        assert_eq!(pcma::encode(x as i16), alaw_encode_reference(x as i16), "sample {}", x);
        x += 1;
    }
}

#[test]
fn pcma_decode_matches_reference_on_all_codes() {
    for y in 0..=255u8 {
        assert_eq!(pcma::decode(y) as i32, alaw_decode_reference(y) as i32, "code {}", y);
    }
}

#[test]
fn pcmu_round_trip_is_stable_outside_negative_zero() {
    let mut x: i32 = i16::MIN as i32;
    while x <= i16::MAX as i32 {
        let first = pcmu::encode(x as i16);
        let again = pcmu::encode(pcmu::decode(first));
        if x >= 0 || x < -4 {
            assert_eq!(first, again, "sample {}", x);
        } else {
            // the negative zero re-encodes as the positive zero
            assert_eq!(first, 0x7F, "sample {}", x);
            assert_eq!(again, 0xFF, "sample {}", x);
        }
        x += 1;
    }
}

#[test]
fn pcma_round_trip_is_stable_everywhere() {
    let mut x: i32 = i16::MIN as i32;
    while x <= i16::MAX as i32 {
        let first = pcma::encode(x as i16);
        let again = pcma::encode(pcma::decode(first));
        assert_eq!(first, again, "sample {}", x);
        x += 1;
    }
}

#[test]
fn dtmf_edges_are_reported_once() {
    let mut codec = TelephoneEventsCodec::new(101);
    // key five pressed
    let down = codec.decode_payload(&[0x05, 0x00, 0x00, 0xA0]).unwrap();
    match down {
        Some(Media::TelephoneEvent(ev, up)) => {
            assert_eq!(ev, TelephoneEvent::Five);
            assert!(!up);
        }
        other => panic!("unexpected {:?}", other),
    }
    // repeated press while held: nothing
    let repeat = codec.decode_payload(&[0x05, 0x00, 0x00, 0xF0]).unwrap();
    assert!(repeat.is_none());
    // key five released
    let up = codec.decode_payload(&[0x05, 0x80, 0x01, 0x40]).unwrap();
    match up {
        Some(Media::TelephoneEvent(ev, up)) => {
            assert_eq!(ev, TelephoneEvent::Five);
            assert!(up);
        }
        other => panic!("unexpected {:?}", other),
    }
}

#[test]
fn dtmf_short_payload_is_malformed() {
    let mut codec = TelephoneEventsCodec::new(101);
    assert!(codec.decode_payload(&[0x05]).is_err());
    assert!(codec.decode_payload(&[0x20, 0x00]).is_err());
}

#[test]
fn telephone_event_codes_round_trip() {
    for b in 0u8..16 {
        let ev = TelephoneEvent::try_from_byte(&b).unwrap();
        assert_eq!(ev.code(), b);
    }
    assert!(TelephoneEvent::try_from_byte(&16).is_err());
}

#[test]
fn rtp_marshal_layout_and_round_trip() {
    let p = RtpPacket {
        marker: false,
        payload_type: 0,
        sequence_number: 0x1234,
        timestamp: 0xA1B2C3D4,
        ssrc: 0x00FF00FF,
        payload: vec![1, 2, 3],
    };
    let b = p.marshal();
    assert_eq!(
        b,
        vec![0x80, 0x00, 0x12, 0x34, 0xA1, 0xB2, 0xC3, 0xD4, 0x00, 0xFF, 0x00, 0xFF, 1, 2, 3]
    );
    let q = unmarshal(&b).unwrap();
    assert_eq!(q.payload_type, 0);
    assert_eq!(q.sequence_number, 0x1234);
    assert_eq!(q.timestamp, 0xA1B2C3D4);
    assert_eq!(q.ssrc, 0x00FF00FF);
    assert_eq!(q.payload, vec![1, 2, 3]);
}

#[test]
fn rtp_rejects_short_or_foreign_packets() {
    assert!(unmarshal(&[0x80, 0x00, 0x01]).is_err());
    // version 1 packet
    assert!(unmarshal(&[0x40, 0, 0, 0, 0, 0, 0, 0, 0, 0, 0, 0]).is_err());
}

fn remote_sdp_pcmu() -> simple_sip_rs::sdp::SdpSession {
    let text = b"v=0\r\n\
o=- 1 1 IN IP4 192.0.2.7\r\n\
s=call\r\n\
c=IN IP4 192.0.2.7\r\n\
t=0 0\r\n\
m=audio 40000 RTP/AVP 0 101\r\n\
a=rtpmap:0 PCMU/8000\r\n\
a=rtpmap:101 telephone-event/8000\r\n";
    parse_sdp(text).unwrap()
}

#[test]
fn engine_negotiates_pcmu_and_dtmf() {
    let sdp = remote_sdp_pcmu();
    let engine = RtpEngine::new(&sdp).unwrap();
    assert_eq!(engine.remote_ip, b"192.0.2.7".to_vec());
    assert_eq!(engine.remote_port, 40000);
    assert_eq!(engine.ptime, 20);
    assert_eq!(engine.codecs.len(), 2);
    match &engine.codecs[0] {
        Codec::Pcmu(c) => {
            assert_eq!(c.payload_type, 0);
            assert_eq!(c.sample_rate, 8000);
            assert_eq!(c.ptime, 20);
        }
        other => panic!("unexpected codec {:?}", other.get_payload_type()),
    }
    match &engine.codecs[1] {
        Codec::TelephoneEvents(c) => assert_eq!(c.payload_type, 101),
        _ => panic!("expected telephone events"),
    }
}

#[test]
fn engine_tick_latches_output_empty_once() {
    let sdp = remote_sdp_pcmu();
    let mut engine = RtpEngine::new(&sdp).unwrap();
    // fresh engines start latched: an idle tick stays quiet
    let (wire, empty) = engine.on_tick();
    assert!(wire.is_empty());
    assert!(!empty);
    // queue one frame of audio; the next tick sends one packet
    engine.on_media(Media::Audio(vec![0i16; 160]));
    let (wire, empty) = engine.on_tick();
    assert_eq!(wire.len(), 1);
    assert!(!empty);
    assert_eq!(wire[0].len(), 12 + 160);
    // the buffer has drained: exactly one OutputEmpty, then quiet
    let (wire, empty) = engine.on_tick();
    assert!(wire.is_empty());
    assert!(empty);
    let (wire, empty) = engine.on_tick();
    assert!(wire.is_empty());
    assert!(!empty);
}

#[test]
fn engine_dispatches_dtmf_packet_by_payload_type() {
    let sdp = remote_sdp_pcmu();
    let mut engine = RtpEngine::new(&sdp).unwrap();
    let packet = RtpPacket {
        marker: false,
        payload_type: 101,
        sequence_number: 7,
        timestamp: 160,
        ssrc: 1,
        payload: vec![0x05, 0x00, 0x00, 0xA0],
    };
    let out = engine.on_packet(&packet.marshal()).unwrap();
    match out {
        Some(Media::TelephoneEvent(ev, up)) => {
            assert_eq!(ev, TelephoneEvent::Five);
            assert!(!up);
        }
        other => panic!("unexpected {:?}", other),
    }
    // an unknown payload type is ignored, not an error
    let stray = RtpPacket {
        marker: false,
        payload_type: 96,
        sequence_number: 8,
        timestamp: 320,
        ssrc: 1,
        payload: vec![1, 2],
    };
    assert!(engine.on_packet(&stray.marshal()).unwrap().is_none());
}

#[test]
fn engine_decodes_pcmu_audio() {
    let sdp = remote_sdp_pcmu();
    let mut engine = RtpEngine::new(&sdp).unwrap();
    let payload: Vec<u8> = (0..160).map(|i| pcmu::encode(i as i16 * 64)).collect();
    let packet = RtpPacket {
        marker: false,
        payload_type: 0,
        sequence_number: 1,
        timestamp: 0,
        ssrc: 9,
        payload,
    };
    let out = engine.on_packet(&packet.marshal()).unwrap();
    match out {
        Some(Media::Audio(samples)) => {
            assert_eq!(samples.len(), 160);
            assert_eq!(samples[0], pcmu::decode(pcmu::encode(0)));
        }
        other => panic!("unexpected {:?}", other),
    }
}

#[test]
fn engine_without_codecs_is_refused() {
    let text = b"v=0\r\nc=IN IP4 192.0.2.7\r\nm=audio 40000 RTP/AVP 96\r\na=rtpmap:96 G729/8000\r\n";
    let sdp = parse_sdp(text).unwrap();
    match RtpEngine::new(&sdp) {
        Err(e) => assert_eq!(e, simple_sip_rs::errors::SipError::NoCompatibleCodec),
        Ok(_) => panic!("engine built without codecs"),
    }
}

#[test]
fn engine_without_connection_is_invalid_sdp() {
    let text = b"v=0\r\nm=audio 40000 RTP/AVP 0\r\na=rtpmap:0 PCMU/8000\r\n";
    let sdp = parse_sdp(text).unwrap();
    match RtpEngine::new(&sdp) {
        Err(e) => assert_eq!(e, simple_sip_rs::errors::SipError::InvalidSdp),
        Ok(_) => panic!("engine built without an endpoint"),
    }
}

#[test]
fn codec_buffer_drops_audio_over_soft_cap() {
    let sdp = remote_sdp_pcmu();
    let mut engine = RtpEngine::new(&sdp).unwrap();
    // first append passes the cap; the following one is dropped
    engine.on_media(Media::Audio(vec![1i16; 6000]));
    engine.on_media(Media::Audio(vec![2i16; 6000]));
    match &engine.codecs[0] {
        Codec::Pcmu(c) => assert_eq!(c.buffer_out.len(), 6000),
        _ => panic!("expected pcmu first"),
    }
}
