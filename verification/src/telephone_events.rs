//! RFC 4733 telephone events: DTMF key presses carried inside RTP.

use vstd::prelude::*;
use crate::errors::SipError;
use crate::media::Media;

verus! {

/// A named telephone event: the DTMF keys `0`-`9`, `*`, `#`, `A`-`D`.
#[derive(Clone, Copy, Debug, PartialEq, Eq, Hash, Structural)]
pub enum TelephoneEvent {
    Zero,
    One,
    Two,
    Three,
    Four,
    Five,
    Six,
    Seven,
    Eight,
    Nine,
    Star,
    Hash,
    A,
    B,
    C,
    D,
}

/// The event named by a wire code below sixteen.
pub open spec fn event_of(b: u8) -> TelephoneEvent {
    if b == 0 {
        TelephoneEvent::Zero
    } else if b == 1 {
        TelephoneEvent::One
    } else if b == 2 {
        TelephoneEvent::Two
    } else if b == 3 {
        TelephoneEvent::Three
    } else if b == 4 {
        TelephoneEvent::Four
    } else if b == 5 {
        TelephoneEvent::Five
    } else if b == 6 {
        TelephoneEvent::Six
    } else if b == 7 {
        TelephoneEvent::Seven
    } else if b == 8 {
        TelephoneEvent::Eight
    } else if b == 9 {
        TelephoneEvent::Nine
    } else if b == 10 {
        TelephoneEvent::Star
    } else if b == 11 {
        TelephoneEvent::Hash
    } else if b == 12 {
        TelephoneEvent::A
    } else if b == 13 {
        TelephoneEvent::B
    } else if b == 14 {
        TelephoneEvent::C
    } else {
        TelephoneEvent::D
    }
}

/// The wire code of an event.
pub open spec fn code_of(e: TelephoneEvent) -> u8 {
    match e {
        TelephoneEvent::Zero => 0,
        TelephoneEvent::One => 1,
        TelephoneEvent::Two => 2,
        TelephoneEvent::Three => 3,
        TelephoneEvent::Four => 4,
        TelephoneEvent::Five => 5,
        TelephoneEvent::Six => 6,
        TelephoneEvent::Seven => 7,
        TelephoneEvent::Eight => 8,
        TelephoneEvent::Nine => 9,
        TelephoneEvent::Star => 10,
        TelephoneEvent::Hash => 11,
        TelephoneEvent::A => 12,
        TelephoneEvent::B => 13,
        TelephoneEvent::C => 14,
        TelephoneEvent::D => 15,
    }
}

impl TelephoneEvent {
    /// Reads an event from its wire code; codes above fifteen are
    /// rejected.
    pub fn try_from_byte(b: &u8) -> (r: Result<Self, SipError>)
        ensures
            r is Ok <==> *b <= 15,
            r matches Ok(e) ==> e == event_of(*b) && code_of(e) == *b,
            r matches Err(e) ==> e == SipError::MalformedMessage,
    {
        match *b {
            0 => Ok(TelephoneEvent::Zero),
            1 => Ok(TelephoneEvent::One),
            2 => Ok(TelephoneEvent::Two),
            3 => Ok(TelephoneEvent::Three),
            4 => Ok(TelephoneEvent::Four),
            5 => Ok(TelephoneEvent::Five),
            6 => Ok(TelephoneEvent::Six),
            7 => Ok(TelephoneEvent::Seven),
            8 => Ok(TelephoneEvent::Eight),
            9 => Ok(TelephoneEvent::Nine),
            10 => Ok(TelephoneEvent::Star),
            11 => Ok(TelephoneEvent::Hash),
            12 => Ok(TelephoneEvent::A),
            13 => Ok(TelephoneEvent::B),
            14 => Ok(TelephoneEvent::C),
            15 => Ok(TelephoneEvent::D),
            _ => Err(SipError::MalformedMessage),
        }
    }

    /// The wire code of this event.
    pub fn code(&self) -> (r: u8)
        ensures
            r == code_of(*self),
            r <= 15,
    {
        match self {
            TelephoneEvent::Zero => 0,
            TelephoneEvent::One => 1,
            TelephoneEvent::Two => 2,
            TelephoneEvent::Three => 3,
            TelephoneEvent::Four => 4,
            TelephoneEvent::Five => 5,
            TelephoneEvent::Six => 6,
            TelephoneEvent::Seven => 7,
            TelephoneEvent::Eight => 8,
            TelephoneEvent::Nine => 9,
            TelephoneEvent::Star => 10,
            TelephoneEvent::Hash => 11,
            TelephoneEvent::A => 12,
            TelephoneEvent::B => 13,
            TelephoneEvent::C => 14,
            TelephoneEvent::D => 15,
        }
    }
}

/// Receives telephone-event RTP payloads and reports each key edge
/// exactly once: a press while the key is already down is suppressed.
pub struct TelephoneEventsCodec {
    pub payload_type: u8,
    pub pressed_keys: [bool; 16],
}

/// Ghost image of the codec state.
#[verifier::ext_equal]
pub struct TelephoneEventsCodecView {
    pub payload_type: u8,
    pub pressed: Seq<bool>,
}

impl View for TelephoneEventsCodec {
    type V = TelephoneEventsCodecView;

    open spec fn view(&self) -> TelephoneEventsCodecView {
        TelephoneEventsCodecView { payload_type: self.payload_type, pressed: self.pressed_keys@ }
    }
}

/// Whether a telephone-event payload is well-formed: at least two
/// bytes, the first naming an event.
pub open spec fn te_decode_ok(payload: Seq<u8>) -> bool {
    payload.len() >= 2 && payload[0] <= 15
}

/// What decoding a well-formed payload reports: the key edge, or
/// nothing for a repeated press.
pub open spec fn te_decode_output(v: TelephoneEventsCodecView, payload: Seq<u8>) -> Option<
    crate::media::MediaView,
> {
    let code = payload[0];
    let end = payload[1] >= 128;
    if !end && v.pressed[code as int] {
        None
    } else {
        Some(crate::media::MediaView::TelephoneEvent(event_of(code), end))
    }
}

/// The codec state after decoding a payload.
pub open spec fn te_decode_step(v: TelephoneEventsCodecView, payload: Seq<u8>) -> TelephoneEventsCodecView {
    if !te_decode_ok(payload) {
        v
    } else {
        let code = payload[0];
        let end = payload[1] >= 128;
        if !end && v.pressed[code as int] {
            v
        } else {
            TelephoneEventsCodecView {
                payload_type: v.payload_type,
                pressed: v.pressed.update(code as int, !end),
            }
        }
    }
}

impl TelephoneEventsCodec {
    /// Which keys are currently held down.
    pub open spec fn pressed(&self) -> Seq<bool> {
        self.pressed_keys@
    }

    /// A codec with no key down.
    pub fn new(payload_type: u8) -> (r: Self)
        ensures
            r.payload_type == payload_type,
            r.pressed() =~= Seq::new(16, |i: int| false),
    {
        TelephoneEventsCodec { payload_type, pressed_keys: [false; 16] }
    }

    /// Whether this codec could carry the media value.
    pub fn can_handle_media(&self, media: &Media) -> (r: bool)
        ensures
            r == (media@ is TelephoneEvent),
    {
        match media {
            Media::TelephoneEvent(_, _) => true,
            _ => false,
        }
    }

    /// Decodes one telephone-event payload and tracks key edges.
    ///
    /// Byte zero names the event; bit seven of byte one is the
    /// end-of-event flag. A new press emits the key with `false`, a
    /// release emits it with `true`, and a repeated press while the key
    /// is down emits nothing.
    pub fn decode_payload(&mut self, payload: &[u8]) -> (r: Result<Option<Media>, SipError>)
        ensures
            r is Ok <==> te_decode_ok(payload@),
            r is Err ==> *final(self) == *old(self) && r == Err::<Option<Media>, SipError>(
                SipError::MalformedMessage,
            ),
            final(self)@ == te_decode_step(old(self)@, payload@),
            r is Ok ==> ({
                match r {
                    Ok(None) => te_decode_output(old(self)@, payload@) is None,
                    Ok(Some(m)) => te_decode_output(old(self)@, payload@) == Some(m@),
                    Err(_) => false,
                }
            }),
    {
        if payload.len() < 2 {
            return Err(SipError::MalformedMessage);
        }
        let code = payload[0];
        let event = match TelephoneEvent::try_from_byte(&code) {
            Err(e) => {
                return Err(e);
            }
            Ok(event) => event,
        };
        let end = payload[1] / 128 == 1;
        if !end && self.pressed_keys[code as usize] {
            assert(self@ =~= te_decode_step(old(self)@, payload@));
            return Ok(None);
        }
        self.pressed_keys[code as usize] = !end;
        assert(self@ =~= te_decode_step(old(self)@, payload@));
        Ok(Some(Media::TelephoneEvent(event, end)))
    }

    /// Builds the codec from the first telephone-event rtpmap of the
    /// remote description.
    pub fn try_from_sdp(sdp: &crate::sdp::SdpSession) -> (r: Option<TelephoneEventsCodec>)
        ensures
            ({
                let f = crate::sdp::find_codec(
                    sdp@.media,
                    crate::ascii::ascii_bytes("telephone-event"@),
                );
                match r {
                    Some(c) => f is Some && c.payload_type == f.unwrap().payload_type
                        && c.pressed() == Seq::new(16, |i: int| false),
                    None => f is None,
                }
            }),
    {
        proof {
            reveal_strlit("telephone-event");
        }
        let name = crate::ascii::str_bytes("telephone-event");
        match crate::sdp::find_codec_exec(sdp, name.as_slice()) {
            None => None,
            Some((pt, _freq, _channels, _ptime)) => Some(TelephoneEventsCodec::new(pt)),
        }
    }

    /// The payload type negotiated for telephone events.
    pub fn get_payload_type(&self) -> (r: u8)
        ensures
            r == self.payload_type,
    {
        self.payload_type
    }
}

} // verus!
