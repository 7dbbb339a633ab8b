//! Incremental framing of SIP messages on a byte stream.
//!
//! A message is a header block ended by a blank line, followed by
//! `Content-Length` bytes of body. Lone `CRLFCRLF` groups are keep-alives
//! and are discarded silently; a declared body length over
//! [`MAX_CONTENT_LENGTH`] is rejected outright.

use vstd::prelude::*;
use crate::ascii::{crlf2_at, find_crlfcrlf, subvec};
use crate::errors::SipError;
use crate::message::{
    content_length, parse_head, spec_content_length, spec_parse_head, with_body, SipMessage,
};

verus! {

/// The largest body the decoder accepts, in bytes.
pub const MAX_CONTENT_LENGTH: usize = 50000;

/// The four bytes of a keep-alive frame.
pub open spec fn keepalive() -> Seq<u8> {
    seq![13u8, 10u8, 13u8, 10u8]
}

/// Drops every keep-alive frame from the front of `s`.
pub open spec fn strip_keepalives(s: Seq<u8>) -> Seq<u8>
    decreases s.len(),
{
    if s.len() >= 4 && s.subrange(0, 4) == keepalive() {
        strip_keepalives(s.skip(4))
    } else {
        s
    }
}

/// The position of the first `CRLFCRLF` in `s`.
pub open spec fn spec_find_crlf2(s: Seq<u8>) -> Option<int>
    decreases s.len(),
{
    if s.len() < 4 {
        None
    } else if s[0] == 13 && s[1] == 10 && s[2] == 13 && s[3] == 10 {
        Some(0)
    } else {
        match spec_find_crlf2(s.drop_first()) {
            Some(i) => Some(i + 1),
            None => None,
        }
    }
}

proof fn lemma_find_crlf2_char(s: Seq<u8>)
    ensures
        match spec_find_crlf2(s) {
            Some(i) => crlf2_at(s, i) && forall|j: int| 0 <= j < i ==> !crlf2_at(s, j),
            None => forall|j: int| !crlf2_at(s, j),
        },
    decreases s.len(),
{
    if s.len() < 4 {
    } else if s[0] == 13 && s[1] == 10 && s[2] == 13 && s[3] == 10 {
    } else {
        let t = s.drop_first();
        lemma_find_crlf2_char(t);
        assert forall|j: int| 1 <= j && crlf2_at(s, j) implies crlf2_at(t, j - 1) by {
            assert(t[j - 1] == s[j] && t[j] == s[j + 1] && t[j + 1] == s[j + 2] && t[j + 2]
                == s[j + 3]);
        }
        match spec_find_crlf2(t) {
            Some(i) => {
                assert(s[i + 1] == t[i] && s[i + 2] == t[i + 1] && s[i + 3] == t[i + 2] && s[i
                    + 4] == t[i + 3]);
                assert(crlf2_at(s, i + 1));
            }
            None => {}
        }
    }
}

/// Decodes SIP messages incrementally from a growing byte buffer.
pub struct SipMessageDecoder {
    buffer: Vec<u8>,
}

impl View for SipMessageDecoder {
    type V = Seq<u8>;

    closed spec fn view(&self) -> Seq<u8> {
        self.buffer@
    }
}

impl SipMessageDecoder {
    /// An empty decoder.
    pub fn new() -> (r: Self)
        ensures
            r@ == Seq::<u8>::empty(),
    {
        SipMessageDecoder { buffer: Vec::new() }
    }

    /// Appends bytes read from the transport.
    pub fn push_bytes(&mut self, data: &[u8])
        ensures
            final(self)@ == old(self)@ + data@,
    {
        self.buffer.extend_from_slice(data);
    }

    /// Tries to decode the next message from the buffered bytes.
    ///
    /// Keep-alive frames (`CRLFCRLF` alone) are discarded and never
    /// yielded as messages. `Ok(None)` means more bytes are needed. A
    /// malformed header block, or a `Content-Length` over the cap,
    /// consumes the offending header block and reports an error; the
    /// stream stays usable.
    pub fn decode(&mut self) -> (r: Result<Option<SipMessage>, SipError>)
        ensures
            ({
                let b = strip_keepalives(old(self)@);
                match spec_find_crlf2(b) {
                    None => r == Ok::<Option<SipMessage>, SipError>(None) && final(self)@ == b,
                    Some(i) => {
                        let head = b.subrange(0, i + 2);
                        match spec_parse_head(head) {
                            None => r == Err::<Option<SipMessage>, SipError>(
                                SipError::MalformedMessage,
                            ) && final(self)@ == b.skip(i + 4),
                            Some(mv) => {
                                let cl = spec_content_length(mv);
                                if cl > MAX_CONTENT_LENGTH as int {
                                    &&& r == Err::<Option<SipMessage>, SipError>(
                                        SipError::BodyTooLarge,
                                    )
                                    &&& final(self)@ == b.skip(i + 4)
                                } else if b.len() < i + 4 + cl {
                                    &&& r == Ok::<Option<SipMessage>, SipError>(None)
                                    &&& final(self)@ == b
                                } else {
                                    &&& r matches Ok(Some(m)) && m@ == with_body(
                                        mv,
                                        b.subrange(i + 4, i + 4 + cl),
                                    )
                                    &&& final(self)@ == b.skip(i + 4 + cl)
                                }
                            },
                        }
                    },
                }
            }),
    {
        self.strip_leading_keepalives();
        let ghost b = self.buffer@;
        proof {
            lemma_find_crlf2_char(b);
        }
        let n = self.buffer.len();
        let i = match find_crlfcrlf(self.buffer.as_slice()) {
            None => {
                return Ok(None);
            }
            Some(i) => i,
        };
        assert(i + 4 <= n);
        let head = subvec(self.buffer.as_slice(), 0, i + 2);
        let mut msg = match parse_head(head.as_slice()) {
            Err(_) => {
                let tail = self.buffer.split_off(i + 4);
                self.buffer = tail;
                return Err(SipError::MalformedMessage);
            }
            Ok(m) => m,
        };
        let cl = content_length(&msg);
        if cl > MAX_CONTENT_LENGTH as u32 {
            let tail = self.buffer.split_off(i + 4);
            self.buffer = tail;
            return Err(SipError::BodyTooLarge);
        }
        let cl = cl as usize;
        if n - (i + 4) < cl {
            return Ok(None);
        }
        let body = subvec(self.buffer.as_slice(), i + 4, i + 4 + cl);
        msg.set_body(body);
        let tail = self.buffer.split_off(i + 4 + cl);
        self.buffer = tail;
        Ok(Some(msg))
    }

    /// Removes keep-alive frames from the front of the buffer.
    fn strip_leading_keepalives(&mut self)
        ensures
            final(self)@ == strip_keepalives(old(self)@),
            !(final(self)@.len() >= 4 && final(self)@.subrange(0, 4) == keepalive()),
    {
        loop
            invariant
                strip_keepalives(self@) == strip_keepalives(old(self)@),
            decreases self@.len(),
        {
            let is_keepalive = self.buffer.len() >= 4 && self.buffer[0] == 13 && self.buffer[1]
                == 10 && self.buffer[2] == 13 && self.buffer[3] == 10;
            if !is_keepalive {
                proof {
                    if self@.len() >= 4 {
                        assert(self@.subrange(0, 4) != keepalive()) by {
                            if self@.subrange(0, 4) == keepalive() {
                                assert(self@[0] == 13 && self@[1] == 10 && self@[2] == 13
                                    && self@[3] == 10);
                            }
                        }
                    }
                    assert(strip_keepalives(self@) == self@);
                }
                return ;
            }
            assert(self@.subrange(0, 4) =~= keepalive());
            let tail = self.buffer.split_off(4);
            self.buffer = tail;
        }
    }
}

} // verus!
