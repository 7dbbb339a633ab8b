//! A minimal SIP user agent core: TCP-framed SIP message codec, digest
//! authentication, SDP offer/answer, G.711 and telephone-event media codecs,
//! RTP packetization, and the per-dialog signaling state machines.
//!
//! The library is transport-agnostic: it works on plain byte buffers and
//! value types, and an embedding application supplies the sockets, timers
//! and tasks around it.

pub mod ascii;
pub mod call_handler;
pub mod codecs;
pub mod config;
pub mod context;
pub mod digest;
pub mod entropy;
pub mod errors;
pub mod framing;
pub mod incoming_call;
pub mod media;
pub mod message;
pub mod options;
pub mod outgoing_call;
pub mod pcma;
pub mod pcmu;
pub mod register;
pub mod rtp;
pub mod rtp_engine;
pub mod sdp;
pub mod session;
pub mod sip_socket;
pub mod telephone_events;
