//! Top-level message routing for the SIP connection: per-Call-ID
//! dialog routing, OPTIONS pings, and new incoming INVITEs.

use vstd::prelude::*;
use crate::config::Config;
use crate::errors::SipError;
use crate::message::{spec_call_id, Method, SipMessage, SipMessageView};
use crate::options::{generate_options_response, options_echoable, options_response_of};

verus! {

/// The routing table of the connection: which Call-IDs have a live
/// dialog channel.
pub struct SocketData {
    pub call_ids: Vec<Vec<u8>>,
}

/// Whether an identifier is in the table.
pub open spec fn has_id(ids: Seq<Vec<u8>>, id: Seq<u8>) -> bool {
    exists|i: int| 0 <= i < ids.len() && (#[trigger] ids[i])@ == id
}

impl SocketData {
    /// No table entries are repeated.
    pub open spec fn wf(&self) -> bool {
        forall|i: int, j: int|
            0 <= i < j < self.call_ids@.len() ==> (#[trigger] self.call_ids@[i])@ != (
            #[trigger] self.call_ids@[j])@
    }

    /// An empty routing table.
    pub fn new() -> (r: SocketData)
        ensures
            r.call_ids@.len() == 0,
            r.wf(),
    {
        SocketData { call_ids: Vec::new() }
    }

    /// Whether a dialog channel exists for this Call-ID.
    pub fn has_call_id(&self, id: &[u8]) -> (r: bool)
        ensures
            r == has_id(self.call_ids@, id@),
    {
        let n = self.call_ids.len();
        let mut i: usize = 0;
        while i < n
            invariant
                n == self.call_ids@.len(),
                0 <= i <= n,
                forall|j: int| 0 <= j < i ==> (#[trigger] self.call_ids@[j])@ != id@,
            decreases n - i,
        {
            if crate::ascii::bytes_eq(self.call_ids[i].as_slice(), id) {
                proof {
                    assert(self.call_ids@[i as int]@ == id@);
                }
                return true;
            }
            i += 1;
        }
        proof {
            if has_id(self.call_ids@, id@) {
                let w = choose|j: int|
                    0 <= j < self.call_ids@.len() && (#[trigger] self.call_ids@[j])@ == id@;
                assert(false);
            }
        }
        false
    }

    /// Registers a dialog channel for a fresh Call-ID; a repeated
    /// Call-ID is turned away.
    pub fn create_call_channel(&mut self, call_id: Vec<u8>) -> (r: Result<(), SipError>)
        requires
            old(self).wf(),
        ensures
            final(self).wf(),
            has_id(old(self).call_ids@, call_id@) ==> r == Err::<(), SipError>(
                SipError::DuplicateCallId,
            ) && *final(self) == *old(self),
            !has_id(old(self).call_ids@, call_id@) ==> r == Ok::<(), SipError>(())
                && final(self).call_ids@ == old(self).call_ids@.push(call_id),
    {
        if self.has_call_id(call_id.as_slice()) {
            return Err(SipError::DuplicateCallId);
        }
        let ghost pre = self.call_ids@;
        let ghost idv = call_id@;
        self.call_ids.push(call_id);
        proof {
            assert(self.call_ids@ =~= pre.push(self.call_ids@.last()));
            assert forall|i: int, j: int|
                0 <= i < j < self.call_ids@.len() implies (#[trigger] self.call_ids@[i])@ != (
            #[trigger] self.call_ids@[j])@ by {
                if j == self.call_ids@.len() - 1 {
                    assert(!has_id(pre, idv));
                    assert(pre[i]@ != idv);
                } else {
                    assert(self.call_ids@[i] == pre[i] && self.call_ids@[j] == pre[j]);
                }
            }
        }
        Ok(())
    }

    /// Drops the dialog channel of a terminated call.
    pub fn remove_call_id(&mut self, id: &[u8])
        requires
            old(self).wf(),
        ensures
            final(self).wf(),
            !has_id(final(self).call_ids@, id@),
    {
        let n = self.call_ids.len();
        let mut i: usize = 0;
        while i < n
            invariant
                n == self.call_ids@.len(),
                0 <= i <= n,
                self.wf(),
                *self == *old(self),
                forall|j: int| 0 <= j < i ==> (#[trigger] self.call_ids@[j])@ != id@,
            decreases n - i,
        {
            if crate::ascii::bytes_eq(self.call_ids[i].as_slice(), id) {
                let ghost pre = self.call_ids@;
                let _ = self.call_ids.remove(i);
                proof {
                    assert forall|j: int|
                        0 <= j < self.call_ids@.len() implies (#[trigger] self.call_ids@[j])@
                        != id@ by {
                        if j < i {
                            assert(self.call_ids@[j] == pre[j]);
                        } else {
                            assert(self.call_ids@[j] == pre[j + 1]);
                            assert(pre[i as int]@ == id@);
                        }
                    }
                    assert forall|a: int, b: int|
                        0 <= a < b < self.call_ids@.len() implies (
                    #[trigger] self.call_ids@[a])@ != (#[trigger] self.call_ids@[b])@ by {
                        let pa = if a < i { a } else { a + 1 };
                        let pb = if b < i { b } else { b + 1 };
                        assert(self.call_ids@[a] == pre[pa] && self.call_ids@[b] == pre[pb]);
                    }
                    if has_id(self.call_ids@, id@) {
                        let w = choose|j: int|
                            0 <= j < self.call_ids@.len() && (#[trigger] self.call_ids@[j])@
                                == id@;
                        assert(false);
                    }
                }
                return ;
            }
            i += 1;
        }
        proof {
            if has_id(self.call_ids@, id@) {
                let w = choose|j: int|
                    0 <= j < self.call_ids@.len() && (#[trigger] self.call_ids@[j])@ == id@;
                assert(false);
            }
        }
    }
}

/// What the connection does with one incoming message.
pub enum DispatchAction {
    /// The message belongs to a live dialog; forward it there.
    ToCall,
    /// An OPTIONS ping; send this reply.
    ReplyOptions(SipMessage),
    /// A dialog-forming INVITE; build an incoming call around it.
    NewIncomingCall,
    /// Nothing to do: an unhandled method or a stray response.
    Ignore,
}

/// Decides what to do with a message read from the connection: a
/// message whose Call-ID has a live dialog is routed to it; otherwise
/// an OPTIONS request is answered, an INVITE opens an incoming call,
/// and everything else is ignored.
pub fn dispatch_message(data: &SocketData, config: &Config, msg: &SipMessage) -> (r: Result<
    DispatchAction,
    SipError,
>)
    ensures
        ({
            let routed = spec_call_id(msg@) is Some && has_id(
                data.call_ids@,
                spec_call_id(msg@).unwrap(),
            );
            if routed {
                r matches Ok(a) && a is ToCall
            } else {
                match msg@ {
                    SipMessageView::Request(req) => {
                        if req.method == Method::Options {
                            if options_echoable(req) {
                                r matches Ok(a) && (a matches DispatchAction::ReplyOptions(m)
                                    && m@ == options_response_of(config@, req))
                            } else {
                                r == Err::<DispatchAction, SipError>(SipError::MissingHeader)
                            }
                        } else if req.method == Method::Invite {
                            r matches Ok(a) && a is NewIncomingCall
                        } else {
                            r matches Ok(a) && a is Ignore
                        }
                    },
                    SipMessageView::Response(_) => r matches Ok(a) && a is Ignore,
                }
            }
        }),
{
    match crate::message::get_call_id(msg) {
        Some(id) => {
            if data.has_call_id(id.as_slice()) {
                return Ok(DispatchAction::ToCall);
            }
        }
        None => {}
    }
    match msg {
        SipMessage::Request(req) => {
            match req.method {
                Method::Options => {
                    match generate_options_response(req, config) {
                        Err(e) => Err(e),
                        Ok(reply) => Ok(DispatchAction::ReplyOptions(reply)),
                    }
                }
                Method::Invite => Ok(DispatchAction::NewIncomingCall),
                _ => Ok(DispatchAction::Ignore),
            }
        }
        SipMessage::Response(_) => Ok(DispatchAction::Ignore),
    }
}

} // verus!
