//! The in-call signaling state machine: one handler per answered
//! dialog, terminating on the first BYE from either side and reporting
//! the end of the call exactly once.

use vstd::prelude::*;
use crate::ascii::{ascii_bytes, str_bytes};
use crate::message::{
    cseq_value_of, hdr, HeaderView, Method, Request, RequestView, Response, ResponseView,
    SipMessage, SipMessageView,
};
use crate::session::{
    request_headers_of, response_headers_of, SessionParameters, SessionParametersView,
};

verus! {

/// Control-plane notifications between the application and a call.
#[derive(Clone, Copy, Debug, PartialEq, Eq, Structural)]
pub enum CallControl {
    Hangup,
    AudioOutEmpty,
    Finished,
}

/// One thing the handler can react to: a control message from the
/// application, or a SIP message routed to the dialog.
pub enum CallEvent {
    Control(CallControl),
    Message(SipMessage),
}

/// Ghost image of an event.
pub enum CallEventView {
    Control(CallControl),
    Message(SipMessageView),
}

impl View for CallEvent {
    type V = CallEventView;

    open spec fn view(&self) -> CallEventView {
        match self {
            CallEvent::Control(c) => CallEventView::Control(*c),
            CallEvent::Message(m) => CallEventView::Message(m@),
        }
    }
}

impl DeepView for CallEvent {
    type V = CallEventView;

    open spec fn deep_view(&self) -> CallEventView {
        self@
    }
}

/// One thing the handler asks its surroundings to do: put a message on
/// the wire, or notify the application.
pub enum CallAction {
    Send(SipMessage),
    Notify(CallControl),
}

/// Ghost image of an action.
pub enum CallActionView {
    Send(SipMessageView),
    Notify(CallControl),
}

impl View for CallAction {
    type V = CallActionView;

    open spec fn view(&self) -> CallActionView {
        match self {
            CallAction::Send(m) => CallActionView::Send(m@),
            CallAction::Notify(c) => CallActionView::Notify(*c),
        }
    }
}

impl DeepView for CallAction {
    type V = CallActionView;

    open spec fn deep_view(&self) -> CallActionView {
        self@
    }
}

/// Whether an event ends the dialog: a local hangup, or a BYE from the
/// peer.
pub open spec fn is_termination_event(e: CallEventView) -> bool {
    match e {
        CallEventView::Control(c) => c == CallControl::Hangup,
        CallEventView::Message(m) => match m {
            SipMessageView::Request(r) => r.method == Method::Bye,
            SipMessageView::Response(_) => false,
        },
    }
}

/// How many `Finished` notifications a run of actions carries.
pub open spec fn count_finished(s: Seq<CallActionView>) -> int
    decreases s.len(),
{
    if s.len() == 0 {
        0
    } else {
        count_finished(s.drop_last()) + (if s.last() == CallActionView::Notify(
            CallControl::Finished,
        ) {
            1int
        } else {
            0int
        })
    }
}

/// The signaling handler of one answered dialog.
pub struct CallHandler {
    pub is_terminated: bool,
    pub session: SessionParameters,
}

/// The BYE this handler sends on a local hangup.
pub open spec fn bye_request_of(s: SessionParametersView, branch: Seq<u8>, cseq: u32) -> SipMessageView {
    SipMessageView::Request(
        RequestView {
            method: Method::Bye,
            uri: s.remote.uri,
            headers: request_headers_of(s, branch).push(
                HeaderView { name: ascii_bytes("CSeq"@), value: cseq_value_of(cseq, Method::Bye) },
            ),
            body: Seq::empty(),
        },
    )
}

/// The 200 this handler returns for a BYE from the peer.
pub open spec fn bye_reply_of(s: SessionParametersView, req: RequestView) -> SipMessageView {
    SipMessageView::Response(
        ResponseView {
            status: 200,
            reason: ascii_bytes("OK"@),
            headers: response_headers_of(s, req),
            body: Seq::empty(),
        },
    )
}

impl CallHandler {
    /// A handler for a fresh, not yet terminated dialog.
    pub fn new(session: SessionParameters) -> (r: CallHandler)
        ensures
            !r.is_terminated,
            r.session == session,
    {
        CallHandler { is_terminated: false, session }
    }

    /// Whether the handler still runs.
    pub fn is_running(&self) -> (r: bool)
        ensures
            r == !self.is_terminated,
    {
        !self.is_terminated
    }

    /// Hangs up locally: sends a BYE under a fresh CSeq, notifies the
    /// application, and terminates.
    pub fn hangup(&mut self, branch: &[u8]) -> (r: Vec<CallAction>)
        requires
            old(self).session.cseq < u32::MAX,
        ensures
            final(self).is_terminated,
            final(self).session.cseq == old(self).session.cseq + 1,
            final(self).session@.call_id == old(self).session@.call_id,
            r.deep_view() =~= seq![
                CallActionView::Send(
                    bye_request_of(
                        old(self).session@,
                        branch@,
                        (old(self).session.cseq + 1) as u32,
                    ),
                ),
                CallActionView::Notify(CallControl::Hangup),
            ],
            count_finished(r.deep_view()) == 0,
    {
        proof {
            reveal_strlit("CSeq");
        }
        let cseq = self.session.get_next_cseq();
        let mut headers = self.session.get_headers_request(branch);
        headers.push(hdr("CSeq", crate::message::make_cseq_value(cseq, Method::Bye)));
        let uri = crate::ascii::subvec(
            self.session.remote.uri.as_slice(),
            0,
            self.session.remote.uri.len(),
        );
        let bye = SipMessage::Request(
            Request { method: Method::Bye, uri, headers, body: Vec::new() },
        );
        self.is_terminated = true;
        let mut r: Vec<CallAction> = Vec::new();
        r.push(CallAction::Send(bye));
        r.push(CallAction::Notify(CallControl::Hangup));
        proof {
            assert(bye@ =~~= bye_request_of(
                old(self).session@,
                branch@,
                (old(self).session.cseq + 1) as u32,
            ));
            let v = r.deep_view();
            assert(v.len() == 2);
            assert(v.last() == CallActionView::Notify(CallControl::Hangup));
            assert(v.drop_last().last() is Send);
            assert(v.drop_last().drop_last() =~= Seq::<CallActionView>::empty());
            assert(count_finished(v.drop_last().drop_last()) == 0);
            assert(count_finished(v.drop_last()) == 0);
            assert(count_finished(v) == 0);
        }
        r
    }

    /// Reacts to one event.
    ///
    /// A local hangup sends a BYE and notifies the application; a BYE
    /// from the peer is answered with 200 and notifies the
    /// application; either terminates the handler. Everything else is
    /// ignored.
    pub fn handle_event(&mut self, event: CallEvent, branch: &[u8]) -> (r: Vec<CallAction>)
        requires
            old(self).session.cseq < u32::MAX,
        ensures
            final(self).is_terminated == (old(self).is_terminated || is_termination_event(
                event@,
            )),
            final(self).session@.call_id == old(self).session@.call_id,
            final(self).session.cseq <= old(self).session.cseq + 1,
            count_finished(r.deep_view()) == 0,
            !is_termination_event(event@) ==> r@.len() == 0 && final(self).session == old(
                self,
            ).session,
            event@ == CallEventView::Control(CallControl::Hangup) ==> r.deep_view() == seq![
                CallActionView::Send(
                    bye_request_of(
                        old(self).session@,
                        branch@,
                        (old(self).session.cseq + 1) as u32,
                    ),
                ),
                CallActionView::Notify(CallControl::Hangup),
            ],
            (event@ matches CallEventView::Message(SipMessageView::Request(req)) && req.method
                == Method::Bye) ==> r.deep_view() == (if crate::incoming_call::echoable(
                event@->Message_0->Request_0,
            ) {
                seq![
                    CallActionView::Send(
                        bye_reply_of(old(self).session@, event@->Message_0->Request_0),
                    ),
                    CallActionView::Notify(CallControl::Hangup),
                ]
            } else {
                seq![CallActionView::Notify(CallControl::Hangup)]
            }),
    {
        match event {
            CallEvent::Control(CallControl::Hangup) => self.hangup(branch),
            CallEvent::Control(_) => {
                let r: Vec<CallAction> = Vec::new();
                assert(r.deep_view() =~= Seq::<CallActionView>::empty());
                r
            }
            CallEvent::Message(SipMessage::Request(req)) => {
                match req.method {
                    Method::Bye => {
                        proof {
                            reveal_strlit("OK");
                        }
                        let mut r: Vec<CallAction> = Vec::new();
                        match self.session.get_headers_response(&req) {
                            Ok(headers) => {
                                let reply = SipMessage::Response(
                                    Response {
                                        status: 200,
                                        reason: str_bytes("OK"),
                                        headers,
                                        body: Vec::new(),
                                    },
                                );
                                proof {
                                    assert(reply@ =~~= bye_reply_of(old(self).session@, req@));
                                }
                                r.push(CallAction::Send(reply));
                            }
                            Err(_) => {}
                        }
                        r.push(CallAction::Notify(CallControl::Hangup));
                        self.is_terminated = true;
                        proof {
                            let v = r.deep_view();
                            assert(v.last() == CallActionView::Notify(CallControl::Hangup));
                            assert(v.len() <= 2);
                            if v.len() == 2 {
                                assert(v.drop_last().last() is Send);
                                assert(v.drop_last().drop_last()
                                    =~= Seq::<CallActionView>::empty());
                                assert(count_finished(v.drop_last().drop_last()) == 0);
                                assert(count_finished(v.drop_last()) == 0);
                            } else {
                                assert(v.drop_last() =~= Seq::<CallActionView>::empty());
                                assert(count_finished(v.drop_last()) == 0);
                            }
                            assert(count_finished(v) == 0);
                        }
                        r
                    }
                    _ => {
                        let r: Vec<CallAction> = Vec::new();
                        assert(r.deep_view() =~= Seq::<CallActionView>::empty());
                        r
                    }
                }
            }
            CallEvent::Message(SipMessage::Response(_)) => {
                let r: Vec<CallAction> = Vec::new();
                assert(r.deep_view() =~= Seq::<CallActionView>::empty());
                r
            }
        }
    }

    /// Runs the handler over a batch of events, stopping at the first
    /// one that terminates the dialog, and reports the end of the call.
    ///
    /// A BYE from either side — and any other terminating event — leads
    /// to exactly one `Finished` notification; without one, none is
    /// reported.
    pub fn process_events(&mut self, events: Vec<CallEvent>, branch: &[u8]) -> (r: Vec<
        CallAction,
    >)
        requires
            old(self).session.cseq < u32::MAX,
            !old(self).is_terminated,
        ensures
            final(self).is_terminated == (exists|i: int|
                0 <= i < events.deep_view().len() && is_termination_event(
                    #[trigger] events.deep_view()[i],
                )),
            count_finished(r.deep_view()) == (if final(self).is_terminated {
                1int
            } else {
                0int
            }),
    {
        let mut r: Vec<CallAction> = Vec::new();
        let mut rest = events;
        let ghost evs = rest.deep_view();
        let total = rest.len();
        proof {
            assert(r.deep_view() =~= Seq::<CallActionView>::empty());
            assert(evs.len() == total);
        }
        let mut done: usize = 0;
        while rest.len() > 0 && !self.is_terminated
            invariant
                evs.len() == total,
                done + rest@.len() == evs.len(),
                rest.deep_view() =~= evs.skip(done as int),
                self.session.cseq < u32::MAX || self.is_terminated,
                count_finished(r.deep_view()) == 0,
                self.is_terminated == (exists|i: int|
                    0 <= i < done && is_termination_event(#[trigger] evs[i])),
                !self.is_terminated ==> forall|i: int|
                    0 <= i < done ==> !is_termination_event(#[trigger] evs[i]),
            decreases rest@.len(),
        {
            let ghost old_elems = rest@;
            let ghost old_rest = rest.deep_view();
            let event = rest.remove(0);
            proof {
                assert(event.deep_view() == old_rest[0]);
                assert(event@ == evs[done as int]);
                assert forall|j: int| 0 <= j < rest@.len() implies rest.deep_view()[j] == evs.skip(
                    done + 1,
                )[j] by {
                    assert(rest.deep_view()[j] == rest@[j].deep_view());
                    assert(rest@[j] == old_elems[j + 1]);
                    assert(old_elems[j + 1].deep_view() == old_rest[j + 1]);
                }
                assert(rest.deep_view() =~= evs.skip(done + 1));
            }
            let ghost was_term = is_termination_event(event@);
            let mut actions = self.handle_event(event, branch);
            let ghost racc = r.deep_view();
            let ghost aview = actions.deep_view();
            r.append(&mut actions);
            proof {
                lemma_count_finished_concat(racc, aview);
                assert(r.deep_view() =~= racc + aview);
            }
            done = done + 1;
        }
        if self.is_terminated {
            let ghost prev = r.deep_view();
            r.push(CallAction::Notify(CallControl::Finished));
            proof {
                assert(r.deep_view().drop_last() =~= prev);
                assert(r.deep_view().last() == CallActionView::Notify(CallControl::Finished));
                assert(count_finished(r.deep_view()) == count_finished(prev) + 1);
            }
        }
        proof {
            if !self.is_terminated {
                assert(rest@.len() == 0 || self.is_terminated);
                assert(done == evs.len());
            }
        }
        r
    }
}

proof fn lemma_count_finished_concat(a: Seq<CallActionView>, b: Seq<CallActionView>)
    ensures
        count_finished(a + b) == count_finished(a) + count_finished(b),
    decreases b.len(),
{
    if b.len() == 0 {
        assert(a + b =~= a);
    } else {
        lemma_count_finished_concat(a, b.drop_last());
        assert((a + b).drop_last() =~= a + b.drop_last());
        assert((a + b).last() == b.last());
    }
}

} // verus!
