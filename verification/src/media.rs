//! The media values exchanged between the application and the codecs.

use vstd::prelude::*;
use crate::telephone_events::TelephoneEvent;

verus! {

/// One unit of media crossing the boundary: a block of PCM samples, a
/// DTMF key transition (`true` means the key was released), or the
/// notification that the outbound buffer ran dry.
#[derive(Clone, Debug)]
pub enum Media {
    Audio(Vec<i16>),
    TelephoneEvent(TelephoneEvent, bool),
    OutputEmpty,
}

/// Ghost image of a media value.
pub enum MediaView {
    Audio(Seq<i16>),
    TelephoneEvent(TelephoneEvent, bool),
    OutputEmpty,
}

impl View for Media {
    type V = MediaView;

    open spec fn view(&self) -> MediaView {
        match self {
            Media::Audio(s) => MediaView::Audio(s@),
            Media::TelephoneEvent(e, up) => MediaView::TelephoneEvent(*e, *up),
            Media::OutputEmpty => MediaView::OutputEmpty,
        }
    }
}

} // verus!
