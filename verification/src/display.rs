//! The display manager: one logical display per session, the default
//! display (id 0), sized like the desktop window the app gets, and the
//! listeners apps register for its changes.
use vstd::prelude::*;
use crate::services::{Answer, Payload};
use crate::text::{chars_of, is};

verus! {

/// The id of the default display.
pub const DISPLAY_ID_DEFAULT: i32 = 0;

/// The `android.hardware.display.IDisplayManager` binder service.
/// `callbacks` holds each registered listener (by the handle the host gave
/// its binder) with its event mask.
pub struct DisplayService {
    pub name: String,
    pub width: i32,
    pub height: i32,
    pub dpi: i32,
    pub callbacks: Vec<(u64, i64)>,
}

pub open spec fn display_answer(name: Seq<char>) -> Answer {
    if name == "getDisplayInfo"@ {
        Answer::Payload(Payload::DisplayInfoOf)
    } else if name == "getDisplayIds"@ {
        Answer::Payload(Payload::DisplayIds)
    } else if name == "getPreferredWideGamutColorSpaceId"@ {
        Answer::Int(0)
    } else if name == "getOverlaySupport"@ {
        Answer::Payload(Payload::OverlaySupport)
    } else if name == "registerCallbackWithEventMask"@ || name == "registerCallback"@ {
        Answer::Payload(Payload::DisplayCallback)
    } else {
        Answer::Refused
    }
}

/// The smaller and the larger side.
pub open spec fn nominal_spec(w: i32, h: i32) -> (i32, i32) {
    (if w <= h { w } else { h }, if w <= h { h } else { w })
}

impl DisplayService {
    /// How `IDisplayManager` answers `name`.
    pub fn answer(&self, name: &str) -> (a: Answer)
        ensures
            a == display_answer(name@),
    {
        let n = chars_of(name);
        let n = n.as_slice();
        if is(n, "getDisplayInfo") {
            Answer::Payload(Payload::DisplayInfoOf)
        } else if is(n, "getDisplayIds") {
            Answer::Payload(Payload::DisplayIds)
        } else if is(n, "getPreferredWideGamutColorSpaceId") {
            Answer::Int(0)
        } else if is(n, "getOverlaySupport") {
            Answer::Payload(Payload::OverlaySupport)
        } else if is(n, "registerCallbackWithEventMask") || is(n, "registerCallback") {
            Answer::Payload(Payload::DisplayCallback)
        } else {
            Answer::Refused
        }
    }

    /// Whether `getDisplayInfo(id)` describes a display: only the default
    /// one exists.
    pub fn has_display(&self, id: i32) -> (r: bool)
        ensures
            r == (id == DISPLAY_ID_DEFAULT),
    {
        id == DISPLAY_ID_DEFAULT
    }

    /// The smallest and largest nominal app sizes: the display's shorter
    /// and longer side, whichever way it is turned.
    pub fn nominal_sizes(&self) -> (r: (i32, i32))
        ensures
            r == nominal_spec(self.width, self.height),
    {
        if self.width <= self.height {
            (self.width, self.height)
        } else {
            (self.height, self.width)
        }
    }

    /// `registerCallbackWithEventMask`: a listener, when the call carries
    /// one, is kept with its mask.
    pub fn register_callback_with_event_mask(&mut self, callback: Option<u64>, mask: i64)
        ensures
            final(self).callbacks@ == match callback {
                Some(cb) => old(self).callbacks@.push((cb, mask)),
                None => old(self).callbacks@,
            },
            final(self).name@ == old(self).name@,
            final(self).width == old(self).width,
            final(self).height == old(self).height,
            final(self).dpi == old(self).dpi,
    {
        if let Some(cb) = callback {
            self.callbacks.push((cb, mask));
        }
    }

    /// `registerCallback`: a listener of every event (mask -1).
    pub fn register_callback(&mut self, callback: Option<u64>)
        ensures
            final(self).callbacks@ == match callback {
                Some(cb) => old(self).callbacks@.push((cb, -1i64)),
                None => old(self).callbacks@,
            },
            final(self).name@ == old(self).name@,
            final(self).width == old(self).width,
            final(self).height == old(self).height,
            final(self).dpi == old(self).dpi,
    {
        self.register_callback_with_event_mask(callback, -1);
    }
}

} // verus!
