//! The composer as the app sees it: the layers its clients create, the
//! replies of the two composer binders and of the per-client composer, and
//! the vsync events a display-event connection delivers.
use vstd::prelude::*;
use crate::cursor::{le32, le64, push_le32, push_le64, push_zeros, zeros};
use crate::services::{Answer, Payload};
use crate::text::{chars_of, is};

verus! {

/// The id of the one physical display.
pub const PHYSICAL_DISPLAY_ID: i64 = 0x4a2b_0001;

/// `DisplayEventReceiver::DISPLAY_EVENT_VSYNC`: the fourcc `vsyn`.
pub const DISPLAY_EVENT_VSYNC: u32 = 0x7673_796e;

/// The frame interval of a 60 Hz display, in nanoseconds.
pub const FRAME_INTERVAL_NS: i64 = 16_666_667;

/// The size of one `DisplayEventReceiver::Event`.
pub const EVENT_SIZE: usize = 224;

/// A layer created by an app through `createSurface`.
pub struct Layer {
    pub id: i32,
    pub name: String,
    pub width: u32,
    pub height: u32,
}

/// The layers of the session and the id the next one gets.
pub struct SurfaceFlinger {
    pub layers: Vec<Layer>,
    pub next_layer_id: i32,
    pub width: u32,
    pub height: u32,
}

/// Every layer id is below the next one to be given, and the ids rise in
/// the order the layers were created.
pub open spec fn ids_fresh(layers: Seq<Layer>, next: i32) -> bool {
    &&& forall|i: int| 0 <= i < layers.len() ==> (#[trigger] layers[i]).id < next
    &&& forall|i: int, j: int| 0 <= i < j < layers.len() ==> (#[trigger] layers[i]).id < (#[trigger] layers[j]).id
}

/// The id after `id`, as a 32-bit counter that wraps.
pub open spec fn next_id(id: i32) -> i32 {
    if id == i32::MAX { i32::MIN } else { (id + 1) as i32 }
}

impl SurfaceFlinger {
    /// A composer with no layers for a display of `width` x `height`; the
    /// first layer gets id 1.
    pub fn new(width: u32, height: u32) -> (sf: SurfaceFlinger)
        ensures
            sf.layers@.len() == 0,
            sf.next_layer_id == 1,
            sf.width == width,
            sf.height == height,
            ids_fresh(sf.layers@, sf.next_layer_id),
    {
        SurfaceFlinger { layers: Vec::new(), next_layer_id: 1, width, height }
    }

    /// Records a new layer named `name` of `width` x `height` and gives its
    /// id: the next id, which then moves on by one. Ids stay fresh while the
    /// counter does not wrap.
    pub fn create_layer(&mut self, name: &str, width: u32, height: u32) -> (id: i32)
        ensures
            id == old(self).next_layer_id,
            final(self).next_layer_id == next_id(old(self).next_layer_id),
            final(self).layers@.len() == old(self).layers@.len() + 1,
            forall|i: int| 0 <= i < old(self).layers@.len() ==> #[trigger] final(self).layers@[i] == old(self).layers@[i],
            final(self).layers@.last().id == id,
            final(self).layers@.last().name@ == name@,
            final(self).layers@.last().width == width,
            final(self).layers@.last().height == height,
            final(self).width == old(self).width,
            final(self).height == old(self).height,
            ids_fresh(old(self).layers@, old(self).next_layer_id) && old(self).next_layer_id < i32::MAX
                ==> ids_fresh(final(self).layers@, final(self).next_layer_id),
    {
        let id = self.next_layer_id;
        self.next_layer_id = id.wrapping_add(1);
        self.layers.push(Layer { id, name: name.to_owned(), width, height });
        id
    }

    /// `createSurface`: a layer of the display's size, named as the call
    /// names it, or `?`.
    pub fn create_surface(&mut self, name: Option<&str>) -> (id: i32)
        ensures
            id == old(self).next_layer_id,
            final(self).next_layer_id == next_id(old(self).next_layer_id),
            final(self).layers@.len() == old(self).layers@.len() + 1,
            forall|i: int| 0 <= i < old(self).layers@.len() ==> #[trigger] final(self).layers@[i] == old(self).layers@[i],
            final(self).layers@.last().id == id,
            final(self).layers@.last().name@ == match name {
                Some(n) => n@,
                None => "?"@,
            },
            final(self).layers@.last().width == old(self).width,
            final(self).layers@.last().height == old(self).height,
            final(self).width == old(self).width,
            final(self).height == old(self).height,
            ids_fresh(old(self).layers@, old(self).next_layer_id) && old(self).next_layer_id < i32::MAX
                ==> ids_fresh(final(self).layers@, final(self).next_layer_id),
    {
        let (w, h) = (self.width, self.height);
        match name {
            Some(n) => self.create_layer(n, w, h),
            None => self.create_layer("?", w, h),
        }
    }
}

// ---------------------------------------------------------------------------
// The composer binders
// ---------------------------------------------------------------------------

/// `android.gui.ISurfaceComposer`, the composer's AIDL binder.
pub struct ComposerAidl;

pub open spec fn composer_aidl_answer(name: Seq<char>) -> Answer {
    if name == "bootFinished"@ {
        Answer::Done
    } else if name == "createConnection"@ {
        Answer::Payload(Payload::ClientConnection)
    } else if name == "createDisplayEventConnection"@ {
        Answer::Payload(Payload::EventConnection)
    } else if name == "getPhysicalDisplayIds"@ {
        Answer::Payload(Payload::PhysicalDisplayIds)
    } else if name == "getPhysicalDisplayToken"@ {
        Answer::Payload(Payload::DisplayToken)
    } else if name == "getProtectedContentSupport"@ || name == "isWideColorDisplay"@ {
        Answer::Bool(false)
    } else {
        Answer::Refused
    }
}

impl ComposerAidl {
    /// How `ISurfaceComposer` answers `name`.
    pub fn answer(&self, name: &str) -> (a: Answer)
        ensures
            a == composer_aidl_answer(name@),
    {
        let n = chars_of(name);
        let n = n.as_slice();
        if is(n, "bootFinished") {
            Answer::Done
        } else if is(n, "createConnection") {
            Answer::Payload(Payload::ClientConnection)
        } else if is(n, "createDisplayEventConnection") {
            Answer::Payload(Payload::EventConnection)
        } else if is(n, "getPhysicalDisplayIds") {
            Answer::Payload(Payload::PhysicalDisplayIds)
        } else if is(n, "getPhysicalDisplayToken") {
            Answer::Payload(Payload::DisplayToken)
        } else if is(n, "getProtectedContentSupport") || is(n, "isWideColorDisplay") {
            Answer::Bool(false)
        } else {
            Answer::Refused
        }
    }

    /// Whether `getPhysicalDisplayToken(id)` gets the display's token:
    /// only for the physical display's id.
    pub fn has_display_token(&self, id: i64) -> (r: bool)
        ensures
            r == (id == PHYSICAL_DISPLAY_ID),
    {
        id == PHYSICAL_DISPLAY_ID
    }
}

/// The legacy `android.ui.ISurfaceComposer`, which carries
/// `setTransactionState`; it counts the transactions it was sent.
pub struct ComposerLegacy {
    pub transactions: u32,
}

pub open spec fn composer_legacy_answer(name: Seq<char>) -> Answer {
    if name == "setTransactionState"@ {
        Answer::Raw(0)
    } else if name == "getSchedulingPolicy"@ {
        Answer::Payload(Payload::SchedulingPolicy)
    } else {
        Answer::Refused
    }
}

impl ComposerLegacy {
    /// How the legacy composer answers `name`: a transaction is counted and
    /// gets the bare status 0; its replies carry no exception header.
    pub fn handle(&mut self, name: &str) -> (a: Answer)
        requires
            name@ == "setTransactionState"@ ==> old(self).transactions < u32::MAX,
        ensures
            a == composer_legacy_answer(name@),
            final(self).transactions == old(self).transactions + if name@ == "setTransactionState"@ { 1int } else { 0int },
    {
        let n = chars_of(name);
        let n = n.as_slice();
        if is(n, "setTransactionState") {
            self.transactions = self.transactions + 1;
            Answer::Raw(0)
        } else if is(n, "getSchedulingPolicy") {
            Answer::Payload(Payload::SchedulingPolicy)
        } else {
            Answer::Refused
        }
    }
}

/// `android.gui.ISurfaceComposerClient`, one per app connection; the layer
/// a `createSurface` makes is recorded by `SurfaceFlinger::create_surface`.
pub struct ComposerClient;

pub open spec fn composer_client_answer(name: Seq<char>) -> Answer {
    if name == "createSurface"@ {
        Answer::Payload(Payload::SurfaceCreated)
    } else if name == "getSchedulingPolicy"@ {
        Answer::Payload(Payload::SchedulingPolicy)
    } else {
        Answer::Refused
    }
}

impl ComposerClient {
    /// How `ISurfaceComposerClient` answers `name`.
    pub fn answer(&self, name: &str) -> (a: Answer)
        ensures
            a == composer_client_answer(name@),
    {
        let n = chars_of(name);
        let n = n.as_slice();
        if is(n, "createSurface") {
            Answer::Payload(Payload::SurfaceCreated)
        } else if is(n, "getSchedulingPolicy") {
            Answer::Payload(Payload::SchedulingPolicy)
        } else {
            Answer::Refused
        }
    }
}

// ---------------------------------------------------------------------------
// Vsync
// ---------------------------------------------------------------------------

/// An `IDisplayEventConnection`'s state: a positive rate sends vsync
/// continuously, 0 only on request; `counter` numbers the events sent.
pub struct DisplayEventConnection {
    pub rate: i32,
    pub counter: u32,
}

/// The fields of a `VsyncEventData` with one frame timeline.
pub struct VsyncEventData {
    pub frame_interval: i64,
    pub preferred_frame_timeline_index: u32,
    pub frame_timelines_length: u32,
    pub vsync_id: i64,
    pub deadline: i64,
    pub expected_presentation_time: i64,
}

/// A vsync event can be stamped at `now` without leaving 64 bits.
pub open spec fn stampable(now: i64) -> bool {
    now + 2 * FRAME_INTERVAL_NS <= i64::MAX
}

/// The frame's deadline: 2 ms before the next frame.
pub open spec fn deadline_spec(now: i64) -> i64 {
    (now + FRAME_INTERVAL_NS - 2_000_000) as i64
}

/// When the frame is expected on screen: two frames from now.
pub open spec fn present_spec(now: i64) -> i64 {
    (now + 2 * FRAME_INTERVAL_NS) as i64
}

/// The `DisplayEventReceiver::Event` of vsync number `count` at `now`: the
/// header (type, display id, timestamp), the count, then the event data
/// with its one timeline, zero-filled to the event's size.
pub open spec fn vsync_event_spec(now: i64, count: u32) -> Seq<u8> {
    le32(DISPLAY_EVENT_VSYNC) + zeros(4) + le64(PHYSICAL_DISPLAY_ID as u64) + le64(now as u64)
        + le32(count) + zeros(4) + le64(FRAME_INTERVAL_NS as u64) + le32(0) + le32(1) + le32(0) + zeros(4)
        + le64(count as u64) + le64(deadline_spec(now) as u64) + le64(present_spec(now) as u64)
        + zeros(144)
}

pub open spec fn display_event_answer(name: Seq<char>) -> Answer {
    if name == "stealReceiveChannel"@ {
        Answer::Payload(Payload::ReceiveChannel)
    } else if name == "setVsyncRate"@ {
        Answer::Payload(Payload::VsyncRate)
    } else if name == "requestNextVsync"@ {
        Answer::Silent
    } else if name == "getLatestVsyncEventData"@ {
        Answer::Payload(Payload::VsyncEventData)
    } else if name == "getSchedulingPolicy"@ {
        Answer::Payload(Payload::SchedulingPolicy)
    } else {
        Answer::Refused
    }
}

impl DisplayEventConnection {
    /// A connection that sends vsync only on request, none sent yet.
    pub fn new() -> (c: DisplayEventConnection)
        ensures
            c.rate == 0 && c.counter == 0,
    {
        DisplayEventConnection { rate: 0, counter: 0 }
    }

    /// How `IDisplayEventConnection` answers `name`; `requestNextVsync` is
    /// one-way and writes nothing.
    pub fn answer(&self, name: &str) -> (a: Answer)
        ensures
            a == display_event_answer(name@),
    {
        let n = chars_of(name);
        let n = n.as_slice();
        if is(n, "stealReceiveChannel") {
            Answer::Payload(Payload::ReceiveChannel)
        } else if is(n, "setVsyncRate") {
            Answer::Payload(Payload::VsyncRate)
        } else if is(n, "requestNextVsync") {
            Answer::Silent
        } else if is(n, "getLatestVsyncEventData") {
            Answer::Payload(Payload::VsyncEventData)
        } else if is(n, "getSchedulingPolicy") {
            Answer::Payload(Payload::SchedulingPolicy)
        } else {
            Answer::Refused
        }
    }

    /// `setVsyncRate(rate)`: whether vsync now runs continuously.
    pub fn set_vsync_rate(&mut self, rate: i32) -> (continuous: bool)
        ensures
            final(self).rate == rate,
            final(self).counter == old(self).counter,
            continuous == (rate > 0),
    {
        self.rate = rate;
        rate > 0
    }

    /// Whether continuous vsync goes on.
    pub fn continuous(&self) -> (r: bool)
        ensures
            r == (self.rate > 0),
    {
        self.rate > 0
    }

    /// Numbers the next vsync event: the counter moves on by one.
    pub fn next_vsync(&mut self) -> (count: u32)
        requires
            old(self).counter < u32::MAX,
        ensures
            count == old(self).counter + 1,
            final(self).counter == count,
            final(self).rate == old(self).rate,
    {
        self.counter = self.counter + 1;
        self.counter
    }

    /// `getLatestVsyncEventData` at `now`: the latest count as the vsync id.
    pub fn vsync_event_data(&self, now: i64) -> (d: VsyncEventData)
        requires
            stampable(now),
        ensures
            d.frame_interval == FRAME_INTERVAL_NS,
            d.preferred_frame_timeline_index == 0,
            d.frame_timelines_length == 1,
            d.vsync_id == self.counter as i64,
            d.deadline == deadline_spec(now),
            d.expected_presentation_time == present_spec(now),
    {
        VsyncEventData {
            frame_interval: FRAME_INTERVAL_NS,
            preferred_frame_timeline_index: 0,
            frame_timelines_length: 1,
            vsync_id: self.counter as i64,
            deadline: now + FRAME_INTERVAL_NS - 2_000_000,
            expected_presentation_time: now + 2 * FRAME_INTERVAL_NS,
        }
    }
}

/// The bytes of the vsync event number `count` at `now`.
pub fn vsync_event(now: i64, count: u32) -> (e: Vec<u8>)
    requires
        stampable(now),
    ensures
        e@ == vsync_event_spec(now, count),
        e@.len() == EVENT_SIZE,
{
    let mut e: Vec<u8> = Vec::new();
    push_le32(&mut e, DISPLAY_EVENT_VSYNC);
    push_zeros(&mut e, 4);
    push_le64(&mut e, PHYSICAL_DISPLAY_ID as u64);
    push_le64(&mut e, now as u64);
    push_le32(&mut e, count);
    push_zeros(&mut e, 4);
    push_le64(&mut e, FRAME_INTERVAL_NS as u64);
    push_le32(&mut e, 0);
    push_le32(&mut e, 1);
    push_le32(&mut e, 0);
    push_zeros(&mut e, 4);
    push_le64(&mut e, count as u64);
    let deadline: i64 = now + FRAME_INTERVAL_NS - 2_000_000;
    let present: i64 = now + 2 * FRAME_INTERVAL_NS;
    push_le64(&mut e, deadline as u64);
    push_le64(&mut e, present as u64);
    push_zeros(&mut e, 144);
    e
}

} // verus!
