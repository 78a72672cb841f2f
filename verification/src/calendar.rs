//! The calendar store behind the `com.android.calendar` provider: calendars,
//! events and reminders, the edits that INSERT / UPDATE / DELETE (and their
//! batched form) make, and the values a client's `ContentValues` carry.
use vstd::prelude::*;
use crate::text::{
    after_last, chars_of, contains, eq_ignore_case, has, is, is_ignore_case, parse_i64, parse_i64_spec,
    signed_decimal, signed_text, string_of, tail_after,
};

verus! {

pub struct CalendarAccount {
    pub id: i64,
    pub name: String,
    pub display_name: String,
    pub account_name: String,
    pub account_type: String,
    pub owner_account: String,
    pub color: i32,
    pub timezone: String,
    pub visible: bool,
    pub sync_events: bool,
}

pub struct CalendarEvent {
    pub id: i64,
    pub calendar_id: i64,
    pub title: String,
    pub description: String,
    pub location: String,
    pub dtstart: i64,
    pub dtend: i64,
    pub all_day: bool,
    pub duration: Option<String>,
    pub timezone: String,
    pub end_timezone: Option<String>,
    pub rrule: Option<String>,
    pub has_alarm: bool,
    pub color: Option<i32>,
}

pub struct CalendarReminder {
    pub id: i64,
    pub event_id: i64,
    pub minutes: i32,
    pub method: i32,
}

pub struct CalendarData {
    pub calendars: Vec<CalendarAccount>,
    pub events: Vec<CalendarEvent>,
    pub reminders: Vec<CalendarReminder>,
    pub next_event_id: i64,
    pub next_reminder_id: i64,
}

/// The store as a value.
pub struct CalendarState {
    pub calendars: Seq<CalendarAccount>,
    pub events: Seq<CalendarEvent>,
    pub reminders: Seq<CalendarReminder>,
    pub next_event_id: i64,
    pub next_reminder_id: i64,
}

pub open spec fn state_of(d: CalendarData) -> CalendarState {
    CalendarState {
        calendars: d.calendars@,
        events: d.events@,
        reminders: d.reminders@,
        next_event_id: d.next_event_id,
        next_reminder_id: d.next_reminder_id,
    }
}

/// Every event and reminder id is below the next one to hand out, and no
/// id is used twice.
pub open spec fn ids_fresh(s: CalendarState) -> bool {
    &&& forall|i: int| 0 <= i < s.events.len() ==> (#[trigger] s.events[i]).id < s.next_event_id
    &&& forall|i: int, j: int| 0 <= i < j < s.events.len() ==> (#[trigger] s.events[i]).id != (#[trigger] s.events[j]).id
    &&& forall|i: int| 0 <= i < s.reminders.len() ==> (#[trigger] s.reminders[i]).id < s.next_reminder_id
    &&& forall|i: int, j: int| 0 <= i < j < s.reminders.len() ==> (#[trigger] s.reminders[i]).id != (#[trigger] s.reminders[j]).id
}

/// Every event id is below `next` and no two events share one.
pub open spec fn event_ids_fresh(events: Seq<CalendarEvent>, next: i64) -> bool {
    &&& forall|i: int| 0 <= i < events.len() ==> (#[trigger] events[i]).id < next
    &&& forall|i: int, j: int| 0 <= i < j < events.len() ==> (#[trigger] events[i]).id != (#[trigger] events[j]).id
}

/// Every reminder id is below `next` and no two reminders share one.
pub open spec fn reminder_ids_fresh(reminders: Seq<CalendarReminder>, next: i64) -> bool {
    &&& forall|i: int| 0 <= i < reminders.len() ==> (#[trigger] reminders[i]).id < next
    &&& forall|i: int, j: int| 0 <= i < j < reminders.len() ==> (#[trigger] reminders[i]).id != (#[trigger] reminders[j]).id
}

/// The default calendar colour (0xFF00897B, teal).
pub const DEFAULT_COLOR: i32 = -14575885;

/// Sample event times: the next half hour after the current hour, one hour
/// long, and the same a day later.
pub open spec fn sample_times(now_ms: int) -> (int, int, int, int) {
    let start1 = (now_ms / 3_600_000) * 3_600_000 + 1_800_000;
    (start1, start1 + 3_600_000, start1 + 86_400_000, start1 + 86_400_000 + 3_600_000)
}

impl CalendarData {
    /// The data a new device starts with: one local calendar in time zone
    /// `tz` and two sample all-day events near `now_ms`.
    pub fn default_data(tz: &str, now_ms: i64) -> (d: Self)
        requires
            0 <= now_ms <= i64::MAX - 100_000_000,
        ensures
            d.calendars@.len() == 1,
            d.calendars@[0].id == 1,
            d.calendars@[0].name@ == "Local Calendar"@,
            d.calendars@[0].display_name@ == "Personal"@,
            d.calendars@[0].account_name@ == "local"@,
            d.calendars@[0].account_type@ == "LOCAL"@,
            d.calendars@[0].owner_account@ == "local@aro"@,
            d.calendars@[0].color == DEFAULT_COLOR,
            d.calendars@[0].timezone@ == tz@,
            d.calendars@[0].visible && d.calendars@[0].sync_events,
            d.events@.len() == 2,
            d.events@[0].id == 1 && d.events@[1].id == 2,
            d.events@[0].calendar_id == 1 && d.events@[1].calendar_id == 1,
            d.events@[0].title@ == "ARO Verification"@,
            d.events@[0].description@ == "Verify Calendar app and provider in ARO runtime"@,
            d.events@[0].location@ == "Linux Desktop"@,
            d.events@[1].title@ == "Team Standup"@,
            d.events@[1].description@ == "Daily team check-in"@,
            d.events@[1].location@ == "Office"@,
            (d.events@[0].dtstart as int, d.events@[0].dtend as int, d.events@[1].dtstart as int, d.events@[1].dtend as int)
                == sample_times(now_ms as int),
            d.events@[0].all_day && d.events@[1].all_day,
            !d.events@[0].has_alarm && !d.events@[1].has_alarm,
            d.events@[0].timezone@ == tz@ && d.events@[1].timezone@ == tz@,
            d.events@[0].duration is None && d.events@[1].duration is None,
            d.events@[0].end_timezone is None && d.events@[1].end_timezone is None,
            d.events@[0].rrule is None && d.events@[1].rrule is None,
            d.events@[0].color == Some(DEFAULT_COLOR),
            d.events@[1].color == Some(-11751600i32),
            d.reminders@.len() == 0,
            d.next_event_id == 3,
            d.next_reminder_id == 1,
            ids_fresh(state_of(d)),
    {
        let cal = CalendarAccount {
            id: 1,
            name: "Local Calendar".to_owned(),
            display_name: "Personal".to_owned(),
            account_name: "local".to_owned(),
            account_type: "LOCAL".to_owned(),
            owner_account: "local@aro".to_owned(),
            color: DEFAULT_COLOR,
            timezone: tz.to_owned(),
            visible: true,
            sync_events: true,
        };
        let start1 = (now_ms / 3_600_000) * 3_600_000 + 1_800_000;
        let end1 = start1 + 3_600_000;
        let start2 = start1 + 86_400_000;
        let end2 = start2 + 3_600_000;
        let sample1 = CalendarEvent {
            id: 1,
            calendar_id: 1,
            title: "ARO Verification".to_owned(),
            description: "Verify Calendar app and provider in ARO runtime".to_owned(),
            location: "Linux Desktop".to_owned(),
            dtstart: start1,
            dtend: end1,
            all_day: true,
            duration: None,
            timezone: tz.to_owned(),
            end_timezone: None,
            rrule: None,
            has_alarm: false,
            color: Some(DEFAULT_COLOR),
        };
        let sample2 = CalendarEvent {
            id: 2,
            calendar_id: 1,
            title: "Team Standup".to_owned(),
            description: "Daily team check-in".to_owned(),
            location: "Office".to_owned(),
            dtstart: start2,
            dtend: end2,
            all_day: true,
            duration: None,
            timezone: tz.to_owned(),
            end_timezone: None,
            rrule: None,
            has_alarm: false,
            color: Some(-11751600),
        };
        CalendarData {
            calendars: vec![cal],
            events: vec![sample1, sample2],
            reminders: Vec::new(),
            next_event_id: 3,
            next_reminder_id: 1,
        }
    }
}

/// The events other than those with id `id`, in order.
pub open spec fn events_without(es: Seq<CalendarEvent>, id: i64) -> Seq<CalendarEvent>
    decreases es.len(),
{
    if es.len() == 0 {
        es
    } else if es.last().id == id {
        events_without(es.drop_last(), id)
    } else {
        events_without(es.drop_last(), id).push(es.last())
    }
}

/// The reminders of events other than `id`, in order.
pub open spec fn reminders_without(rs: Seq<CalendarReminder>, id: i64) -> Seq<CalendarReminder>
    decreases rs.len(),
{
    if rs.len() == 0 {
        rs
    } else if rs.last().event_id == id {
        reminders_without(rs.drop_last(), id)
    } else {
        reminders_without(rs.drop_last(), id).push(rs.last())
    }
}

/// The fields an UPDATE sets; absent ones are left alone.
pub struct EventChanges {
    pub title: Option<String>,
    pub description: Option<String>,
    pub location: Option<String>,
    pub dtstart: Option<i64>,
    pub dtend: Option<i64>,
    pub all_day: Option<bool>,
    pub timezone: Option<String>,
    pub rrule: Option<String>,
    pub has_alarm: Option<bool>,
}

pub open spec fn pick<T>(o: Option<T>, d: T) -> T {
    match o {
        Some(v) => v,
        None => d,
    }
}

/// An event with a set of changes applied.
pub open spec fn changed(e: CalendarEvent, c: EventChanges) -> CalendarEvent {
    CalendarEvent {
        title: pick(c.title, e.title),
        description: pick(c.description, e.description),
        location: pick(c.location, e.location),
        dtstart: pick(c.dtstart, e.dtstart),
        dtend: pick(c.dtend, e.dtend),
        all_day: pick(c.all_day, e.all_day),
        timezone: pick(c.timezone, e.timezone),
        rrule: match c.rrule {
            Some(r) => Some(r),
            None => e.rrule,
        },
        has_alarm: pick(c.has_alarm, e.has_alarm),
        ..e
    }
}

/// The first event with id `id`.
pub open spec fn first_event_at(es: Seq<CalendarEvent>, id: i64, i: int) -> bool {
    0 <= i < es.len() && es[i].id == id && forall|j: int| 0 <= j < i ==> es[j].id != id
}

/// The store after INSERT of an event: it gets the next event id.
pub open spec fn after_insert_event(s: CalendarState, e: CalendarEvent) -> CalendarState {
    CalendarState {
        events: s.events.push(CalendarEvent { id: s.next_event_id, ..e }),
        next_event_id: (s.next_event_id + 1) as i64,
        ..s
    }
}

/// The store after INSERT of a reminder: it gets the next reminder id.
pub open spec fn after_insert_reminder(s: CalendarState, r: CalendarReminder) -> CalendarState {
    CalendarState {
        reminders: s.reminders.push(CalendarReminder { id: s.next_reminder_id, ..r }),
        next_reminder_id: (s.next_reminder_id + 1) as i64,
        ..s
    }
}

/// The store after DELETE of event `id`: the event and its reminders go.
pub open spec fn after_delete(s: CalendarState, id: i64) -> CalendarState {
    CalendarState { events: events_without(s.events, id), reminders: reminders_without(s.reminders, id), ..s }
}

/// The store after UPDATE of event `id`: the first event with that id
/// takes the changes.
pub open spec fn after_update(s: CalendarState, id: i64, c: EventChanges) -> CalendarState {
    if exists|i: int| first_event_at(s.events, id, i) {
        let i = choose|i: int| first_event_at(s.events, id, i);
        CalendarState { events: s.events.update(i, changed(s.events[i], c)), ..s }
    } else {
        s
    }
}

fn copy_opt(o: &Option<String>) -> (r: Option<String>)
    ensures
        r == *o,
{
    match o {
        Some(s) => Some(s.clone()),
        None => None,
    }
}

/// The calendar store.
pub struct CalendarService {
    pub data: CalendarData,
}

impl CalendarService {
    pub fn new(data: CalendarData) -> (s: Self)
        ensures
            s.data == data,
    {
        CalendarService { data }
    }

    /// Stores a new event under the next event id and returns that id.
    pub fn insert_event(&mut self, event: CalendarEvent) -> (id: i64)
        requires
            old(self).data.next_event_id < i64::MAX,
        ensures
            id == old(self).data.next_event_id,
            state_of(final(self).data) == after_insert_event(state_of(old(self).data), event),
            event_ids_fresh(old(self).data.events@, old(self).data.next_event_id) ==> {
                &&& event_ids_fresh(final(self).data.events@, final(self).data.next_event_id)
                &&& forall|i: int| 0 <= i < old(self).data.events@.len() ==> (#[trigger] old(self).data.events@[i]).id != id
            },
    {
        let mut event = event;
        let id = self.data.next_event_id;
        self.data.next_event_id = id + 1;
        event.id = id;
        self.data.events.push(event);
        id
    }

    /// Stores a new reminder under the next reminder id and returns that id.
    pub fn insert_reminder(&mut self, reminder: CalendarReminder) -> (id: i64)
        requires
            old(self).data.next_reminder_id < i64::MAX,
        ensures
            id == old(self).data.next_reminder_id,
            state_of(final(self).data) == after_insert_reminder(state_of(old(self).data), reminder),
            reminder_ids_fresh(old(self).data.reminders@, old(self).data.next_reminder_id) ==> {
                &&& reminder_ids_fresh(final(self).data.reminders@, final(self).data.next_reminder_id)
                &&& forall|i: int| 0 <= i < old(self).data.reminders@.len() ==> (#[trigger] old(self).data.reminders@[i]).id != id
            },
    {
        let mut reminder = reminder;
        let id = self.data.next_reminder_id;
        self.data.next_reminder_id = id + 1;
        reminder.id = id;
        self.data.reminders.push(reminder);
        id
    }

    /// Applies `changes` to the event with id `id`; false when there is none.
    pub fn update_event(&mut self, id: i64, changes: &EventChanges) -> (found: bool)
        ensures
            found == exists|i: int| first_event_at(old(self).data.events@, id, i),
            state_of(final(self).data) == after_update(state_of(old(self).data), id, *changes),
    {
        let mut i: usize = 0;
        while i < self.data.events.len()
            invariant
                i <= self.data.events@.len(),
                forall|j: int| 0 <= j < i ==> self.data.events@[j].id != id,
                state_of(self.data) == state_of(old(self).data),
            decreases self.data.events.len() - i,
        {
            if self.data.events[i].id == id {
                proof {
                    assert(first_event_at(self.data.events@, id, i as int));
                    let k = choose|k: int| first_event_at(self.data.events@, id, k);
                    assert(k == i as int) by {
                        if k < i {
                        } else if k > i {
                        }
                    }
                }
                let old_ev = &self.data.events[i];
                let ev = CalendarEvent {
                    id: old_ev.id,
                    calendar_id: old_ev.calendar_id,
                    title: match &changes.title {
                        Some(t) => t.clone(),
                        None => old_ev.title.clone(),
                    },
                    description: match &changes.description {
                        Some(t) => t.clone(),
                        None => old_ev.description.clone(),
                    },
                    location: match &changes.location {
                        Some(t) => t.clone(),
                        None => old_ev.location.clone(),
                    },
                    dtstart: match changes.dtstart {
                        Some(v) => v,
                        None => old_ev.dtstart,
                    },
                    dtend: match changes.dtend {
                        Some(v) => v,
                        None => old_ev.dtend,
                    },
                    all_day: match changes.all_day {
                        Some(v) => v,
                        None => old_ev.all_day,
                    },
                    duration: copy_opt(&old_ev.duration),
                    timezone: match &changes.timezone {
                        Some(t) => t.clone(),
                        None => old_ev.timezone.clone(),
                    },
                    end_timezone: copy_opt(&old_ev.end_timezone),
                    rrule: match &changes.rrule {
                        Some(r) => Some(r.clone()),
                        None => copy_opt(&old_ev.rrule),
                    },
                    has_alarm: match changes.has_alarm {
                        Some(v) => v,
                        None => old_ev.has_alarm,
                    },
                    color: old_ev.color,
                };
                self.data.events.set(i, ev);
                proof {
                    assert(state_of(self.data) =~= after_update(state_of(old(self).data), id, *changes));
                }
                return true;
            }
            i = i + 1;
        }
        proof {
            assert forall|k: int| !first_event_at(old(self).data.events@, id, k) by {
            }
        }
        false
    }

    /// Deletes the event with id `id` and its reminders; true when an event
    /// went.
    pub fn delete_event(&mut self, id: i64) -> (removed: bool)
        ensures
            state_of(final(self).data) == after_delete(state_of(old(self).data), id),
            removed == (events_without(old(self).data.events@, id).len() < old(self).data.events@.len()),
            removed == exists|i: int| 0 <= i < old(self).data.events@.len() && old(self).data.events@[i].id == id,
    {
        let ghost es = self.data.events@;
        let mut events: Vec<CalendarEvent> = Vec::new();
        std::mem::swap(&mut events, &mut self.data.events);
        let mut kept: Vec<CalendarEvent> = Vec::new();
        let mut found = false;
        proof {
            assert(es.take(0) =~= Seq::<CalendarEvent>::empty());
            assert(es.skip(0) =~= es);
        }
        while events.len() > 0
            invariant
                events@.len() <= es.len(),
                events@ == es.skip(es.len() - events@.len()),
                kept@ == events_without(es.take(es.len() - events@.len()), id),
                kept@.len() <= es.len() - events@.len(),
                found == (kept@.len() < es.len() - events@.len()),
                found == exists|j: int| 0 <= j < es.len() - events@.len() && es[j].id == id,
            decreases events.len(),
        {
            let ghost c = es.len() - events@.len();
            let e = events.remove(0);
            proof {
                assert(e == es[c]);
                assert(es.take(c + 1).drop_last() =~= es.take(c));
                assert(es.take(c + 1).last() == es[c]);
                assert(events@ =~= es.skip(c + 1));
            }
            if e.id != id {
                kept.push(e);
            } else {
                found = true;
            }
            proof {
                if exists|j: int| 0 <= j < c + 1 && es[j].id == id {
                    let j = choose|j: int| 0 <= j < c + 1 && es[j].id == id;
                    if j < c {
                    }
                }
            }
        }
        proof {
            assert(es.take(es.len() as int) =~= es);
        }
        self.data.events = kept;
        let ghost rs = self.data.reminders@;
        let mut reminders: Vec<CalendarReminder> = Vec::new();
        std::mem::swap(&mut reminders, &mut self.data.reminders);
        let mut keep_r: Vec<CalendarReminder> = Vec::new();
        proof {
            assert(rs.take(0) =~= Seq::<CalendarReminder>::empty());
            assert(rs.skip(0) =~= rs);
        }
        while reminders.len() > 0
            invariant
                reminders@.len() <= rs.len(),
                reminders@ == rs.skip(rs.len() - reminders@.len()),
                keep_r@ == reminders_without(rs.take(rs.len() - reminders@.len()), id),
            decreases reminders.len(),
        {
            let ghost c = rs.len() - reminders@.len();
            let r = reminders.remove(0);
            proof {
                assert(r == rs[c]);
                assert(rs.take(c + 1).drop_last() =~= rs.take(c));
                assert(rs.take(c + 1).last() == rs[c]);
                assert(reminders@ =~= rs.skip(c + 1));
            }
            if r.event_id != id {
                keep_r.push(r);
            }
        }
        proof {
            assert(rs.take(rs.len() as int) =~= rs);
        }
        self.data.reminders = keep_r;
        found
    }
}

/// Inserting an event hands out an id no stored event has, and every
/// operation keeps ids below the next one and unique.
pub proof fn law_edits_keep_ids_fresh(s: CalendarState, e: CalendarEvent, r: CalendarReminder, id: i64, c: EventChanges)
    requires
        ids_fresh(s),
        s.next_event_id < i64::MAX,
        s.next_reminder_id < i64::MAX,
    ensures
        forall|i: int| 0 <= i < s.events.len() ==> (#[trigger] s.events[i]).id != s.next_event_id,
        ids_fresh(after_insert_event(s, e)),
        ids_fresh(after_insert_reminder(s, r)),
        ids_fresh(after_delete(s, id)),
        ids_fresh(after_update(s, id, c)),
{
    lemma_events_without_sub(s.events, id);
    lemma_reminders_without_sub(s.reminders, id);
    let d = after_delete(s, id);
    assert forall|i: int, j: int| 0 <= i < j < d.events.len() implies (#[trigger] d.events[i]).id != (#[trigger] d.events[j]).id by {
        lemma_events_without_order(s.events, id, i, j);
    }
    assert forall|i: int, j: int| 0 <= i < j < d.reminders.len() implies (#[trigger] d.reminders[i]).id != (#[trigger] d.reminders[j]).id by {
        lemma_reminders_without_order(s.reminders, id, i, j);
    }
}

/// Every kept event is one of the events it was kept from.
proof fn lemma_events_without_sub(es: Seq<CalendarEvent>, id: i64)
    ensures
        events_without(es, id).len() <= es.len(),
        forall|i: int| 0 <= i < events_without(es, id).len() ==> exists|j: int| 0 <= j < es.len() && #[trigger] events_without(es, id)[i] == es[j],
        forall|i: int| 0 <= i < events_without(es, id).len() ==> (#[trigger] events_without(es, id)[i]).id != id,
    decreases es.len(),
{
    if es.len() > 0 {
        lemma_events_without_sub(es.drop_last(), id);
        let w = events_without(es, id);
        let w0 = events_without(es.drop_last(), id);
        assert forall|i: int| 0 <= i < w.len() implies exists|j: int| 0 <= j < es.len() && #[trigger] w[i] == es[j] by {
            if i < w0.len() {
                assert(w[i] == w0[i]);
                let j = choose|j: int| 0 <= j < es.drop_last().len() && w0[i] == es.drop_last()[j];
                assert(es[j] == es.drop_last()[j]);
            } else {
                assert(w[i] == es.last());
            }
        }
        assert forall|i: int| 0 <= i < w.len() implies (#[trigger] w[i]).id != id by {
            if i < w0.len() {
                assert(w[i] == w0[i]);
            }
        }
    }
}

/// Kept events keep the order they had.
proof fn lemma_events_without_order(es: Seq<CalendarEvent>, id: i64, i: int, j: int)
    requires
        0 <= i < j < events_without(es, id).len(),
    ensures
        exists|a: int, b: int| 0 <= a < b < es.len() && events_without(es, id)[i] == es[a] && events_without(es, id)[j] == es[b],
    decreases es.len(),
{
    let w = events_without(es, id);
    let w0 = events_without(es.drop_last(), id);
    lemma_events_without_sub(es.drop_last(), id);
    if j < w0.len() {
        lemma_events_without_order(es.drop_last(), id, i, j);
        let (a, b) = choose|a: int, b: int| 0 <= a < b < es.drop_last().len() && w0[i] == es.drop_last()[a] && w0[j] == es.drop_last()[b];
        assert(w[i] == w0[i] && w[j] == w0[j]);
        assert(es[a] == es.drop_last()[a] && es[b] == es.drop_last()[b]);
    } else {
        assert(w[j] == es.last());
        assert(w[i] == w0[i]);
        let a = choose|a: int| 0 <= a < es.drop_last().len() && w0[i] == es.drop_last()[a];
        assert(es[a] == es.drop_last()[a]);
        assert(w[i] == es[a] && w[j] == es[es.len() - 1]);
    }
}

proof fn lemma_reminders_without_sub(rs: Seq<CalendarReminder>, id: i64)
    ensures
        reminders_without(rs, id).len() <= rs.len(),
        forall|i: int| 0 <= i < reminders_without(rs, id).len() ==> exists|j: int| 0 <= j < rs.len() && #[trigger] reminders_without(rs, id)[i] == rs[j],
    decreases rs.len(),
{
    if rs.len() > 0 {
        lemma_reminders_without_sub(rs.drop_last(), id);
        let w = reminders_without(rs, id);
        let w0 = reminders_without(rs.drop_last(), id);
        assert forall|i: int| 0 <= i < w.len() implies exists|j: int| 0 <= j < rs.len() && #[trigger] w[i] == rs[j] by {
            if i < w0.len() {
                assert(w[i] == w0[i]);
                let j = choose|j: int| 0 <= j < rs.drop_last().len() && w0[i] == rs.drop_last()[j];
                assert(rs[j] == rs.drop_last()[j]);
            } else {
                assert(w[i] == rs.last());
            }
        }
    }
}

proof fn lemma_reminders_without_order(rs: Seq<CalendarReminder>, id: i64, i: int, j: int)
    requires
        0 <= i < j < reminders_without(rs, id).len(),
    ensures
        exists|a: int, b: int| 0 <= a < b < rs.len() && reminders_without(rs, id)[i] == rs[a] && reminders_without(rs, id)[j] == rs[b],
    decreases rs.len(),
{
    let w = reminders_without(rs, id);
    let w0 = reminders_without(rs.drop_last(), id);
    lemma_reminders_without_sub(rs.drop_last(), id);
    if j < w0.len() {
        lemma_reminders_without_order(rs.drop_last(), id, i, j);
        let (a, b) = choose|a: int, b: int| 0 <= a < b < rs.drop_last().len() && w0[i] == rs.drop_last()[a] && w0[j] == rs.drop_last()[b];
        assert(w[i] == w0[i] && w[j] == w0[j]);
        assert(rs[a] == rs.drop_last()[a] && rs[b] == rs.drop_last()[b]);
    } else {
        assert(w[j] == rs.last());
        assert(w[i] == w0[i]);
        let a = choose|a: int| 0 <= a < rs.drop_last().len() && w0[i] == rs.drop_last()[a];
        assert(rs[a] == rs.drop_last()[a]);
        assert(w[i] == rs[a] && w[j] == rs[rs.len() - 1]);
    }
}

/// Inserting an event keeps the events' ids fresh: the new id is none of
/// the stored ones, every stored event stays as it was and in order, and
/// all ids stay below the next one and distinct.
pub proof fn law_insert_event_fresh(s: CalendarState, e: CalendarEvent)
    requires
        event_ids_fresh(s.events, s.next_event_id),
        s.next_event_id < i64::MAX,
    ensures
        forall|i: int| 0 <= i < s.events.len() ==> (#[trigger] s.events[i]).id != s.next_event_id,
        after_insert_event(s, e).events.len() == s.events.len() + 1,
        forall|i: int| 0 <= i < s.events.len() ==> #[trigger] after_insert_event(s, e).events[i] == s.events[i],
        after_insert_event(s, e).events.last().id == s.next_event_id,
        event_ids_fresh(after_insert_event(s, e).events, after_insert_event(s, e).next_event_id),
{
}

/// After a delete no event with that id is left, nor any reminder of it.
pub proof fn law_delete_removes(s: CalendarState, id: i64)
    ensures
        forall|i: int| 0 <= i < after_delete(s, id).events.len() ==> (#[trigger] after_delete(s, id).events[i]).id != id,
        forall|i: int| 0 <= i < after_delete(s, id).reminders.len() ==> (#[trigger] after_delete(s, id).reminders[i]).event_id != id,
    decreases s.reminders.len(),
{
    lemma_events_without_sub(s.events, id);
    lemma_reminders_without_keep(s.reminders, id);
}

proof fn lemma_reminders_without_keep(rs: Seq<CalendarReminder>, id: i64)
    ensures
        forall|i: int| 0 <= i < reminders_without(rs, id).len() ==> (#[trigger] reminders_without(rs, id)[i]).event_id != id,
    decreases rs.len(),
{
    if rs.len() > 0 {
        lemma_reminders_without_keep(rs.drop_last(), id);
        let w = reminders_without(rs, id);
        let w0 = reminders_without(rs.drop_last(), id);
        assert forall|i: int| 0 <= i < w.len() implies (#[trigger] w[i]).event_id != id by {
            if i < w0.len() {
                assert(w[i] == w0[i]);
            }
        }
    }
}

/// An inserted event can be found again by the id INSERT handed back, and
/// carries what was inserted.
pub proof fn law_insert_then_find(s: CalendarState, e: CalendarEvent)
    requires
        ids_fresh(s),
    ensures
        first_event_at(after_insert_event(s, e).events, s.next_event_id, s.events.len() as int),
        after_insert_event(s, e).events[s.events.len() as int] == (CalendarEvent { id: s.next_event_id, ..e }),
{
}

/// The store read back from disk, completed from the defaults: no
/// calendars gives the default calendar; no events gives the sample events,
/// and then the next event id is at least 3.
pub open spec fn merged_spec(file: CalendarState, defaults: CalendarState) -> CalendarState {
    let with_cals = if file.calendars.len() == 0 { CalendarState { calendars: defaults.calendars, ..file } } else { file };
    if with_cals.events.len() == 0 {
        CalendarState {
            events: defaults.events,
            next_event_id: if with_cals.next_event_id <= 2 { 3 } else { with_cals.next_event_id },
            ..with_cals
        }
    } else {
        with_cals
    }
}

/// Data read back from disk that has calendars and events comes back as
/// it was written: completing it with defaults changes nothing.
pub proof fn law_reload_keeps_data(file: CalendarState, defaults: CalendarState)
    requires
        file.calendars.len() > 0,
        file.events.len() > 0,
    ensures
        merged_spec(file, defaults) == file,
{
}

/// Completing loaded data from fresh defaults keeps every id below the next
/// one to hand out and unique.
pub proof fn law_merge_keeps_ids_fresh(file: CalendarState, defaults: CalendarState)
    requires
        ids_fresh(file),
        ids_fresh(defaults),
        defaults.next_event_id <= 3,
    ensures
        ids_fresh(merged_spec(file, defaults)),
{
}

impl CalendarData {
    /// Completes data loaded from disk with `defaults` (see `merged_spec`).
    pub fn merge_loaded(self, defaults: CalendarData) -> (d: CalendarData)
        ensures
            state_of(d) == merged_spec(state_of(self), state_of(defaults)),
    {
        let mut file = self;
        let CalendarData { calendars, events, .. } = defaults;
        if file.calendars.len() == 0 {
            file.calendars = calendars;
        }
        if file.events.len() == 0 {
            file.events = events;
            if file.next_event_id <= 2 {
                file.next_event_id = 3;
            }
        }
        file
    }
}

// ---------------------------------------------------------------------------
// ContentValues
// ---------------------------------------------------------------------------

/// One value of a client's `ContentValues`. Floating-point values are
/// carried without their number: no calendar field reads one.
pub enum ContentValue {
    Null,
    Text(String),
    Integer(i64),
    Real,
}

pub enum ValueView {
    Null,
    Text(Seq<char>),
    Integer(i64),
    Real,
}

pub open spec fn value_view(v: ContentValue) -> ValueView {
    match v {
        ContentValue::Null => ValueView::Null,
        ContentValue::Text(s) => ValueView::Text(s@),
        ContentValue::Integer(i) => ValueView::Integer(i),
        ContentValue::Real => ValueView::Real,
    }
}

/// The key/value pairs in the order the parcel carries them; a later pair
/// replaces an earlier one with the same key.
pub struct ContentValues {
    pub entries: Vec<(String, ContentValue)>,
}

pub open spec fn values_view(e: Seq<(String, ContentValue)>) -> Seq<(Seq<char>, ValueView)> {
    e.map_values(|p: (String, ContentValue)| (p.0@, value_view(p.1)))
}

/// The value of `key`: the last pair with that key.
pub open spec fn value_of(e: Seq<(Seq<char>, ValueView)>, key: Seq<char>) -> Option<ValueView>
    decreases e.len(),
{
    if e.len() == 0 {
        None
    } else if e.last().0 == key {
        Some(e.last().1)
    } else {
        value_of(e.drop_last(), key)
    }
}

pub open spec fn get_str_spec(e: Seq<(Seq<char>, ValueView)>, key: Seq<char>) -> Option<Seq<char>> {
    match value_of(e, key) {
        Some(ValueView::Text(s)) => Some(s),
        _ => None,
    }
}

pub open spec fn get_i64_spec(e: Seq<(Seq<char>, ValueView)>, key: Seq<char>) -> Option<i64> {
    match value_of(e, key) {
        Some(ValueView::Integer(i)) => Some(i),
        Some(ValueView::Text(s)) => parse_i64_spec(s),
        _ => None,
    }
}

pub open spec fn get_bool_spec(e: Seq<(Seq<char>, ValueView)>, key: Seq<char>) -> bool {
    match value_of(e, key) {
        Some(ValueView::Integer(i)) => i != 0,
        Some(ValueView::Text(s)) => s == "1"@ || eq_ignore_case(s, "true"@),
        _ => false,
    }
}

impl ContentValues {
    pub open spec fn view(&self) -> Seq<(Seq<char>, ValueView)> {
        values_view(self.entries@)
    }

    fn last_index(&self, key: &str) -> (r: Option<usize>)
        ensures
            match r {
                Some(i) => i < self.entries@.len() && match value_of(self@, key@) {
                    Some(v) => v == value_view(self.entries@[i as int].1),
                    None => false,
                },
                None => value_of(self@, key@) is None,
            },
    {
        let k = chars_of(key);
        let mut i: usize = self.entries.len();
        proof {
            assert(self@.take(self@.len() as int) =~= self@);
        }
        while i > 0
            invariant
                k@ == key@,
                i <= self.entries@.len(),
                value_of(self@, key@) == value_of(self@.take(i as int), key@),
            decreases i,
        {
            let e = chars_of(self.entries[i - 1].0.as_str());
            proof {
                assert(self@.take(i as int).drop_last() =~= self@.take(i - 1));
                assert(self@.take(i as int).last() == self@[i - 1]);
            }
            if crate::text::same(e.as_slice(), k.as_slice()) {
                return Some(i - 1);
            }
            i = i - 1;
        }
        proof {
            assert(self@.take(0) =~= Seq::<(Seq<char>, ValueView)>::empty());
        }
        None
    }

    /// `ContentValues.containsKey`.
    pub fn contains_key(&self, key: &str) -> (r: bool)
        ensures
            r == value_of(self@, key@) is Some,
    {
        proof {
            assert(self@.take(self@.len() as int) =~= self@);
        }
        self.last_index(key).is_some()
    }

    /// The text value of `key`.
    pub fn get_str(&self, key: &str) -> (r: Option<String>)
        ensures
            match r {
                Some(s) => get_str_spec(self@, key@) == Some(s@),
                None => get_str_spec(self@, key@) is None,
            },
    {
        proof {
            assert(self@.take(self@.len() as int) =~= self@);
        }
        match self.last_index(key) {
            Some(i) => match &self.entries[i].1 {
                ContentValue::Text(s) => Some(s.clone()),
                _ => None,
            },
            None => None,
        }
    }

    /// The integer value of `key` (text is parsed).
    pub fn get_i64(&self, key: &str) -> (r: Option<i64>)
        ensures
            r == get_i64_spec(self@, key@),
    {
        proof {
            assert(self@.take(self@.len() as int) =~= self@);
        }
        match self.last_index(key) {
            Some(i) => match &self.entries[i].1 {
                ContentValue::Integer(v) => Some(*v),
                ContentValue::Text(s) => {
                    let c = chars_of(s.as_str());
                    parse_i64(c.as_slice())
                },
                _ => None,
            },
            None => None,
        }
    }

    /// The flag value of `key`: a nonzero integer, or the text `1` or
    /// `true` in any case.
    pub fn get_bool(&self, key: &str) -> (r: bool)
        ensures
            r == get_bool_spec(self@, key@),
    {
        proof {
            assert(self@.take(self@.len() as int) =~= self@);
        }
        match self.last_index(key) {
            Some(i) => match &self.entries[i].1 {
                ContentValue::Integer(v) => *v != 0,
                ContentValue::Text(s) => {
                    let c = chars_of(s.as_str());
                    is(c.as_slice(), "1") || is_ignore_case(c.as_slice(), "true")
                },
                _ => false,
            },
            None => false,
        }
    }
}

// ---------------------------------------------------------------------------
// Events from values
// ---------------------------------------------------------------------------

/// An event as a value.
pub struct EventView {
    pub id: i64,
    pub calendar_id: i64,
    pub title: Seq<char>,
    pub description: Seq<char>,
    pub location: Seq<char>,
    pub dtstart: i64,
    pub dtend: i64,
    pub all_day: bool,
    pub duration: Option<Seq<char>>,
    pub timezone: Seq<char>,
    pub end_timezone: Option<Seq<char>>,
    pub rrule: Option<Seq<char>>,
    pub has_alarm: bool,
    pub color: Option<i32>,
}

pub open spec fn opt_seq(o: Option<String>) -> Option<Seq<char>> {
    match o {
        Some(s) => Some(s@),
        None => None,
    }
}

pub open spec fn event_view(e: CalendarEvent) -> EventView {
    EventView {
        id: e.id,
        calendar_id: e.calendar_id,
        title: e.title@,
        description: e.description@,
        location: e.location@,
        dtstart: e.dtstart,
        dtend: e.dtend,
        all_day: e.all_day,
        duration: opt_seq(e.duration),
        timezone: e.timezone@,
        end_timezone: opt_seq(e.end_timezone),
        rrule: opt_seq(e.rrule),
        has_alarm: e.has_alarm,
        color: e.color,
    }
}

/// The start an inserted event gets: its `dtstart`, else the current time.
pub open spec fn start_of(e: Seq<(Seq<char>, ValueView)>, now_ms: i64) -> i64 {
    pick(get_i64_spec(e, "dtstart"@), now_ms)
}

/// An INSERT's values can be stored: when `dtend` is absent, an hour after
/// the start still fits in 64 bits.
pub open spec fn insertable(e: Seq<(Seq<char>, ValueView)>, now_ms: i64) -> bool {
    get_i64_spec(e, "dtend"@) is None ==> start_of(e, now_ms) + 3_600_000 <= i64::MAX
}

/// The event an INSERT on the events table creates (id still 0): title
/// `New Event`, no description or location, starting now and lasting an
/// hour, in UTC, in calendar 1, unless the values say otherwise.
pub open spec fn event_spec(e: Seq<(Seq<char>, ValueView)>, now_ms: i64) -> EventView {
    let dtstart = start_of(e, now_ms);
    EventView {
        id: 0,
        calendar_id: pick(get_i64_spec(e, "calendar_id"@), 1),
        title: pick(get_str_spec(e, "title"@), "New Event"@),
        description: pick(get_str_spec(e, "description"@), Seq::empty()),
        location: pick(get_str_spec(e, "eventLocation"@), Seq::empty()),
        dtstart,
        dtend: pick(get_i64_spec(e, "dtend"@), (dtstart + 3_600_000) as i64),
        all_day: get_bool_spec(e, "allDay"@),
        duration: None,
        timezone: pick(get_str_spec(e, "eventTimezone"@), "UTC"@),
        end_timezone: None,
        rrule: get_str_spec(e, "rrule"@),
        has_alarm: get_bool_spec(e, "hasAlarm"@),
        color: match get_i64_spec(e, "eventColor"@) {
            Some(c) => Some(c as i32),
            None => None,
        },
    }
}

fn str_or(o: Option<String>, d: &str) -> (r: String)
    ensures
        r@ == pick(opt_seq(o), d@),
{
    match o {
        Some(s) => s,
        None => d.to_owned(),
    }
}

/// The event an INSERT's values describe (`now_ms` is the current time).
pub fn event_from_values(values: &ContentValues, now_ms: i64) -> (r: CalendarEvent)
    requires
        insertable(values@, now_ms),
    ensures
        event_view(r) == event_spec(values@, now_ms),
{
    let title = str_or(values.get_str("title"), "New Event");
    let description = str_or(values.get_str("description"), "");
    let location = str_or(values.get_str("eventLocation"), "");
    proof {
        reveal_strlit("");
        assert(""@ =~= Seq::<char>::empty());
    }
    let dtstart = match values.get_i64("dtstart") {
        Some(v) => v,
        None => now_ms,
    };
    let dtend = match values.get_i64("dtend") {
        Some(v) => v,
        None => dtstart + 3_600_000,
    };
    let all_day = values.get_bool("allDay");
    let timezone = str_or(values.get_str("eventTimezone"), "UTC");
    let rrule = values.get_str("rrule");
    let has_alarm = values.get_bool("hasAlarm");
    let calendar_id = match values.get_i64("calendar_id") {
        Some(v) => v,
        None => 1,
    };
    let color = match values.get_i64("eventColor") {
        Some(c) => Some(#[verifier::truncate] (c as i32)),
        None => None,
    };
    let r = CalendarEvent {
        id: 0,
        calendar_id,
        title,
        description,
        location,
        dtstart,
        dtend,
        all_day,
        duration: None,
        timezone,
        end_timezone: None,
        rrule,
        has_alarm,
        color,
    };
    r
}

/// The changes an UPDATE's values describe: text and time fields that are
/// present, and flags whose keys are present.
pub open spec fn changes_spec(e: Seq<(Seq<char>, ValueView)>) -> (Option<Seq<char>>, Option<Seq<char>>, Option<Seq<char>>, Option<i64>, Option<i64>, Option<bool>, Option<Seq<char>>, Option<Seq<char>>, Option<bool>) {
    (
        get_str_spec(e, "title"@),
        get_str_spec(e, "description"@),
        get_str_spec(e, "eventLocation"@),
        get_i64_spec(e, "dtstart"@),
        get_i64_spec(e, "dtend"@),
        if value_of(e, "allDay"@) is Some { Some(get_bool_spec(e, "allDay"@)) } else { None },
        get_str_spec(e, "eventTimezone"@),
        get_str_spec(e, "rrule"@),
        if value_of(e, "hasAlarm"@) is Some { Some(get_bool_spec(e, "hasAlarm"@)) } else { None },
    )
}

pub open spec fn changes_view(c: EventChanges) -> (Option<Seq<char>>, Option<Seq<char>>, Option<Seq<char>>, Option<i64>, Option<i64>, Option<bool>, Option<Seq<char>>, Option<Seq<char>>, Option<bool>) {
    (opt_seq(c.title), opt_seq(c.description), opt_seq(c.location), c.dtstart, c.dtend, c.all_day, opt_seq(c.timezone), opt_seq(c.rrule), c.has_alarm)
}

pub fn changes_from_values(values: &ContentValues) -> (r: EventChanges)
    ensures
        changes_view(r) == changes_spec(values@),
{
    EventChanges {
        title: values.get_str("title"),
        description: values.get_str("description"),
        location: values.get_str("eventLocation"),
        dtstart: values.get_i64("dtstart"),
        dtend: values.get_i64("dtend"),
        all_day: if values.contains_key("allDay") { Some(values.get_bool("allDay")) } else { None },
        timezone: values.get_str("eventTimezone"),
        rrule: values.get_str("rrule"),
        has_alarm: if values.contains_key("hasAlarm") { Some(values.get_bool("hasAlarm")) } else { None },
    }
}

/// The reminder an INSERT on the reminders table creates (id still 0):
/// ten minutes before, as an alert, unless the values say otherwise.
pub open spec fn reminder_spec(e: Seq<(Seq<char>, ValueView)>) -> CalendarReminder {
    CalendarReminder {
        id: 0,
        event_id: pick(get_i64_spec(e, "event_id"@), 0),
        minutes: pick(get_i64_spec(e, "minutes"@), 10) as i32,
        method: pick(get_i64_spec(e, "method"@), 1) as i32,
    }
}

pub fn reminder_from_values(values: &ContentValues) -> (r: CalendarReminder)
    ensures
        r == reminder_spec(values@),
{
    let event_id = match values.get_i64("event_id") {
        Some(v) => v,
        None => 0,
    };
    let minutes = match values.get_i64("minutes") {
        Some(v) => v,
        None => 10,
    };
    let method = match values.get_i64("method") {
        Some(v) => v,
        None => 1,
    };
    CalendarReminder {
        id: 0,
        event_id,
        minutes: #[verifier::truncate] (minutes as i32),
        method: #[verifier::truncate] (method as i32),
    }
}

} // verus!

