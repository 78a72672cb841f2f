//! What the `com.android.calendar` provider answers: which table a URI
//! names, the instance window of an `instances` query, the rows and cells
//! of each table, the MIME type of a URI, and the edits that INSERT,
//! UPDATE, DELETE and APPLY_BATCH make to the store.
use vstd::prelude::*;
use crate::calendar::{
    after_delete, after_update, changes_from_values, changes_spec, changes_view, event_from_values,
    event_spec, event_view, events_without, first_event_at, insertable, pick, reminder_from_values,
    reminder_spec, state_of, CalendarAccount, CalendarData, CalendarEvent, CalendarReminder,
    CalendarService, ContentValues, EventChanges, EventView, DEFAULT_COLOR, get_i64_spec,
};
use crate::cursor::{cell_view, flag, row_view, text, text_of, Cell, CellView};
use crate::media::{trailing_id, trailing_id_spec};
use crate::select::{find_piece, pieces_view, position_of, split_all, split_pieces, indices_where, as_ints, lemma_indices_where};
use crate::text::{chars_of, concat, contains, has, is, parse_i64, parse_i64_spec, signed_decimal, signed_text};

verus! {

/// The table a provider URI names. The provider tests the names in this
/// order, by substring.
#[derive(PartialEq, Eq, Debug, Clone, Copy, Structural)]
pub enum CalendarTable {
    Calendars,
    Instances,
    Events,
    Colors,
    Reminders,
    Properties,
    Other,
}

pub open spec fn table_spec(uri: Seq<char>) -> CalendarTable {
    if contains(uri, "calendars"@) {
        CalendarTable::Calendars
    } else if contains(uri, "instances"@) {
        CalendarTable::Instances
    } else if contains(uri, "events"@) {
        CalendarTable::Events
    } else if contains(uri, "colors"@) {
        CalendarTable::Colors
    } else if contains(uri, "reminders"@) {
        CalendarTable::Reminders
    } else if contains(uri, "properties"@) {
        CalendarTable::Properties
    } else {
        CalendarTable::Other
    }
}

/// The table a QUERY on `uri` reads.
pub fn query_table(uri: &str) -> (t: CalendarTable)
    ensures
        t == table_spec(uri@),
{
    let u = chars_of(uri);
    if has(u.as_slice(), "calendars") {
        CalendarTable::Calendars
    } else if has(u.as_slice(), "instances") {
        CalendarTable::Instances
    } else if has(u.as_slice(), "events") {
        CalendarTable::Events
    } else if has(u.as_slice(), "colors") {
        CalendarTable::Colors
    } else if has(u.as_slice(), "reminders") {
        CalendarTable::Reminders
    } else if has(u.as_slice(), "properties") {
        CalendarTable::Properties
    } else {
        CalendarTable::Other
    }
}

// ---------------------------------------------------------------------------
// The instance window
// ---------------------------------------------------------------------------

/// The Julian day number of 1970-01-01.
pub const EPOCH_JULIAN_DAY: i64 = 2440588;

pub const DAY_MS: i64 = 86_400_000;

/// The piece after position `k + d`, parsed, or `d0` when it is missing or
/// does not parse; `absent` when there is no such piece.
pub open spec fn piece_num(parts: Seq<Seq<char>>, k: int, d: int, fallback: int, absent: int) -> int {
    if k + d < parts.len() {
        match parse_i64_spec(parts[k + d]) {
            Some(v) => v as int,
            None => fallback,
        }
    } else {
        absent
    }
}

/// The `[begin, end)` window of an instances URI, in milliseconds:
/// `.../when/<begin>/<end>` gives it directly, `.../whenbyday/<day>/<day>`
/// in Julian days widened by a day before and a day after; with neither,
/// every time.
pub open spec fn window_spec(uri: Seq<char>) -> (int, int) {
    let parts = split_all(uri, '/');
    match position_of(parts, "when"@) {
        Some(k) => (piece_num(parts, k, 1, 0, 0), piece_num(parts, k, 2, i64::MAX as int, i64::MAX as int)),
        None => match position_of(parts, "whenbyday"@) {
            Some(k) => (
                if k + 1 < parts.len() {
                    (piece_num(parts, k, 1, EPOCH_JULIAN_DAY as int, 0) - EPOCH_JULIAN_DAY - 1) * DAY_MS
                } else {
                    0
                },
                if k + 2 < parts.len() {
                    (piece_num(parts, k, 2, EPOCH_JULIAN_DAY + 36500, 0) - EPOCH_JULIAN_DAY + 2) * DAY_MS
                } else {
                    i64::MAX as int
                },
            ),
            None => (0, i64::MAX as int),
        },
    }
}

pub open spec fn fits_i64(x: int) -> bool {
    i64::MIN <= x <= i64::MAX
}

fn num_after(parts: &Vec<Vec<char>>, k: usize, d: usize, fallback: i64) -> (r: Option<i64>)
    requires
        k < parts@.len(),
        d <= 2,
    ensures
        match r {
            Some(v) => k + d < parts@.len() && v == piece_num(pieces_view(parts@), k as int, d as int, fallback as int, 0),
            None => k + d >= parts@.len(),
        },
{
    if d < parts.len() - k {
        proof {
            assert(pieces_view(parts@)[(k + d) as int] == parts@[(k + d) as int]@);
        }
        match parse_i64(parts[k + d].as_slice()) {
            Some(v) => Some(v),
            None => Some(fallback),
        }
    } else {
        None
    }
}

/// The instance window of `uri`; `None` when a day number puts an end of
/// the window outside the 64-bit range.
pub fn instance_window(uri: &str) -> (r: Option<(i64, i64)>)
    ensures
        match r {
            Some((b, e)) => (b as int, e as int) == window_spec(uri@),
            None => !fits_i64(window_spec(uri@).0) || !fits_i64(window_spec(uri@).1),
        },
{
    let u = chars_of(uri);
    let parts = split_pieces(u.as_slice(), '/');
    let ghost pv = pieces_view(parts@);
    match find_piece(&parts, "when") {
        Some(k) => {
            let begin = match num_after(&parts, k, 1, 0) {
                Some(v) => v,
                None => 0,
            };
            let end = match num_after(&parts, k, 2, i64::MAX) {
                Some(v) => v,
                None => i64::MAX,
            };
            Some((begin, end))
        },
        None => match find_piece(&parts, "whenbyday") {
            Some(k) => {
                let begin: i64 = match num_after(&parts, k, 1, EPOCH_JULIAN_DAY) {
                    Some(day) => {
                        let shifted = day as i128 - 2440588 - 1;
                        let ms = shifted * 86_400_000;
                        if ms < i64::MIN as i128 || ms > i64::MAX as i128 {
                            return None;
                        }
                        ms as i64
                    },
                    None => 0,
                };
                let end: i64 = match num_after(&parts, k, 2, EPOCH_JULIAN_DAY + 36500) {
                    Some(day) => {
                        let shifted = day as i128 - 2440588 + 2;
                        let ms = shifted * 86_400_000;
                        if ms < i64::MIN as i128 || ms > i64::MAX as i128 {
                            return None;
                        }
                        ms as i64
                    },
                    None => i64::MAX,
                };
                Some((begin, end))
            },
            None => Some((0, i64::MAX)),
        },
    }
}

/// An event shows in the window `[begin, end)`: it starts before the end
/// and ends after the start, or is an instant inside the closed window.
pub open spec fn overlaps(e: CalendarEvent, begin: i64, end: i64) -> bool {
    e.dtstart < end && (e.dtend > begin || (e.dtend == e.dtstart && e.dtstart >= begin && e.dtstart <= end))
}

pub open spec fn instance_positions(es: Seq<CalendarEvent>, begin: i64, end: i64) -> Seq<int> {
    indices_where(es.len() as int, |i: int| overlaps(es[i], begin, end))
}

/// The positions of the events an instances query over `[begin, end)`
/// returns, in store order.
pub fn instances_in(events: &Vec<CalendarEvent>, begin: i64, end: i64) -> (r: Vec<usize>)
    ensures
        as_ints(r@) == instance_positions(events@, begin, end),
{
    let ghost p = |i: int| overlaps(events@[i], begin, end);
    let mut out: Vec<usize> = Vec::new();
    let mut i: usize = 0;
    while i < events.len()
        invariant
            i <= events@.len(),
            p == (|i: int| overlaps(events@[i], begin, end)),
            as_ints(out@) == indices_where(i as int, p),
        decreases events.len() - i,
    {
        let e = &events[i];
        let hit = e.dtstart < end && (e.dtend > begin || (e.dtend == e.dtstart && e.dtstart >= begin && e.dtstart <= end));
        if hit {
            out.push(i);
            proof {
                assert(as_ints(out@) =~= indices_where(i as int, p).push(i as int));
            }
        }
        i = i + 1;
    }
    out
}

/// An instances query over `[begin, end)` lists, in store order and once
/// each, every event still running at some moment of the window (it starts
/// before `end` and ends after `begin`, whenever it started) and every
/// zero-length event inside the window; it lists no event that starts at or
/// after `end`, and none that ended by `begin` unless it is such an instant.
pub proof fn law_instances_cover_window(es: Seq<CalendarEvent>, begin: i64, end: i64)
    ensures
        forall|i: int| 0 <= i < es.len() && es[i].dtstart < end && es[i].dtend > begin
            ==> #[trigger] instance_positions(es, begin, end).contains(i),
        forall|i: int| 0 <= i < es.len() && es[i].dtend == es[i].dtstart && begin <= es[i].dtstart < end
            ==> #[trigger] instance_positions(es, begin, end).contains(i),
        forall|k: int| 0 <= k < instance_positions(es, begin, end).len() ==> {
            let e = es[#[trigger] instance_positions(es, begin, end)[k]];
            &&& 0 <= instance_positions(es, begin, end)[k] < es.len()
            &&& e.dtstart < end
            &&& (e.dtend > begin || (e.dtend == e.dtstart && e.dtstart >= begin))
        },
        forall|a: int, b: int| 0 <= a < b < instance_positions(es, begin, end).len()
            ==> #[trigger] instance_positions(es, begin, end)[a] < #[trigger] instance_positions(es, begin, end)[b],
{
    lemma_indices_where(es.len() as int, |i: int| overlaps(es[i], begin, end));
}

/// Rust's `/`, which rounds toward zero.
pub open spec fn div_toward_zero(a: int, d: int) -> int {
    if a >= 0 { a / d } else { -((-a) / d) }
}

/// The Julian day and minute of the day of an instant, given the local
/// offset from UTC (seconds) and the local clock time at that instant.
pub open spec fn julian_and_minute(millis: int, gmtoff: int, hour: int, minute: int) -> (int, int) {
    (EPOCH_JULIAN_DAY + div_toward_zero(millis + gmtoff * 1000, DAY_MS as int), hour * 60 + minute)
}

/// The local Julian day and minute of the day of `millis`.
pub fn local_julian_and_minute(millis: i64, gmtoff: i64, hour: i32, minute: i32) -> (r: (i64, i32))
    requires
        fits_i64(millis + gmtoff * 1000),
        i32::MIN <= hour * 60 + minute <= i32::MAX,
    ensures
        (r.0 as int, r.1 as int) == julian_and_minute(millis as int, gmtoff as int, hour as int, minute as int),
{
    let local: i128 = millis as i128 + gmtoff as i128 * 1000;
    let q: i128 = if local >= 0 { local / 86_400_000 } else { -((-local) / 86_400_000) };
    proof {
        assert(-9223372036854775808 <= local <= 9223372036854775807);
        if local >= 0 {
            assert(q <= local);
        } else {
            assert((-local) / 86_400_000 <= -local);
        }
    }
    let m: i64 = hour as i64 * 60 + minute as i64;
    ((q as i64) + 2440588, m as i32)
}

/// An instance that ends exactly at midnight after its start day ends at
/// minute 1440 of the previous day instead.
pub open spec fn end_adjusted(start_day: int, end_day: int, end_minute: int) -> (int, int) {
    if end_minute == 0 && end_day > start_day { (end_day - 1, 1440) } else { (end_day, end_minute) }
}

pub fn adjust_end(start_day: i64, end_day: i64, end_minute: i32) -> (r: (i64, i32))
    ensures
        (r.0 as int, r.1 as int) == end_adjusted(start_day as int, end_day as int, end_minute as int),
{
    if end_minute == 0 && end_day > start_day {
        (end_day - 1, 1440)
    } else {
        (end_day, end_minute)
    }
}

// ---------------------------------------------------------------------------
// Cells
// ---------------------------------------------------------------------------

/// The local start and end of an instance: Julian days and minutes of the
/// day.
#[derive(Clone, Copy)]
pub struct InstanceDays {
    pub start_day: i64,
    pub start_minute: i32,
    pub end_day: i64,
    pub end_minute: i32,
}

pub open spec fn calendar_cell_spec(cal: CalendarAccount, col: Seq<char>) -> CellView {
    if col == "_id"@ {
        CellView::Integer(cal.id)
    } else if col == "name"@ {
        CellView::Text(cal.name@)
    } else if col == "calendar_displayName"@ {
        CellView::Text(cal.display_name@)
    } else if col == "account_name"@ {
        CellView::Text(cal.account_name@)
    } else if col == "account_type"@ {
        CellView::Text(cal.account_type@)
    } else if col == "ownerAccount"@ {
        CellView::Text(cal.owner_account@)
    } else if col == "calendar_color"@ {
        CellView::Integer(cal.color as i64)
    } else if col == "calendar_color_index"@ {
        CellView::Text("1"@)
    } else if col == "calendar_access_level"@ {
        CellView::Integer(700)
    } else if col == "visible"@ {
        CellView::Integer(if cal.visible { 1 } else { 0 })
    } else if col == "sync_events"@ {
        CellView::Integer(if cal.sync_events { 1 } else { 0 })
    } else if col == "calendar_timezone"@ {
        CellView::Text(cal.timezone@)
    } else if col == "canOrganizerRespond"@ {
        CellView::Integer(1)
    } else if col == "canModifyTimeZone"@ {
        CellView::Integer(1)
    } else if col == "maxReminders"@ {
        CellView::Integer(5)
    } else if col == "allowedReminders"@ {
        CellView::Text("0,1"@)
    } else if col == "allowedAvailability"@ {
        CellView::Text("0,1"@)
    } else if col == "allowedAttendeeTypes"@ {
        CellView::Text("0,1,2"@)
    } else if col == "isPrimary"@ {
        CellView::Integer(1)
    } else if col == "deleted"@ {
        CellView::Integer(0)
    } else {
        CellView::Null
    }
}

/// The cell of column `col` in the row of calendar `cal`.
pub fn calendar_cell(cal: &CalendarAccount, col: &str) -> (c: Cell)
    ensures
        cell_view(c) == calendar_cell_spec(*cal, col@),
{
    let k = chars_of(col);
    let k = k.as_slice();
    if is(k, "_id") {
        Cell::Integer(cal.id)
    } else if is(k, "name") {
        text_of(&cal.name)
    } else if is(k, "calendar_displayName") {
        text_of(&cal.display_name)
    } else if is(k, "account_name") {
        text_of(&cal.account_name)
    } else if is(k, "account_type") {
        text_of(&cal.account_type)
    } else if is(k, "ownerAccount") {
        text_of(&cal.owner_account)
    } else if is(k, "calendar_color") {
        Cell::Integer(cal.color as i64)
    } else if is(k, "calendar_color_index") {
        text("1")
    } else if is(k, "calendar_access_level") {
        Cell::Integer(700)
    } else if is(k, "visible") {
        flag(cal.visible)
    } else if is(k, "sync_events") {
        flag(cal.sync_events)
    } else if is(k, "calendar_timezone") {
        text_of(&cal.timezone)
    } else if is(k, "canOrganizerRespond") {
        Cell::Integer(1)
    } else if is(k, "canModifyTimeZone") {
        Cell::Integer(1)
    } else if is(k, "maxReminders") {
        Cell::Integer(5)
    } else if is(k, "allowedReminders") {
        text("0,1")
    } else if is(k, "allowedAvailability") {
        text("0,1")
    } else if is(k, "allowedAttendeeTypes") {
        text("0,1,2")
    } else if is(k, "isPrimary") {
        Cell::Integer(1)
    } else if is(k, "deleted") {
        Cell::Integer(0)
    } else {
        Cell::Null
    }
}

pub open spec fn event_cell_spec(ev: CalendarEvent, default_color: i32, col: Seq<char>) -> CellView {
    if col == "_id"@ {
        CellView::Integer(ev.id)
    } else if col == "calendar_id"@ {
        CellView::Integer(ev.calendar_id)
    } else if col == "title"@ {
        CellView::Text(ev.title@)
    } else if col == "description"@ {
        CellView::Text(ev.description@)
    } else if col == "eventLocation"@ {
        CellView::Text(ev.location@)
    } else if col == "dtstart"@ {
        CellView::Integer(ev.dtstart)
    } else if col == "dtend"@ {
        CellView::Integer(ev.dtend)
    } else if col == "duration"@ {
        match ev.duration { Some(v) => CellView::Text(v@), None => CellView::Null }
    } else if col == "eventTimezone"@ {
        CellView::Text(ev.timezone@)
    } else if col == "eventEndTimezone"@ {
        match ev.end_timezone { Some(v) => CellView::Text(v@), None => CellView::Null }
    } else if col == "allDay"@ {
        CellView::Integer(if ev.all_day { 1 } else { 0 })
    } else if col == "rrule"@ {
        match ev.rrule { Some(v) => CellView::Text(v@), None => CellView::Null }
    } else if col == "hasAlarm"@ {
        CellView::Integer(if ev.has_alarm { 1 } else { 0 })
    } else if col == "lastDate"@ {
        CellView::Integer(ev.dtend)
    } else if col == "hasAttendeeData"@ {
        CellView::Integer(0)
    } else if col == "guestsCanModify"@ {
        CellView::Integer(1)
    } else if col == "guestsCanInviteOthers"@ {
        CellView::Integer(1)
    } else if col == "guestsCanSeeGuests"@ {
        CellView::Integer(1)
    } else if col == "organizer"@ {
        CellView::Text("local@aro"@)
    } else if col == "isOrganizer"@ {
        CellView::Integer(1)
    } else if col == "deleted"@ {
        CellView::Integer(0)
    } else if col == "eventStatus"@ {
        CellView::Integer(1)
    } else if col == "selfAttendeeStatus"@ {
        CellView::Integer(1)
    } else if col == "calendar_color"@ {
        CellView::Integer(default_color as i64)
    } else if col == "eventColor"@ {
        CellView::Integer(pick(ev.color, default_color) as i64)
    } else if col == "displayColor"@ {
        CellView::Integer(pick(ev.color, default_color) as i64)
    } else if col == "calendar_access_level"@ {
        CellView::Integer(700)
    } else if col == "calendar_displayName"@ {
        CellView::Text("Local Calendar"@)
    } else if col == "account_name"@ {
        CellView::Text("local"@)
    } else if col == "account_type"@ {
        CellView::Text("LOCAL"@)
    } else if col == "ownerAccount"@ {
        CellView::Text("local@aro"@)
    } else if col == "canOrganizerRespond"@ {
        CellView::Integer(1)
    } else if col == "canModifyEvent"@ {
        CellView::Integer(1)
    } else if col == "maxReminders"@ {
        CellView::Integer(5)
    } else if col == "allowedReminders"@ {
        CellView::Text("0,1"@)
    } else if col == "_sync_id"@ {
        CellView::Text(""@)
    } else if col == "availability"@ {
        CellView::Integer(0)
    } else if col == "accessLevel"@ {
        CellView::Integer(700)
    } else if col == "customAppPackage"@ {
        CellView::Null
    } else if col == "customAppUri"@ {
        CellView::Null
    } else if col == "original_sync_id"@ {
        CellView::Null
    } else {
        CellView::Null
    }
}

/// The cell of column `col` in the row of event `ev`; `default_color` is the colour of the first calendar.
pub fn event_cell(ev: &CalendarEvent, default_color: i32, col: &str) -> (c: Cell)
    ensures
        cell_view(c) == event_cell_spec(*ev, default_color, col@),
{
    let k = chars_of(col);
    let k = k.as_slice();
    if is(k, "_id") {
        Cell::Integer(ev.id)
    } else if is(k, "calendar_id") {
        Cell::Integer(ev.calendar_id)
    } else if is(k, "title") {
        text_of(&ev.title)
    } else if is(k, "description") {
        text_of(&ev.description)
    } else if is(k, "eventLocation") {
        text_of(&ev.location)
    } else if is(k, "dtstart") {
        Cell::Integer(ev.dtstart)
    } else if is(k, "dtend") {
        Cell::Integer(ev.dtend)
    } else if is(k, "duration") {
        match &ev.duration { Some(v) => text_of(v), None => Cell::Null }
    } else if is(k, "eventTimezone") {
        text_of(&ev.timezone)
    } else if is(k, "eventEndTimezone") {
        match &ev.end_timezone { Some(v) => text_of(v), None => Cell::Null }
    } else if is(k, "allDay") {
        flag(ev.all_day)
    } else if is(k, "rrule") {
        match &ev.rrule { Some(v) => text_of(v), None => Cell::Null }
    } else if is(k, "hasAlarm") {
        flag(ev.has_alarm)
    } else if is(k, "lastDate") {
        Cell::Integer(ev.dtend)
    } else if is(k, "hasAttendeeData") {
        Cell::Integer(0)
    } else if is(k, "guestsCanModify") {
        Cell::Integer(1)
    } else if is(k, "guestsCanInviteOthers") {
        Cell::Integer(1)
    } else if is(k, "guestsCanSeeGuests") {
        Cell::Integer(1)
    } else if is(k, "organizer") {
        text("local@aro")
    } else if is(k, "isOrganizer") {
        Cell::Integer(1)
    } else if is(k, "deleted") {
        Cell::Integer(0)
    } else if is(k, "eventStatus") {
        Cell::Integer(1)
    } else if is(k, "selfAttendeeStatus") {
        Cell::Integer(1)
    } else if is(k, "calendar_color") {
        Cell::Integer(default_color as i64)
    } else if is(k, "eventColor") {
        Cell::Integer(ev.color.unwrap_or(default_color) as i64)
    } else if is(k, "displayColor") {
        Cell::Integer(ev.color.unwrap_or(default_color) as i64)
    } else if is(k, "calendar_access_level") {
        Cell::Integer(700)
    } else if is(k, "calendar_displayName") {
        text("Local Calendar")
    } else if is(k, "account_name") {
        text("local")
    } else if is(k, "account_type") {
        text("LOCAL")
    } else if is(k, "ownerAccount") {
        text("local@aro")
    } else if is(k, "canOrganizerRespond") {
        Cell::Integer(1)
    } else if is(k, "canModifyEvent") {
        Cell::Integer(1)
    } else if is(k, "maxReminders") {
        Cell::Integer(5)
    } else if is(k, "allowedReminders") {
        text("0,1")
    } else if is(k, "_sync_id") {
        text("")
    } else if is(k, "availability") {
        Cell::Integer(0)
    } else if is(k, "accessLevel") {
        Cell::Integer(700)
    } else if is(k, "customAppPackage") {
        Cell::Null
    } else if is(k, "customAppUri") {
        Cell::Null
    } else if is(k, "original_sync_id") {
        Cell::Null
    } else {
        Cell::Null
    }
}

pub open spec fn instance_cell_spec(ev: CalendarEvent, default_color: i32, days: InstanceDays, col: Seq<char>) -> CellView {
    if col == "_id"@ {
        CellView::Integer(ev.id)
    } else if col == "event_id"@ {
        CellView::Integer(ev.id)
    } else if col == "begin"@ {
        CellView::Integer(ev.dtstart)
    } else if col == "end"@ {
        CellView::Integer(ev.dtend)
    } else if col == "title"@ {
        CellView::Text(ev.title@)
    } else if col == "description"@ {
        CellView::Text(ev.description@)
    } else if col == "eventLocation"@ {
        CellView::Text(ev.location@)
    } else if col == "allDay"@ {
        CellView::Integer(if ev.all_day { 1 } else { 0 })
    } else if col == "hasAlarm"@ {
        CellView::Integer(if ev.has_alarm { 1 } else { 0 })
    } else if col == "calendar_color"@ {
        CellView::Integer(default_color as i64)
    } else if col == "eventColor"@ {
        CellView::Integer(pick(ev.color, default_color) as i64)
    } else if col == "displayColor"@ {
        CellView::Integer(pick(ev.color, default_color) as i64)
    } else if col == "calendar_id"@ {
        CellView::Integer(ev.calendar_id)
    } else if col == "startDay"@ {
        CellView::Integer(days.start_day)
    } else if col == "endDay"@ {
        CellView::Integer(days.end_day)
    } else if col == "startMinute"@ {
        CellView::Integer(days.start_minute as i64)
    } else if col == "endMinute"@ {
        CellView::Integer(days.end_minute as i64)
    } else if col == "selfAttendeeStatus"@ {
        CellView::Integer(1)
    } else if col == "organizer"@ {
        CellView::Text("local@aro"@)
    } else if col == "guestsCanModify"@ {
        CellView::Integer(1)
    } else if col == "rrule"@ {
        CellView::Text(match ev.rrule { Some(r) => r@, None => ""@ })
    } else if col == "rdate"@ {
        CellView::Text(""@)
    } else if col == "calendar_access_level"@ {
        CellView::Integer(700)
    } else if col == "calendar_displayName"@ {
        CellView::Text("Local Calendar"@)
    } else if col == "account_name"@ {
        CellView::Text("local"@)
    } else if col == "account_type"@ {
        CellView::Text("LOCAL"@)
    } else if col == "ownerAccount"@ {
        CellView::Text("local@aro"@)
    } else if col == "canOrganizerRespond"@ {
        CellView::Integer(1)
    } else if col == "canModifyEvent"@ {
        CellView::Integer(1)
    } else if col == "maxReminders"@ {
        CellView::Integer(5)
    } else if col == "allowedReminders"@ {
        CellView::Text("0,1"@)
    } else if contains(col, "dispAllday"@) {
        CellView::Integer(if ev.all_day || ev.dtend - ev.dtstart >= DAY_MS { 1 } else { 0 })
    } else {
        CellView::Null
    }
}

/// The cell of column `col` in the instance row of event `ev`, whose local start and end are `days`.
pub fn instance_cell(ev: &CalendarEvent, default_color: i32, days: InstanceDays, col: &str) -> (c: Cell)
    ensures
        cell_view(c) == instance_cell_spec(*ev, default_color, days, col@),
{
    let k = chars_of(col);
    let k = k.as_slice();
    if is(k, "_id") {
        Cell::Integer(ev.id)
    } else if is(k, "event_id") {
        Cell::Integer(ev.id)
    } else if is(k, "begin") {
        Cell::Integer(ev.dtstart)
    } else if is(k, "end") {
        Cell::Integer(ev.dtend)
    } else if is(k, "title") {
        text_of(&ev.title)
    } else if is(k, "description") {
        text_of(&ev.description)
    } else if is(k, "eventLocation") {
        text_of(&ev.location)
    } else if is(k, "allDay") {
        flag(ev.all_day)
    } else if is(k, "hasAlarm") {
        flag(ev.has_alarm)
    } else if is(k, "calendar_color") {
        Cell::Integer(default_color as i64)
    } else if is(k, "eventColor") {
        Cell::Integer(ev.color.unwrap_or(default_color) as i64)
    } else if is(k, "displayColor") {
        Cell::Integer(ev.color.unwrap_or(default_color) as i64)
    } else if is(k, "calendar_id") {
        Cell::Integer(ev.calendar_id)
    } else if is(k, "startDay") {
        Cell::Integer(days.start_day)
    } else if is(k, "endDay") {
        Cell::Integer(days.end_day)
    } else if is(k, "startMinute") {
        Cell::Integer(days.start_minute as i64)
    } else if is(k, "endMinute") {
        Cell::Integer(days.end_minute as i64)
    } else if is(k, "selfAttendeeStatus") {
        Cell::Integer(1)
    } else if is(k, "organizer") {
        text("local@aro")
    } else if is(k, "guestsCanModify") {
        Cell::Integer(1)
    } else if is(k, "rrule") {
        match &ev.rrule { Some(r) => text_of(r), None => text("") }
    } else if is(k, "rdate") {
        text("")
    } else if is(k, "calendar_access_level") {
        Cell::Integer(700)
    } else if is(k, "calendar_displayName") {
        text("Local Calendar")
    } else if is(k, "account_name") {
        text("local")
    } else if is(k, "account_type") {
        text("LOCAL")
    } else if is(k, "ownerAccount") {
        text("local@aro")
    } else if is(k, "canOrganizerRespond") {
        Cell::Integer(1)
    } else if is(k, "canModifyEvent") {
        Cell::Integer(1)
    } else if is(k, "maxReminders") {
        Cell::Integer(5)
    } else if is(k, "allowedReminders") {
        text("0,1")
    } else if has(k, "dispAllday") {
        flag(ev.all_day || ev.dtend as i128 - ev.dtstart as i128 >= 86_400_000)
    } else {
        Cell::Null
    }
}

pub open spec fn color_cell_spec(col: Seq<char>) -> CellView {
    if col == "color_type"@ {
        CellView::Integer(0)
    } else if col == "color_index"@ {
        CellView::Text("1"@)
    } else if col == "color"@ {
        CellView::Integer(-14575885i64)
    } else if col == "account_name"@ {
        CellView::Text("local"@)
    } else if col == "account_type"@ {
        CellView::Text("LOCAL"@)
    } else {
        CellView::Null
    }
}

/// The cell of column `col` in the one row of the colours table.
pub fn color_cell(col: &str) -> (c: Cell)
    ensures
        cell_view(c) == color_cell_spec(col@),
{
    let k = chars_of(col);
    let k = k.as_slice();
    if is(k, "color_type") {
        Cell::Integer(0)
    } else if is(k, "color_index") {
        text("1")
    } else if is(k, "color") {
        Cell::Integer(-14575885)
    } else if is(k, "account_name") {
        text("local")
    } else if is(k, "account_type") {
        text("LOCAL")
    } else {
        Cell::Null
    }
}

pub open spec fn reminder_cell_spec(rem: CalendarReminder, col: Seq<char>) -> CellView {
    if col == "_id"@ {
        CellView::Integer(rem.id)
    } else if col == "event_id"@ {
        CellView::Integer(rem.event_id)
    } else if col == "minutes"@ {
        CellView::Integer(rem.minutes as i64)
    } else if col == "method"@ {
        CellView::Integer(rem.method as i64)
    } else {
        CellView::Null
    }
}

/// The cell of column `col` in the row of reminder `rem`.
pub fn reminder_cell(rem: &CalendarReminder, col: &str) -> (c: Cell)
    ensures
        cell_view(c) == reminder_cell_spec(*rem, col@),
{
    let k = chars_of(col);
    let k = k.as_slice();
    if is(k, "_id") {
        Cell::Integer(rem.id)
    } else if is(k, "event_id") {
        Cell::Integer(rem.event_id)
    } else if is(k, "minutes") {
        Cell::Integer(rem.minutes as i64)
    } else if is(k, "method") {
        Cell::Integer(rem.method as i64)
    } else {
        Cell::Null
    }
}

pub open spec fn property_cell_spec(key: Seq<char>, value: Seq<char>, col: Seq<char>) -> CellView {
    if col == "key"@ {
        CellView::Text(key)
    } else if col == "value"@ {
        CellView::Text(value)
    } else {
        CellView::Null
    }
}

/// The cell of column `col` in the property row `(key, value)`.
pub fn property_cell(key: &String, value: &String, col: &str) -> (c: Cell)
    ensures
        cell_view(c) == property_cell_spec(key@, value@, col@),
{
    let k = chars_of(col);
    let k = k.as_slice();
    if is(k, "key") {
        text_of(key)
    } else if is(k, "value") {
        text_of(value)
    } else {
        Cell::Null
    }
}

/// The row of calendar `item` over the columns `cols`.
pub fn calendar_row(item: &CalendarAccount, cols: &Vec<String>) -> (r: Vec<Cell>)
    ensures
        row_view(r@) == strings_view(cols@).map_values(|c: Seq<char>| calendar_cell_spec(*item, c)),
{
    let mut out: Vec<Cell> = Vec::new();
    let mut i: usize = 0;
    while i < cols.len()
        invariant
            i <= cols@.len(),
            out@.len() == i,
            forall|j: int| 0 <= j < i ==> cell_view(#[trigger] out@[j]) == calendar_cell_spec(*item, strings_view(cols@)[j]),
        decreases cols.len() - i,
    {
        let c = calendar_cell(item, cols[i].as_str());
        out.push(c);
        proof {
            assert(strings_view(cols@)[i as int] == cols@[i as int]@);
            assert(out@[i as int] == c);
        }
        i = i + 1;
    }
    proof {
        assert(row_view(out@) =~= strings_view(cols@).map_values(|c: Seq<char>| calendar_cell_spec(*item, c)));
    }
    out
}


/// The row of event `item` over the columns `cols`.
pub fn event_row(item: &CalendarEvent, cols: &Vec<String>, default_color: i32) -> (r: Vec<Cell>)
    ensures
        row_view(r@) == strings_view(cols@).map_values(|c: Seq<char>| event_cell_spec(*item, default_color, c)),
{
    let mut out: Vec<Cell> = Vec::new();
    let mut i: usize = 0;
    while i < cols.len()
        invariant
            i <= cols@.len(),
            out@.len() == i,
            forall|j: int| 0 <= j < i ==> cell_view(#[trigger] out@[j]) == event_cell_spec(*item, default_color, strings_view(cols@)[j]),
        decreases cols.len() - i,
    {
        let c = event_cell(item, default_color, cols[i].as_str());
        out.push(c);
        proof {
            assert(strings_view(cols@)[i as int] == cols@[i as int]@);
            assert(out@[i as int] == c);
        }
        i = i + 1;
    }
    proof {
        assert(row_view(out@) =~= strings_view(cols@).map_values(|c: Seq<char>| event_cell_spec(*item, default_color, c)));
    }
    out
}


/// The instance row of event `item` over the columns `cols`.
pub fn instance_row(item: &CalendarEvent, cols: &Vec<String>, default_color: i32, days: InstanceDays) -> (r: Vec<Cell>)
    ensures
        row_view(r@) == strings_view(cols@).map_values(|c: Seq<char>| instance_cell_spec(*item, default_color, days, c)),
{
    let mut out: Vec<Cell> = Vec::new();
    let mut i: usize = 0;
    while i < cols.len()
        invariant
            i <= cols@.len(),
            out@.len() == i,
            forall|j: int| 0 <= j < i ==> cell_view(#[trigger] out@[j]) == instance_cell_spec(*item, default_color, days, strings_view(cols@)[j]),
        decreases cols.len() - i,
    {
        let c = instance_cell(item, default_color, days, cols[i].as_str());
        out.push(c);
        proof {
            assert(strings_view(cols@)[i as int] == cols@[i as int]@);
            assert(out@[i as int] == c);
        }
        i = i + 1;
    }
    proof {
        assert(row_view(out@) =~= strings_view(cols@).map_values(|c: Seq<char>| instance_cell_spec(*item, default_color, days, c)));
    }
    out
}


/// The row of reminder `item` over the columns `cols`.
pub fn reminder_row(item: &CalendarReminder, cols: &Vec<String>) -> (r: Vec<Cell>)
    ensures
        row_view(r@) == strings_view(cols@).map_values(|c: Seq<char>| reminder_cell_spec(*item, c)),
{
    let mut out: Vec<Cell> = Vec::new();
    let mut i: usize = 0;
    while i < cols.len()
        invariant
            i <= cols@.len(),
            out@.len() == i,
            forall|j: int| 0 <= j < i ==> cell_view(#[trigger] out@[j]) == reminder_cell_spec(*item, strings_view(cols@)[j]),
        decreases cols.len() - i,
    {
        let c = reminder_cell(item, cols[i].as_str());
        out.push(c);
        proof {
            assert(strings_view(cols@)[i as int] == cols@[i as int]@);
            assert(out@[i as int] == c);
        }
        i = i + 1;
    }
    proof {
        assert(row_view(out@) =~= strings_view(cols@).map_values(|c: Seq<char>| reminder_cell_spec(*item, c)));
    }
    out
}


/// The row of property `item` over the columns `cols`.
pub fn property_row(item: &(String, String), cols: &Vec<String>) -> (r: Vec<Cell>)
    ensures
        row_view(r@) == strings_view(cols@).map_values(|c: Seq<char>| property_cell_spec(item.0@, item.1@, c)),
{
    let mut out: Vec<Cell> = Vec::new();
    let mut i: usize = 0;
    while i < cols.len()
        invariant
            i <= cols@.len(),
            out@.len() == i,
            forall|j: int| 0 <= j < i ==> cell_view(#[trigger] out@[j]) == property_cell_spec(item.0@, item.1@, strings_view(cols@)[j]),
        decreases cols.len() - i,
    {
        let c = property_cell(&item.0, &item.1, cols[i].as_str());
        out.push(c);
        proof {
            assert(strings_view(cols@)[i as int] == cols@[i as int]@);
            assert(out@[i as int] == c);
        }
        i = i + 1;
    }
    proof {
        assert(row_view(out@) =~= strings_view(cols@).map_values(|c: Seq<char>| property_cell_spec(item.0@, item.1@, c)));
    }
    out
}

/// The one row of the colours table over the columns `cols`.
pub fn color_row(cols: &Vec<String>) -> (r: Vec<Cell>)
    ensures
        row_view(r@) == strings_view(cols@).map_values(|c: Seq<char>| color_cell_spec(c)),
{
    let mut out: Vec<Cell> = Vec::new();
    let mut i: usize = 0;
    while i < cols.len()
        invariant
            i <= cols@.len(),
            out@.len() == i,
            forall|j: int| 0 <= j < i ==> cell_view(#[trigger] out@[j]) == color_cell_spec(strings_view(cols@)[j]),
        decreases cols.len() - i,
    {
        let c = color_cell(cols[i].as_str());
        out.push(c);
        proof {
            assert(strings_view(cols@)[i as int] == cols@[i as int]@);
            assert(out@[i as int] == c);
        }
        i = i + 1;
    }
    proof {
        assert(row_view(out@) =~= strings_view(cols@).map_values(|c: Seq<char>| color_cell_spec(c)));
    }
    out
}

// ---------------------------------------------------------------------------
// Columns and rows
// ---------------------------------------------------------------------------

pub open spec fn strings_view(v: Seq<String>) -> Seq<Seq<char>> {
    v.map_values(|s: String| s@)
}

pub open spec fn rows_view(rows: Seq<Vec<Cell>>) -> Seq<Seq<CellView>> {
    rows.map_values(|r: Vec<Cell>| crate::cursor::row_view(r@))
}

/// The columns a query on table `t` answers with when it names none.
pub open spec fn default_columns(t: CalendarTable) -> Seq<Seq<char>> {
    match t {
        CalendarTable::Calendars => seq![
            "_id"@, "name"@, "calendar_displayName"@, "calendar_color"@, "calendar_access_level"@,
            "visible"@, "sync_events"@, "account_name"@, "account_type"@, "ownerAccount"@,
        ],
        CalendarTable::Instances => seq![
            "_id"@, "event_id"@, "begin"@, "end"@, "title"@, "description"@, "eventLocation"@,
            "allDay"@, "hasAlarm"@, "calendar_color"@, "displayColor"@, "startDay"@, "endDay"@,
            "startMinute"@, "endMinute"@,
        ],
        CalendarTable::Events => seq![
            "_id"@, "calendar_id"@, "title"@, "description"@, "eventLocation"@, "dtstart"@,
            "dtend"@, "allDay"@, "hasAlarm"@, "eventTimezone"@, "displayColor"@,
        ],
        CalendarTable::Colors => seq!["color_type"@, "color_index"@, "color"@],
        CalendarTable::Reminders => seq!["_id"@, "event_id"@, "minutes"@, "method"@],
        CalendarTable::Properties => seq!["key"@, "value"@],
        CalendarTable::Other => seq!["_id"@],
    }
}

fn owned_all(names: &[&str]) -> (r: Vec<String>)
    ensures
        r@.len() == names@.len(),
        forall|i: int| 0 <= i < names@.len() ==> #[trigger] r@[i]@ == names@[i]@,
{
    let mut out: Vec<String> = Vec::new();
    let mut i: usize = 0;
    while i < names.len()
        invariant
            i <= names@.len(),
            out@.len() == i,
            forall|j: int| 0 <= j < i ==> #[trigger] out@[j]@ == names@[j]@,
        decreases names.len() - i,
    {
        out.push(names[i].to_owned());
        i = i + 1;
    }
    out
}

/// The columns of a query on table `t`: the projection, or the table's
/// default columns when the projection is empty.
pub fn columns_for(t: CalendarTable, projection: Vec<String>) -> (r: Vec<String>)
    ensures
        strings_view(r@) == if projection@.len() == 0 { default_columns(t) } else { strings_view(projection@) },
{
    if projection.len() > 0 {
        return projection;
    }
    let names: &[&str] = match t {
        CalendarTable::Calendars => &[
            "_id", "name", "calendar_displayName", "calendar_color", "calendar_access_level",
            "visible", "sync_events", "account_name", "account_type", "ownerAccount",
        ],
        CalendarTable::Instances => &[
            "_id", "event_id", "begin", "end", "title", "description", "eventLocation",
            "allDay", "hasAlarm", "calendar_color", "displayColor", "startDay", "endDay",
            "startMinute", "endMinute",
        ],
        CalendarTable::Events => &[
            "_id", "calendar_id", "title", "description", "eventLocation", "dtstart",
            "dtend", "allDay", "hasAlarm", "eventTimezone", "displayColor",
        ],
        CalendarTable::Colors => &["color_type", "color_index", "color"],
        CalendarTable::Reminders => &["_id", "event_id", "minutes", "method"],
        CalendarTable::Properties => &["key", "value"],
        CalendarTable::Other => &["_id"],
    };
    let r = owned_all(names);
    proof {
        assert(strings_view(r@) =~= default_columns(t));
    }
    r
}

/// The colour of the first calendar, or the default colour when there is
/// none.
pub open spec fn default_color_spec(cals: Seq<CalendarAccount>) -> i32 {
    if cals.len() > 0 { cals[0].color } else { DEFAULT_COLOR }
}

pub fn default_color(data: &CalendarData) -> (c: i32)
    ensures
        c == default_color_spec(data.calendars@),
{
    if data.calendars.len() > 0 {
        data.calendars[0].color
    } else {
        DEFAULT_COLOR
    }
}

/// The local clock at an instant: the offset from UTC in seconds and the
/// hour and minute of the day.
#[derive(Clone, Copy)]
pub struct LocalTime {
    pub gmtoff: i64,
    pub hour: i32,
    pub minute: i32,
}

pub open spec fn local_ok(millis: i64, t: LocalTime) -> bool {
    fits_i64(millis + t.gmtoff * 1000) && i32::MIN <= t.hour * 60 + t.minute <= i32::MAX
}

/// The local days and minutes of an event's start and end.
pub open spec fn days_spec(ev: CalendarEvent, start: LocalTime, end: LocalTime) -> InstanceDays {
    let s = julian_and_minute(ev.dtstart as int, start.gmtoff as int, start.hour as int, start.minute as int);
    let e = julian_and_minute(ev.dtend as int, end.gmtoff as int, end.hour as int, end.minute as int);
    let a = end_adjusted(s.0, e.0, e.1);
    InstanceDays { start_day: s.0 as i64, start_minute: s.1 as i32, end_day: a.0 as i64, end_minute: a.1 as i32 }
}

pub fn instance_days(ev: &CalendarEvent, start: LocalTime, end: LocalTime) -> (d: InstanceDays)
    requires
        local_ok(ev.dtstart, start),
        local_ok(ev.dtend, end),
    ensures
        d == days_spec(*ev, start, end),
{
    let (sd, sm) = local_julian_and_minute(ev.dtstart, start.gmtoff, start.hour, start.minute);
    let (ed, em) = local_julian_and_minute(ev.dtend, end.gmtoff, end.hour, end.minute);
    let (ed2, em2) = adjust_end(sd, ed, em);
    InstanceDays { start_day: sd, start_minute: sm, end_day: ed2, end_minute: em2 }
}

/// The positions of the events a query on the events table returns: the
/// one whose id the URI ends with, or all of them.
pub open spec fn event_positions(es: Seq<CalendarEvent>, specific: Option<i64>) -> Seq<int> {
    match specific {
        Some(id) => indices_where(es.len() as int, |i: int| es[i].id == id),
        None => indices_where(es.len() as int, |i: int| true),
    }
}

pub fn events_matching(events: &Vec<CalendarEvent>, specific: Option<i64>) -> (r: Vec<usize>)
    ensures
        as_ints(r@) == event_positions(events@, specific),
{
    let ghost p = match specific {
        Some(id) => |i: int| events@[i].id == id,
        None => |i: int| true,
    };
    proof {
        assert(event_positions(events@, specific) == indices_where(events@.len() as int, p));
    }
    let mut out: Vec<usize> = Vec::new();
    let mut i: usize = 0;
    while i < events.len()
        invariant
            i <= events@.len(),
            p == (match specific {
                Some(id) => |i: int| events@[i].id == id,
                None => |i: int| true,
            }),
            as_ints(out@) == indices_where(i as int, p),
        decreases events.len() - i,
    {
        let hit = match specific {
            Some(id) => events[i].id == id,
            None => true,
        };
        if hit {
            out.push(i);
            proof {
                assert(as_ints(out@) =~= indices_where(i as int, p).push(i as int));
            }
        }
        i = i + 1;
    }
    out
}

/// The rows of the properties table: the time-zone type and the zone
/// instances are computed in.
pub open spec fn property_rows_spec(tz: Seq<char>) -> Seq<(Seq<char>, Seq<char>)> {
    seq![("timezoneType"@, "auto"@), ("timezoneInstances"@, tz), ("timezoneInstancesPrevious"@, tz)]
}

pub fn property_rows(tz: &str) -> (r: Vec<(String, String)>)
    ensures
        r@.map_values(|p: (String, String)| (p.0@, p.1@)) == property_rows_spec(tz@),
{
    let r = vec![
        ("timezoneType".to_owned(), "auto".to_owned()),
        ("timezoneInstances".to_owned(), tz.to_owned()),
        ("timezoneInstancesPrevious".to_owned(), tz.to_owned()),
    ];
    proof {
        assert(r@.map_values(|p: (String, String)| (p.0@, p.1@)) =~= property_rows_spec(tz@));
    }
    r
}

// ---------------------------------------------------------------------------
// QUERY
// ---------------------------------------------------------------------------

/// The columns and rows a QUERY answers with.
pub struct QueryAnswer {
    pub columns: Vec<String>,
    pub rows: Vec<Vec<Cell>>,
}

/// The events an instances query on `uri` returns, as positions.
pub open spec fn instance_positions_of(s: Seq<CalendarEvent>, uri: Seq<char>) -> Seq<int> {
    instance_positions(s, window_spec(uri).0 as i64, window_spec(uri).1 as i64)
}

/// What a QUERY on `uri` needs from the caller: for an instances query a
/// window inside the 64-bit range, and the local clock at the start and end
/// of each returned event, within range.
pub open spec fn query_inputs_ok(es: Seq<CalendarEvent>, uri: Seq<char>, locals: Seq<(LocalTime, LocalTime)>) -> bool {
    table_spec(uri) == CalendarTable::Instances ==> {
        &&& fits_i64(window_spec(uri).0) && fits_i64(window_spec(uri).1)
        &&& locals.len() == instance_positions_of(es, uri).len()
        &&& forall|k: int| 0 <= k < locals.len() ==> {
            let e = #[trigger] es[instance_positions_of(es, uri)[k]];
            local_ok(e.dtstart, locals[k].0) && local_ok(e.dtend, locals[k].1)
        }
    }
}

/// The rows a QUERY on `uri` answers with over the columns `cols`; `tz` is
/// the device time zone and `locals` the local clock at the start and end
/// of each instance.
pub open spec fn query_rows_spec(
    cals: Seq<CalendarAccount>,
    es: Seq<CalendarEvent>,
    rems: Seq<CalendarReminder>,
    uri: Seq<char>,
    cols: Seq<Seq<char>>,
    tz: Seq<char>,
    locals: Seq<(LocalTime, LocalTime)>,
) -> Seq<Seq<CellView>> {
    let dc = default_color_spec(cals);
    match table_spec(uri) {
        CalendarTable::Calendars => Seq::new(cals.len(), |i: int| cols.map_values(|c: Seq<char>| calendar_cell_spec(cals[i], c))),
        CalendarTable::Instances => {
            let pos = instance_positions_of(es, uri);
            Seq::new(pos.len(), |k: int| cols.map_values(|c: Seq<char>| instance_cell_spec(es[pos[k]], dc, days_spec(es[pos[k]], locals[k].0, locals[k].1), c)))
        },
        CalendarTable::Events => {
            let pos = event_positions(es, trailing_id_spec(uri));
            Seq::new(pos.len(), |k: int| cols.map_values(|c: Seq<char>| event_cell_spec(es[pos[k]], dc, c)))
        },
        CalendarTable::Colors => seq![cols.map_values(|c: Seq<char>| color_cell_spec(c))],
        CalendarTable::Reminders => Seq::new(rems.len(), |i: int| cols.map_values(|c: Seq<char>| reminder_cell_spec(rems[i], c))),
        CalendarTable::Properties => {
            let p = property_rows_spec(tz);
            Seq::new(3, |k: int| cols.map_values(|c: Seq<char>| property_cell_spec(p[k].0, p[k].1, c)))
        },
        CalendarTable::Other => Seq::empty(),
    }
}

/// Answers a QUERY on `uri` with the projection `projection`.
pub fn answer_query(
    data: &CalendarData,
    uri: &str,
    projection: Vec<String>,
    tz: &str,
    locals: &Vec<(LocalTime, LocalTime)>,
) -> (r: QueryAnswer)
    requires
        query_inputs_ok(data.events@, uri@, locals@),
    ensures
        strings_view(r.columns@) == if projection@.len() == 0 {
            default_columns(table_spec(uri@))
        } else {
            strings_view(projection@)
        },
        rows_view(r.rows@) == query_rows_spec(
            data.calendars@, data.events@, data.reminders@, uri@, strings_view(r.columns@), tz@, locals@,
        ),
{
    let t = query_table(uri);
    let cols = columns_for(t, projection);
    let ghost cv = strings_view(cols@);
    let ghost want = query_rows_spec(data.calendars@, data.events@, data.reminders@, uri@, cv, tz@, locals@);
    let dc = default_color(data);
    let mut rows: Vec<Vec<Cell>> = Vec::new();
    match t {
        CalendarTable::Calendars => {
            let mut i: usize = 0;
            while i < data.calendars.len()
                invariant
                    i <= data.calendars@.len(),
                    cv == strings_view(cols@),
                    want == Seq::new(data.calendars@.len(), |i: int| cv.map_values(|c: Seq<char>| calendar_cell_spec(data.calendars@[i], c))),
                    rows@.len() == i,
                    forall|j: int| 0 <= j < i ==> row_view(#[trigger] rows@[j]@) == want[j],
                decreases data.calendars.len() - i,
            {
                let row = calendar_row(&data.calendars[i], &cols);
                rows.push(row);
                proof {
                    assert(row_view(rows@[i as int]@) == want[i as int]);
                }
                i = i + 1;
            }
            proof {
                assert(rows_view(rows@) =~= want);
            }
        },
        CalendarTable::Instances => {
            let (b, e) = match instance_window(uri) {
                Some(w) => w,
                None => (0, 0),
            };
            let pos = instances_in(&data.events, b, e);
            proof {
                lemma_indices_where(data.events@.len() as int, |i: int| overlaps(data.events@[i], b, e));
                assert forall|j: int| 0 <= j < pos@.len() implies #[trigger] pos@[j] < data.events@.len() by {
                    assert(as_ints(pos@)[j] == pos@[j] as int);
                }
            }
            let mut k: usize = 0;
            while k < pos.len()
                invariant
                    k <= pos@.len(),
                    cv == strings_view(cols@),
                    as_ints(pos@) == instance_positions_of(data.events@, uri@),
                    forall|j: int| 0 <= j < pos@.len() ==> #[trigger] pos@[j] < data.events@.len(),
                    query_inputs_ok(data.events@, uri@, locals@),
                    table_spec(uri@) == CalendarTable::Instances,
                    dc == default_color_spec(data.calendars@),
                    want == Seq::new(pos@.len(), |k: int| cv.map_values(|c: Seq<char>| instance_cell_spec(
                        data.events@[pos@[k] as int], dc, days_spec(data.events@[pos@[k] as int], locals@[k].0, locals@[k].1), c))),
                    rows@.len() == k,
                    forall|j: int| 0 <= j < k ==> row_view(#[trigger] rows@[j]@) == want[j],
                decreases pos.len() - k,
            {
                let ev = &data.events[pos[k]];
                proof {
                    assert(as_ints(pos@)[k as int] == pos@[k as int] as int);
                }
                let (ls, le) = locals[k];
                let days = instance_days(ev, ls, le);
                let row = instance_row(ev, &cols, dc, days);
                rows.push(row);
                proof {
                    assert(row_view(rows@[k as int]@) == want[k as int]);
                }
                k = k + 1;
            }
            proof {
                assert(rows_view(rows@) =~= want);
            }
        },
        CalendarTable::Events => {
            let specific = trailing_id(uri);
            let pos = events_matching(&data.events, specific);
            proof {
                match specific {
                    Some(id) => lemma_indices_where(data.events@.len() as int, |i: int| data.events@[i].id == id),
                    None => lemma_indices_where(data.events@.len() as int, |i: int| true),
                }
                assert forall|j: int| 0 <= j < pos@.len() implies #[trigger] pos@[j] < data.events@.len() by {
                    assert(as_ints(pos@)[j] == pos@[j] as int);
                }
            }
            let mut k: usize = 0;
            while k < pos.len()
                invariant
                    k <= pos@.len(),
                    cv == strings_view(cols@),
                    forall|j: int| 0 <= j < pos@.len() ==> #[trigger] pos@[j] < data.events@.len(),
                    dc == default_color_spec(data.calendars@),
                    want == Seq::new(pos@.len(), |k: int| cv.map_values(|c: Seq<char>| event_cell_spec(data.events@[pos@[k] as int], dc, c))),
                    rows@.len() == k,
                    forall|j: int| 0 <= j < k ==> row_view(#[trigger] rows@[j]@) == want[j],
                decreases pos.len() - k,
            {
                let row = event_row(&data.events[pos[k]], &cols, dc);
                rows.push(row);
                proof {
                    assert(row_view(rows@[k as int]@) == want[k as int]);
                }
                k = k + 1;
            }
            proof {
                assert(rows_view(rows@) =~= want);
            }
        },
        CalendarTable::Colors => {
            let row = color_row(&cols);
            rows.push(row);
            proof {
                assert(rows_view(rows@) =~= want);
            }
        },
        CalendarTable::Reminders => {
            let mut i: usize = 0;
            while i < data.reminders.len()
                invariant
                    i <= data.reminders@.len(),
                    cv == strings_view(cols@),
                    want == Seq::new(data.reminders@.len(), |i: int| cv.map_values(|c: Seq<char>| reminder_cell_spec(data.reminders@[i], c))),
                    rows@.len() == i,
                    forall|j: int| 0 <= j < i ==> row_view(#[trigger] rows@[j]@) == want[j],
                decreases data.reminders.len() - i,
            {
                let row = reminder_row(&data.reminders[i], &cols);
                rows.push(row);
                proof {
                    assert(row_view(rows@[i as int]@) == want[i as int]);
                }
                i = i + 1;
            }
            proof {
                assert(rows_view(rows@) =~= want);
            }
        },
        CalendarTable::Properties => {
            let props = property_rows(tz);
            let mut k: usize = 0;
            proof {
                assert(props@.len() == 3) by {
                    assert(props@.map_values(|p: (String, String)| (p.0@, p.1@)).len() == 3);
                }
            }
            while k < props.len()
                invariant
                    k <= props@.len(),
                    props@.len() == 3,
                    cv == strings_view(cols@),
                    props@.map_values(|p: (String, String)| (p.0@, p.1@)) == property_rows_spec(tz@),
                    want == Seq::new(3, |k: int| cv.map_values(|c: Seq<char>| property_cell_spec(property_rows_spec(tz@)[k].0, property_rows_spec(tz@)[k].1, c))),
                    rows@.len() == k,
                    forall|j: int| 0 <= j < k ==> row_view(#[trigger] rows@[j]@) == want[j],
                decreases props.len() - k,
            {
                let row = property_row(&props[k], &cols);
                proof {
                    assert(props@.map_values(|p: (String, String)| (p.0@, p.1@))[k as int] == (props@[k as int].0@, props@[k as int].1@));
                }
                rows.push(row);
                proof {
                    assert(row_view(rows@[k as int]@) == want[k as int]);
                }
                k = k + 1;
            }
            proof {
                assert(rows_view(rows@) =~= want);
            }
        },
        CalendarTable::Other => {
            proof {
                assert(rows_view(rows@) =~= want);
            }
        },
    }
    QueryAnswer { columns: cols, rows }
}

// ---------------------------------------------------------------------------
// INSERT, UPDATE, DELETE, GET_TYPE, APPLY_BATCH
// ---------------------------------------------------------------------------

/// What an INSERT on a URI creates.
#[derive(PartialEq, Eq, Debug, Clone, Copy, Structural)]
pub enum InsertTarget {
    Events,
    Reminders,
    Other,
}

pub open spec fn insert_target_spec(uri: Seq<char>) -> InsertTarget {
    if contains(uri, "events"@) {
        InsertTarget::Events
    } else if contains(uri, "reminders"@) {
        InsertTarget::Reminders
    } else {
        InsertTarget::Other
    }
}

pub fn insert_target(uri: &str) -> (t: InsertTarget)
    ensures
        t == insert_target_spec(uri@),
{
    let u = chars_of(uri);
    if has(u.as_slice(), "events") {
        InsertTarget::Events
    } else if has(u.as_slice(), "reminders") {
        InsertTarget::Reminders
    } else {
        InsertTarget::Other
    }
}

/// The URI an INSERT answers with: the new row's URI, or `uri/1` for a
/// table the store does not keep.
pub open spec fn inserted_uri(t: InsertTarget, uri: Seq<char>, id: i64) -> Seq<char> {
    match t {
        InsertTarget::Events => "content://com.android.calendar/events/"@ + signed_decimal(id as int),
        InsertTarget::Reminders => "content://com.android.calendar/reminders/"@ + signed_decimal(id as int),
        InsertTarget::Other => uri + "/1"@,
    }
}

/// An INSERT on `uri` with `values` can be carried out: the id it hands out
/// is not the last one, and a new event's end fits in 64 bits.
pub open spec fn insert_ok_spec(d: CalendarData, uri: Seq<char>, values: Seq<(Seq<char>, crate::calendar::ValueView)>, now_ms: i64) -> bool {
    match insert_target_spec(uri) {
        InsertTarget::Events => d.next_event_id < i64::MAX && insertable(values, now_ms),
        InsertTarget::Reminders => d.next_reminder_id < i64::MAX,
        InsertTarget::Other => true,
    }
}

/// The store after an INSERT on `uri` with `values`, given the event those
/// values describe.
pub open spec fn after_insert_values(d: CalendarData, d2: CalendarData, uri: Seq<char>, values: Seq<(Seq<char>, crate::calendar::ValueView)>, now_ms: i64) -> bool {
    match insert_target_spec(uri) {
        InsertTarget::Events => exists|e: CalendarEvent|
            event_view(e) == event_spec(values, now_ms) && state_of(d2) == crate::calendar::after_insert_event(state_of(d), e),
        InsertTarget::Reminders => state_of(d2) == crate::calendar::after_insert_reminder(state_of(d), reminder_spec(values)),
        InsertTarget::Other => state_of(d2) == state_of(d),
    }
}

/// The id an INSERT on `uri` hands out.
pub open spec fn insert_id(d: CalendarData, uri: Seq<char>) -> i64 {
    match insert_target_spec(uri) {
        InsertTarget::Events => d.next_event_id,
        InsertTarget::Reminders => d.next_reminder_id,
        InsertTarget::Other => 1,
    }
}

/// What an UPDATE or DELETE on `uri` does to the store, and what it
/// answers.
pub open spec fn after_update_uri(d: CalendarData, d2: CalendarData, uri: Seq<char>, values: Seq<(Seq<char>, crate::calendar::ValueView)>, r: bool) -> bool {
    match trailing_id_spec(uri) {
        Some(id) => {
            &&& r == exists|i: int| first_event_at(d.events@, id, i)
            &&& exists|c: EventChanges| changes_view(c) == changes_spec(values) && state_of(d2) == after_update(state_of(d), id, c)
        },
        None => !r && state_of(d2) == state_of(d),
    }
}

pub open spec fn after_delete_uri(d: CalendarData, d2: CalendarData, uri: Seq<char>, r: bool) -> bool {
    match trailing_id_spec(uri) {
        Some(id) => {
            &&& r == exists|i: int| 0 <= i < d.events@.len() && d.events@[i].id == id
            &&& state_of(d2) == after_delete(state_of(d), id)
        },
        None => !r && state_of(d2) == state_of(d),
    }
}

/// The MIME type GET_TYPE answers for `uri`.
pub open spec fn type_spec(uri: Seq<char>) -> Seq<char> {
    if contains(uri, "events"@) {
        if trailing_id_spec(uri) is Some { "vnd.android.cursor.item/event"@ } else { "vnd.android.cursor.dir/event"@ }
    } else if contains(uri, "calendars"@) {
        "vnd.android.cursor.dir/calendar"@
    } else {
        "vnd.android.cursor.dir/unknown"@
    }
}

pub fn type_of_uri(uri: &str) -> (r: &'static str)
    ensures
        r@ == type_spec(uri@),
{
    let u = chars_of(uri);
    if has(u.as_slice(), "events") {
        if trailing_id(uri).is_some() {
            "vnd.android.cursor.item/event"
        } else {
            "vnd.android.cursor.dir/event"
        }
    } else if has(u.as_slice(), "calendars") {
        "vnd.android.cursor.dir/calendar"
    } else {
        "vnd.android.cursor.dir/unknown"
    }
}

/// The result of one operation of an APPLY_BATCH.
pub enum BatchResult {
    Uri(String),
    Count(i32),
}

/// An INSERT can be carried out whatever the time: an event id is left
/// and the event's end is given or fits an hour after its given start; a
/// reminder id is left; or the table is not one the store keeps.
pub open spec fn insert_sure(d: CalendarData, uri: Seq<char>, values: Seq<(Seq<char>, crate::calendar::ValueView)>) -> bool {
    match insert_target_spec(uri) {
        InsertTarget::Events => d.next_event_id < i64::MAX && (get_i64_spec(values, "dtend"@) is Some
            || (get_i64_spec(values, "dtstart"@) matches Some(s) && s + 3_600_000 <= i64::MAX)),
        InsertTarget::Reminders => d.next_reminder_id < i64::MAX,
        InsertTarget::Other => true,
    }
}

/// An INSERT cannot be carried out whatever the time: no event or
/// reminder id is left, or an event without end starts too late for its
/// hour to fit.
pub open spec fn insert_never(d: CalendarData, uri: Seq<char>, values: Seq<(Seq<char>, crate::calendar::ValueView)>) -> bool {
    match insert_target_spec(uri) {
        InsertTarget::Events => d.next_event_id == i64::MAX || (get_i64_spec(values, "dtend"@) is None
            && (get_i64_spec(values, "dtstart"@) matches Some(s) && s + 3_600_000 > i64::MAX)),
        InsertTarget::Reminders => d.next_reminder_id == i64::MAX,
        InsertTarget::Other => false,
    }
}

impl CalendarService {
    /// Whether an INSERT on `uri` with `values` at time `now_ms` can be
    /// carried out (see `insert_ok_spec`).
    pub fn insert_ok(&self, uri: &str, values: &ContentValues, now_ms: i64) -> (r: bool)
        ensures
            r == insert_ok_spec(self.data, uri@, values@, now_ms),
    {
        match insert_target(uri) {
            InsertTarget::Events => {
                if self.data.next_event_id == i64::MAX {
                    return false;
                }
                match values.get_i64("dtend") {
                    Some(_) => true,
                    None => {
                        let start = match values.get_i64("dtstart") {
                            Some(v) => v,
                            None => now_ms,
                        };
                        start <= i64::MAX - 3_600_000
                    },
                }
            },
            InsertTarget::Reminders => self.data.next_reminder_id < i64::MAX,
            InsertTarget::Other => true,
        }
    }

    /// INSERT on `uri`: stores the event or reminder `values` describe and
    /// answers with its URI; `now_ms` is the current time, the start of an
    /// event whose values give none.
    pub fn insert_values(&mut self, uri: &str, values: &ContentValues, now_ms: i64) -> (r: String)
        requires
            insert_ok_spec(old(self).data, uri@, values@, now_ms),
        ensures
            r@ == inserted_uri(insert_target_spec(uri@), uri@, insert_id(old(self).data, uri@)),
            after_insert_values(old(self).data, final(self).data, uri@, values@, now_ms),
    {
        match insert_target(uri) {
            InsertTarget::Events => {
                let event = event_from_values(values, now_ms);
                let id = self.insert_event(event);
                let n = signed_text(id);
                concat("content://com.android.calendar/events/", n.as_str())
            },
            InsertTarget::Reminders => {
                let reminder = reminder_from_values(values);
                let id = self.insert_reminder(reminder);
                let n = signed_text(id);
                concat("content://com.android.calendar/reminders/", n.as_str())
            },
            InsertTarget::Other => concat(uri, "/1"),
        }
    }

    /// INSERT at the current time; `None` when it cannot be carried out
    /// (see `insert_ok_spec`), the store then unchanged. Whether it can is
    /// settled by the store and the values alone (`insert_sure`,
    /// `insert_never`) except for an event with neither start nor end,
    /// which starts at the clock's time.
    pub fn insert_now(&mut self, uri: &str, values: &ContentValues) -> (r: Option<String>)
        ensures
            insert_sure(old(self).data, uri@, values@) ==> r is Some,
            insert_never(old(self).data, uri@, values@) ==> r is None,
            match r {
                Some(u) => exists|now_ms: i64|
                    insert_ok_spec(old(self).data, uri@, values@, now_ms)
                    && u@ == inserted_uri(insert_target_spec(uri@), uri@, insert_id(old(self).data, uri@))
                    && after_insert_values(old(self).data, final(self).data, uri@, values@, now_ms),
                None => final(self).data == old(self).data,
            },
    {
        let now_ms = crate::clock::rtc_time_ms();
        if self.insert_ok(uri, values, now_ms) {
            Some(self.insert_values(uri, values, now_ms))
        } else {
            None
        }
    }

    /// UPDATE on `uri`: applies `values` to the event whose id ends the URI;
    /// false when the URI names none or no such event is stored.
    pub fn update_values(&mut self, uri: &str, values: &ContentValues) -> (r: bool)
        ensures
            after_update_uri(old(self).data, final(self).data, uri@, values@, r),
    {
        match trailing_id(uri) {
            Some(id) => {
                let changes = changes_from_values(values);
                self.update_event(id, &changes)
            },
            None => false,
        }
    }

    /// DELETE on `uri`: removes the event whose id ends the URI, with its
    /// reminders; false when the URI names none or no such event is stored.
    pub fn delete_uri(&mut self, uri: &str) -> (r: bool)
        ensures
            after_delete_uri(old(self).data, final(self).data, uri@, r),
    {
        match trailing_id(uri) {
            Some(id) => self.delete_event(id),
            None => false,
        }
    }

    /// One operation of an APPLY_BATCH: 1 inserts, 2 updates, 3 deletes;
    /// any other type does nothing and counts 0.
    pub fn apply_batch_op(&mut self, op_type: i32, uri: &str, values: &ContentValues, now_ms: i64) -> (r: BatchResult)
        requires
            op_type == 1 ==> insert_ok_spec(old(self).data, uri@, values@, now_ms),
        ensures
            op_type == 1 ==> (r matches BatchResult::Uri(u)
                && u@ == inserted_uri(insert_target_spec(uri@), uri@, insert_id(old(self).data, uri@))
                && after_insert_values(old(self).data, final(self).data, uri@, values@, now_ms)),
            op_type == 2 ==> exists|b: bool| after_update_uri(old(self).data, final(self).data, uri@, values@, b)
                && r == BatchResult::Count(if b { 1 } else { 0 }),
            op_type == 3 ==> exists|b: bool| after_delete_uri(old(self).data, final(self).data, uri@, b)
                && r == BatchResult::Count(if b { 1 } else { 0 }),
            !(1 <= op_type <= 3) ==> r == BatchResult::Count(0) && final(self).data == old(self).data,
    {
        if op_type == 1 {
            BatchResult::Uri(self.insert_values(uri, values, now_ms))
        } else if op_type == 2 {
            let b = self.update_values(uri, values);
            BatchResult::Count(if b { 1 } else { 0 })
        } else if op_type == 3 {
            let b = self.delete_uri(uri);
            BatchResult::Count(if b { 1 } else { 0 })
        } else {
            BatchResult::Count(0)
        }
    }
}

/// The URI an event INSERT answers with names the new event: reading the
/// id back from its last segment gives the id the event was stored under.
pub proof fn law_inserted_uri_names_id(uri: Seq<char>, id: i64)
    ensures
        trailing_id_spec(inserted_uri(InsertTarget::Events, uri, id)) == Some(id),
        trailing_id_spec(inserted_uri(InsertTarget::Reminders, uri, id)) == Some(id),
{
    reveal_strlit("content://com.android.calendar/events/");
    reveal_strlit("content://com.android.calendar/reminders/");
    crate::text::lemma_parse_signed_decimal(id);
    crate::text::lemma_after_last_slash("content://com.android.calendar/events/"@, signed_decimal(id as int));
    crate::text::lemma_after_last_slash("content://com.android.calendar/reminders/"@, signed_decimal(id as int));
}

} // verus!
