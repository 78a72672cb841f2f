use arod::calendar::{
    CalendarData, CalendarEvent, CalendarService, ContentValue, ContentValues, EventChanges,
};
use arod::calendar_provider::{
    adjust_end, answer_query, instance_window, instances_in, local_julian_and_minute, query_table,
    type_of_uri, BatchResult, CalendarTable, LocalTime,
};
use arod::cursor::Cell;
use arod::media::trailing_id;

fn values(pairs: Vec<(&str, ContentValue)>) -> ContentValues {
    ContentValues { entries: pairs.into_iter().map(|(k, v)| (k.to_string(), v)).collect() }
}

fn text(s: &str) -> ContentValue {
    ContentValue::Text(s.to_string())
}

#[test]
fn test_calendar_service_crud_and_persistence() {
    let mut service = CalendarService::new(CalendarData::default_data("UTC", 1_700_000_000_000));

    // Check defaults
    assert_eq!(service.data.calendars.len(), 1);
    assert_eq!(service.data.calendars[0].owner_account, "local@aro");
    assert_eq!(service.data.events.len(), 2);

    // Insert event
    let id = service.insert_event(CalendarEvent {
        id: 0,
        calendar_id: 1,
        title: "Project Review".into(),
        description: "Review Milestone 4".into(),
        location: "Room A".into(),
        dtstart: 1000000,
        dtend: 1003600,
        all_day: false,
        duration: None,
        timezone: "UTC".into(),
        end_timezone: None,
        rrule: None,
        has_alarm: true,
        color: Some(-14575885),
    });
    assert_eq!(id, 3);

    // Update event
    let changes = EventChanges {
        title: Some("Project Review - Completed".into()),
        description: None,
        location: None,
        dtstart: None,
        dtend: None,
        all_day: None,
        timezone: None,
        rrule: None,
        has_alarm: None,
    };
    let updated = service.update_event(id, &changes);
    assert!(updated);
    let ev = service.data.events.iter().find(|e| e.id == id).expect("event should exist");
    assert_eq!(ev.title, "Project Review - Completed");

    // Delete event
    assert!(service.delete_event(id));
    assert!(service.data.events.iter().find(|e| e.id == id).is_none());
}

#[test]
fn test_calendar_provider_batch_and_query() {
    let mut service = CalendarService::new(CalendarData::default_data("UTC", 1_700_000_000_000));
    let v = values(vec![("title", text("Batch Created Event"))]);
    let r = service.apply_batch_op(1, "content://com.android.calendar/events", &v, 1_700_000_000_000);
    assert!(matches!(r, BatchResult::Uri(ref u) if u == "content://com.android.calendar/events/3"));
    let ev = service.data.events.iter().find(|e| e.title == "Batch Created Event");
    assert!(ev.is_some(), "Batch created event must be present in service");
    assert_eq!(ev.unwrap().id, 3);
}

#[test]
fn default_data_places_samples_on_the_half_hour() {
    let d = CalendarData::default_data("Europe/Paris", 3_600_000 * 10 + 5);
    assert_eq!(d.events[0].dtstart, 3_600_000 * 10 + 1_800_000);
    assert_eq!(d.events[0].dtend, 3_600_000 * 11 + 1_800_000);
    assert_eq!(d.events[1].dtstart, 3_600_000 * 10 + 1_800_000 + 86_400_000);
    assert_eq!(d.calendars[0].timezone, "Europe/Paris");
    assert_eq!(d.next_event_id, 3);
    assert_eq!(d.next_reminder_id, 1);
}

#[test]
fn insert_fills_defaults_and_answers_with_the_new_uri() {
    let mut service = CalendarService::new(CalendarData::default_data("UTC", 0));
    let v = values(vec![("dtstart", ContentValue::Integer(5_000)), ("allDay", text("TRUE"))]);
    let uri = service.insert_values("content://com.android.calendar/events", &v, 99);
    assert_eq!(uri, "content://com.android.calendar/events/3");
    assert_eq!(trailing_id(&uri), Some(3));
    let ev = service.data.events.last().unwrap();
    assert_eq!(ev.title, "New Event");
    assert_eq!(ev.dtstart, 5_000);
    assert_eq!(ev.dtend, 5_000 + 3_600_000);
    assert!(ev.all_day);
    assert_eq!(ev.timezone, "UTC");
    assert_eq!(ev.calendar_id, 1);

    let r = values(vec![("event_id", ContentValue::Integer(3)), ("minutes", text("15"))]);
    let uri = service.insert_values("content://com.android.calendar/reminders", &r, 0);
    assert_eq!(uri, "content://com.android.calendar/reminders/1");
    let rem = &service.data.reminders[0];
    assert_eq!((rem.event_id, rem.minutes, rem.method), (3, 15, 1));

    let other = service.insert_values("content://com.android.calendar/attendees", &r, 0);
    assert_eq!(other, "content://com.android.calendar/attendees/1");
}

#[test]
fn later_values_replace_earlier_ones() {
    let v = values(vec![("title", text("first")), ("title", text("second"))]);
    assert_eq!(v.get_str("title").as_deref(), Some("second"));
    assert!(!v.contains_key("dtstart"));
    assert_eq!(v.get_i64("title"), None);
}

#[test]
fn update_and_delete_go_by_the_trailing_id() {
    let mut service = CalendarService::new(CalendarData::default_data("UTC", 0));
    let v = values(vec![("title", text("Renamed")), ("hasAlarm", ContentValue::Integer(1))]);
    assert!(service.update_values("content://com.android.calendar/events/2", &v));
    assert_eq!(service.data.events[1].title, "Renamed");
    assert!(service.data.events[1].has_alarm);
    assert!(!service.update_values("content://com.android.calendar/events", &v));
    assert!(!service.update_values("content://com.android.calendar/events/77", &v));
    assert!(service.delete_uri("content://com.android.calendar/events/1"));
    assert!(!service.delete_uri("content://com.android.calendar/events/1"));
    assert_eq!(service.data.events.len(), 1);
    assert!(matches!(service.apply_batch_op(9, "x", &v, 0), BatchResult::Count(0)));
    assert!(matches!(service.apply_batch_op(3, "content://com.android.calendar/events/2", &v, 0), BatchResult::Count(1)));
}

#[test]
fn delete_takes_the_event_reminders_along() {
    let mut service = CalendarService::new(CalendarData::default_data("UTC", 0));
    let r = values(vec![("event_id", ContentValue::Integer(2))]);
    service.insert_values("content://com.android.calendar/reminders", &r, 0);
    assert_eq!(service.data.reminders.len(), 1);
    assert!(service.delete_event(2));
    assert_eq!(service.data.reminders.len(), 0);
}

#[test]
fn get_type_and_table_follow_the_uri() {
    assert_eq!(type_of_uri("content://com.android.calendar/events/4"), "vnd.android.cursor.item/event");
    assert_eq!(type_of_uri("content://com.android.calendar/events"), "vnd.android.cursor.dir/event");
    assert_eq!(type_of_uri("content://com.android.calendar/calendars"), "vnd.android.cursor.dir/calendar");
    assert_eq!(type_of_uri("content://com.android.calendar/attendees"), "vnd.android.cursor.dir/unknown");
    assert_eq!(query_table("content://com.android.calendar/instances/when/1/2"), CalendarTable::Instances);
    assert_eq!(query_table("content://com.android.calendar/calendars"), CalendarTable::Calendars);
    assert_eq!(query_table("content://com.android.calendar/attendees"), CalendarTable::Other);
}

#[test]
fn instance_windows_from_when_and_whenbyday() {
    assert_eq!(instance_window("content://com.android.calendar/instances/when/100/200"), Some((100, 200)));
    assert_eq!(instance_window("content://com.android.calendar/instances/when/x"), Some((0, i64::MAX)));
    assert_eq!(instance_window("content://com.android.calendar/instances/when"), Some((0, i64::MAX)));
    assert_eq!(
        instance_window("content://com.android.calendar/instances/whenbyday/2440590/2440591"),
        Some((86_400_000, 5 * 86_400_000))
    );
    assert_eq!(instance_window("content://com.android.calendar/instances"), Some((0, i64::MAX)));
    assert_eq!(instance_window("content://com.android.calendar/instances/whenbyday/9223372036854775807"), None);
}

#[test]
fn instances_overlap_the_window() {
    let d = CalendarData::default_data("UTC", 0);
    let s0 = d.events[0].dtstart;
    assert_eq!(instances_in(&d.events, 0, s0 + 1), vec![0]);
    assert_eq!(instances_in(&d.events, 0, i64::MAX), vec![0, 1]);
    assert_eq!(instances_in(&d.events, s0 + 3_600_000, i64::MAX), vec![1]);
}

#[test]
fn julian_day_rounds_toward_zero() {
    assert_eq!(local_julian_and_minute(0, 0, 0, 0), (2440588, 0));
    assert_eq!(local_julian_and_minute(86_400_000 + 5, 3600, 1, 30), (2440589, 90));
    assert_eq!(local_julian_and_minute(-1, 0, 23, 59), (2440588, 1439));
    assert_eq!(adjust_end(10, 11, 0), (10, 1440));
    assert_eq!(adjust_end(10, 10, 0), (10, 0));
}

#[test]
fn query_rows_follow_the_projection() {
    let d = CalendarData::default_data("UTC", 0);
    let a = answer_query(&d, "content://com.android.calendar/events/2", vec!["title".into(), "nope".into()], "UTC", &vec![]);
    assert_eq!(a.columns, vec!["title".to_string(), "nope".to_string()]);
    assert_eq!(a.rows.len(), 1);
    assert!(matches!(&a.rows[0][0], Cell::Text(t) if t == "Team Standup"));
    assert!(matches!(a.rows[0][1], Cell::Null));

    let a = answer_query(&d, "content://com.android.calendar/calendars", vec![], "UTC", &vec![]);
    assert_eq!(a.columns.len(), 10);
    assert!(matches!(a.rows[0][3], Cell::Integer(-14575885)));

    let a = answer_query(&d, "content://com.android.calendar/properties", vec![], "Asia/Tokyo", &vec![]);
    assert_eq!(a.rows.len(), 3);
    assert!(matches!(&a.rows[1][1], Cell::Text(t) if t == "Asia/Tokyo"));

    let a = answer_query(&d, "content://com.android.calendar/attendees", vec![], "UTC", &vec![]);
    assert_eq!(a.columns, vec!["_id".to_string()]);
    assert!(a.rows.is_empty());

    let utc = LocalTime { gmtoff: 0, hour: 0, minute: 30 };
    let locals = vec![(utc, utc), (utc, utc)];
    let a = answer_query(&d, "content://com.android.calendar/instances/when/0/9223372036854775807", vec!["startDay".into(), "dispAllday".into()], "UTC", &locals);
    assert_eq!(a.rows.len(), 2);
    assert!(matches!(a.rows[0][0], Cell::Integer(2440588)));
    assert!(matches!(a.rows[0][1], Cell::Integer(1)));
}

#[test]
fn loaded_data_is_completed_from_defaults() {
    let defaults = CalendarData::default_data("UTC", 0);
    let empty = CalendarData { calendars: vec![], events: vec![], reminders: vec![], next_event_id: 1, next_reminder_id: 4 };
    let d = empty.merge_loaded(defaults);
    assert_eq!(d.calendars.len(), 1);
    assert_eq!(d.events.len(), 2);
    assert_eq!(d.next_event_id, 3);
    assert_eq!(d.next_reminder_id, 4);
}
