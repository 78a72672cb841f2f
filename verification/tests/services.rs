use arod::activity::{
    infer_mime_type, main_intent, matches_mime, provider_for, resolve, uri_scheme, ActivityDecl, ActivityTask,
    AppModel, IntentFilter, RunningServices, StartRefusal, FLAG_ACTIVITY_NEW_TASK,
};
use arod::alarm::{clock_for, delay_ms, fire_action, AlarmBook, AlarmClock, FireAction, LaunchTarget};
use arod::clock::rtc_time_ms;
use arod::compat::{parse_compat_config, PlatformCompatService};
use arod::gralloc::{bytes_per_pixel, can_allocate, hal_format_to_gbm, is_supported, memfd_geometry, BufferDesc, Buffer, HANDLE_MAGIC};
use arod::package::{application_info, AppRecord, Registry};
use arod::services::{name_of, AccessibilityService, Answer, HostNet, NetworkService, Payload, PowerService, UserService};
use arod::session::{join_path, Session};
use arod::settings::{CallReply, PutValue, SettingsFile, SettingsProvider, SettingsService};
use arod::shade::{note_body, note_summary, NoteKey, Shade};
use arod::window::{place_window, resized_frame, resized_size, Rect, WindowGeom, WindowKind};

fn strings(v: &[&str]) -> Vec<String> {
    v.iter().map(|s| s.to_string()).collect()
}

#[test]
fn test_alarm_clocks() {
    let boottime = rtc_time_ms();
    assert!(boottime > 0, "boottime should be > 0");
    let rtc = rtc_time_ms();
    assert!(rtc > 1_000_000_000_000, "rtc ms should be after year 2001");

    // 10s timer on the same clock
    let trigger = boottime + 10_000;
    let delay = delay_ms(trigger, rtc_time_ms());
    assert!(delay > 9_000 && delay <= 10_000, "delay should be around 10s: {delay}");
}

#[test]
fn alarm_clock_and_delay() {
    assert_eq!(clock_for(0), AlarmClock::Wall);
    assert_eq!(clock_for(1), AlarmClock::Wall);
    assert_eq!(clock_for(2), AlarmClock::SinceBoot);
    assert_eq!(clock_for(7), AlarmClock::SinceBoot);
    assert_eq!(delay_ms(100, 40), 60);
    assert_eq!(delay_ms(100, 400), 0);
}

#[test]
fn firing_alarm_picks_service_or_activity() {
    let t = |intent_type: i32, class: Option<&str>| LaunchTarget {
        package: None,
        class: class.map(|c| c.to_string()),
        action: None,
        data: None,
        categories: vec![],
        extras: None,
        intent_type,
    };
    assert_eq!(fire_action(&t(4, None)), FireAction::StartService);
    assert_eq!(fire_action(&t(0, Some("a.AlarmService"))), FireAction::StartService);
    assert_eq!(fire_action(&t(2, Some("a.Main"))), FireAction::StartActivity);
    assert_eq!(fire_action(&t(1, Some("a.Main"))), FireAction::StartService);
    assert_eq!(fire_action(&t(1, None)), FireAction::StartActivity);
}

#[test]
fn alarm_set_replaces_and_remove_cancels() {
    let mut book = AlarmBook::new();
    assert!(book.set(Some(7), 1).is_empty());
    assert!(book.set(Some(8), 2).is_empty());
    assert_eq!(book.set(Some(7), 3), vec![1]);
    assert_eq!(book.entries, vec![(8, 2), (7, 3)]);
    assert!(book.set(None, 4).is_empty());
    assert_eq!(book.remove(8), vec![2]);
    assert_eq!(book.remove_all(), vec![3]);
    assert!(book.entries.is_empty());
}

#[test]
fn scheme_and_mime_of_intent_data() {
    assert_eq!(uri_scheme("Content://x/y").as_deref(), Some("content"));
    assert_eq!(uri_scheme("no-scheme"), None);
    assert_eq!(infer_mime_type("content://com.android.calendar/events/3"), Some("vnd.android.cursor.item/event"));
    assert_eq!(infer_mime_type("content://com.android.calendar/events"), Some("vnd.android.cursor.dir/event"));
    assert_eq!(infer_mime_type("file:///a/b.jpeg"), Some("image/jpeg"));
    assert_eq!(infer_mime_type("file:///a/b.txt"), None);
    assert!(matches_mime("*/*", "image/png"));
    assert!(matches_mime("IMAGE/*", "image/png"));
    assert!(matches_mime("image/png", "image/png"));
    assert!(!matches_mime("image/png", "image/jpeg"));
    assert!(!matches_mime("audio/*", "image/png"));
}

fn app() -> AppModel {
    let view = IntentFilter {
        actions: strings(&["android.intent.action.VIEW"]),
        categories: strings(&["android.intent.category.DEFAULT"]),
        schemes: vec![],
        mime_types: strings(&["image/*"]),
    };
    AppModel {
        package: "org.example".into(),
        main_activity: Some("org.example.Main".into()),
        requested_activity: None,
        activities: vec![
            ActivityDecl { name: "org.example.Main".into(), target_activity: None, filters: vec![] },
            ActivityDecl { name: "org.example.Viewer".into(), target_activity: None, filters: vec![view] },
            ActivityDecl { name: "org.example.Alias".into(), target_activity: Some("org.example.Main".into()), filters: vec![] },
        ],
    }
}

#[test]
fn implicit_intents_resolve_through_filters() {
    let a = app();
    assert_eq!(resolve(&a.activities, "android.intent.action.VIEW", Some("content://media/x.png")).as_deref(), Some("org.example.Viewer"));
    assert_eq!(resolve(&a.activities, "android.intent.action.VIEW", Some("content://media/x.ogg")), None);
    assert_eq!(resolve(&a.activities, "android.intent.action.SEND", Some("content://media/x.png")), None);
}

#[test]
fn start_requests_land_once_in_the_task() {
    let a = app();
    let mut task = ActivityTask { stack: vec![] };
    let pkg = Some("org.example".to_string());
    assert_eq!(task.start(&a, &pkg, &Some("org.example.Alias".into()), &None, &None).as_deref(), Ok("org.example.Main"));
    assert_eq!(task.start(&a, &pkg, &None, &None, &None), Err(StartRefusal::AlreadyRunning));
    assert_eq!(task.start(&a, &Some("other".into()), &Some("x".into()), &None, &None), Err(StartRefusal::OtherPackage));
    assert_eq!(task.start(&a, &None, &None, &None, &None), Err(StartRefusal::NoAction));
    assert_eq!(task.start(&a, &None, &Some("org.example.Nope".into()), &None, &None), Err(StartRefusal::Undeclared));
    assert_eq!(
        task.start(&a, &None, &None, &Some("android.intent.action.VIEW".into()), &Some("file:///p.png".into())).as_deref(),
        Ok("org.example.Viewer")
    );
    assert_eq!(task.stack, strings(&["org.example.Main", "org.example.Viewer"]));
    assert_eq!(task.pop().as_deref(), Some("org.example.Viewer"));
}

#[test]
fn launch_picks_deep_link_or_main() {
    let a = app();
    let mut task = ActivityTask { stack: vec![] };
    let (t, intent) = task.launch(&a, &None).unwrap();
    assert_eq!(t, "org.example.Main");
    assert_eq!(intent.action.as_deref(), Some("android.intent.action.MAIN"));
    let (t, intent) = task.launch(&a, &Some("content://x/y.png".into())).unwrap();
    assert_eq!(t, "org.example.Viewer");
    assert_eq!(intent.data.as_deref(), Some("content://x/y.png"));
    let m = main_intent("p", "p.A");
    assert_eq!(m.flags, FLAG_ACTIVITY_NEW_TASK);
    assert_eq!(m.categories, strings(&["android.intent.category.LAUNCHER"]));
}

#[test]
fn providers_by_authority() {
    let p = provider_for("com.android.calendar").unwrap();
    assert_eq!(p.name, "com.android.providers.calendar.CalendarProvider2");
    assert_eq!(p.init_order, 100);
    assert!(provider_for("contacts").is_none());
}

#[test]
fn services_start_once_and_stop_by_token() {
    let mut s = RunningServices { entries: vec![] };
    assert_eq!(s.start("a.Svc", 11), (11, true));
    assert_eq!(s.start("a.Svc", 12), (11, false));
    assert_eq!(s.start("b.Svc", 13), (13, true));
    s.stop(11);
    assert_eq!(s.entries.len(), 1);
    assert_eq!(s.entries[0].1, 13);
}

#[test]
fn shade_reposts_in_place() {
    let mut shade = Shade::new();
    let key = |id: i32| NoteKey { package: "p".into(), tag: None, id };
    let a = shade.post(key(1), "p".into(), "P".into(), "t".into(), "b".into(), false, 0, None);
    let b = shade.post(key(2), "p".into(), "P".into(), "t2".into(), "b".into(), false, 0, None);
    let a2 = shade.post(key(1), "p".into(), "P".into(), "t3".into(), "b".into(), false, 0, None);
    assert_eq!((a, b, a2), (1, 2, 1));
    assert_eq!(shade.notes.len(), 2);
    assert_eq!(shade.notes[0].title, "t3");
    assert_eq!(shade.remove(&key(1)), Some(1));
    assert_eq!(shade.remove(&key(1)), None);
    assert!(shade.dismiss(2).is_some());
    assert!(shade.notes.is_empty());
    let q = NoteKey { package: "q".into(), tag: Some("t".into()), id: 3 };
    shade.post(q, "q".into(), "Q".into(), "x".into(), "y".into(), false, 0, None);
    assert_eq!(shade.remove_all("q"), vec![3]);
    assert_eq!(note_summary(None, "pkg"), "pkg");
    assert_eq!(note_body(Some("a".into()), Some("b".into())), "a\nb");
    assert_eq!(note_body(None, None), "");
}

#[test]
fn stub_services_answer_by_name() {
    assert_eq!(AccessibilityService.answer("getFocusColor"), Answer::Int(0xFF00_00FFu32 as i32));
    assert_eq!(AccessibilityService.answer("bogus"), Answer::Refused);
    assert_eq!(PowerService.answer("isInteractive"), Answer::Bool(true));
    assert_eq!(PowerService.answer("isSomething"), Answer::Bool(false));
    assert_eq!(PowerService.answer("getFoo"), Answer::Int(0));
    assert_eq!(PowerService.answer("nap"), Answer::Done);
    assert_eq!(UserService.answer("getUserName"), Answer::Text("Owner"));
    assert_eq!(UserService.answer("getUserInfo"), Answer::Payload(Payload::UserInfoOf));
    assert_eq!(name_of(&[(1, "a"), (2, "b"), (2, "c")], 2), "b");
    assert_eq!(name_of(&[(1, "a")], 9), "?");
}

#[test]
fn network_capabilities_follow_the_host() {
    let mut n = NetworkService { net: HostNet { online: true, metered: false, validated: true, transport: 1 } };
    let base: i64 = (1 << 12) | (1 << 13) | (1 << 14) | (1 << 15) | (1 << 18) | (1 << 20) | (1 << 21) | (1 << 28);
    assert_eq!(n.caps_mask(), base | (1 << 16) | (1 << 11));
    assert_eq!(n.transport_mask(), 2);
    assert_eq!(n.network_info(), (1, "WIFI", "CONNECTED"));
    assert_eq!(n.answer("getActiveNetwork"), Answer::Payload(Payload::Network));
    assert_eq!(n.answer("requestNetwork"), Answer::Done);
    assert_eq!(n.answer("requestRouteToHost"), Answer::Bool(false));
    n.net = HostNet { online: false, metered: true, validated: false, transport: 3 };
    assert_eq!(n.caps_mask(), base);
    assert_eq!(n.answer("getActiveNetwork"), Answer::TypedNone);
    assert_eq!(n.answer("isActiveNetworkMetered"), Answer::Bool(true));
    assert_eq!(n.network_info(), (9, "ETHERNET", "DISCONNECTED"));
}

#[test]
fn window_placement_by_kind() {
    let p = place_window(false, 1, 0, -1, -1, 0, 0, 800, 600);
    assert_eq!(p.kind, WindowKind::App);
    assert_eq!(p.frame, Rect { left: 0, top: 0, right: 800, bottom: 600 });
    let p = place_window(true, 1000, 0, -1, -1, 10, 20, 800, 600);
    assert_eq!(p.kind, WindowKind::Popup);
    assert_eq!((p.width, p.height), (392, 192));
    assert_eq!(p.frame, Rect { left: 10, top: 20, right: 402, bottom: 212 });
    assert_eq!(p.layer_name, "popup-window");
    let p = place_window(true, 2, 0, 100, 100, 10, 20, 800, 600);
    assert_eq!(p.kind, WindowKind::Dialog);
    assert_eq!(p.pos, (0, 0));
    let mut g = WindowGeom::placed(&p, 2);
    assert_eq!(g.relayout_flags(), 3);
    assert_eq!(g.relayout_flags(), 0);
    assert_eq!(resized_size((800, 600), 400, 300, 2), None);
    assert_eq!(resized_size((800, 600), 500, 300, 2), Some((1000, 600)));
    let r = Rect { left: 1, top: 2, right: 3, bottom: 4 };
    assert_eq!(resized_frame(true, r, p.frame), r);
}

#[test]
fn gralloc_formats_and_geometry() {
    assert_eq!(bytes_per_pixel(1), Some(4));
    assert_eq!(bytes_per_pixel(4), Some(2));
    assert_eq!(bytes_per_pixel(9), None);
    assert_eq!(hal_format_to_gbm(1), Some(0x34324241));
    assert_eq!(memfd_geometry(100, 10, 4), (128, 8192));
    let desc = BufferDesc { name: "b".into(), width: 100, height: 10, layer_count: 1, format: 1, usage: 0x1_0000_0033 };
    assert!(can_allocate(&desc));
    assert!(is_supported(&desc));
    let info = Buffer { id: 0x2_0000_0005, desc, stride: 128, size: 8192, is_gbm: false, modifier: 0 };
    let ints = info.handle_ints();
    assert_eq!(ints[0], HANDLE_MAGIC);
    assert_eq!(&ints[6..8], &[0x33, 1]);
    assert_eq!(&ints[9..11], &[5, 2]);
}

#[test]
fn compat_config_is_read_and_applied() {
    let text = r#"<config><compat-change id="100" name="A" enableSinceTargetSdk="30"/>
        <compat-change id="200" name="B" disabled="true">
        <compat-change id="300" enableAfterTargetSdk="33"/>
        <compat-change name="no-id"/></config>"#;
    let changes = parse_compat_config(text);
    assert_eq!(changes.len(), 3);
    assert_eq!(changes[0].0, 100);
    assert_eq!(changes[0].1.name, "A");
    assert_eq!(changes[0].1.enable_since_target_sdk, Some(30));
    assert!(changes[1].1.disabled);
    assert_eq!(changes[2].1.enable_since_target_sdk, Some(34));
    let svc = PlatformCompatService { changes, app_target_sdk: None };
    assert!(svc.is_enabled(100, 30));
    assert!(!svc.is_enabled(100, 29));
    assert!(!svc.is_enabled(200, 40));
    assert!(svc.is_enabled(999, 1));
    assert_eq!(svc.target_sdk_of_caller(), 37);
}

#[test]
fn settings_calls_read_back_what_they_write() {
    let mut p = SettingsProvider { service: SettingsService::new(SettingsFile::empty()) };
    assert!(matches!(p.call("PUT_system", "font_scale", Some(PutValue::Long(-3))), CallReply::Empty));
    assert!(matches!(p.call("GET_system", "font_scale", None), CallReply::Value(Some(ref v)) if v == "-3"));
    assert!(matches!(p.call("GET_secure", "font_scale", None), CallReply::Value(None)));
    assert!(matches!(p.call("PUT_global", "x", Some(PutValue::Bool(true))), CallReply::Empty));
    assert_eq!(p.service.get("global", "x").as_deref(), Some("1"));
    assert!(matches!(p.call("LIST_config", "", None), CallReply::Empty));
}

#[test]
fn registry_lookups_and_application_info() {
    let rec = AppRecord {
        package: "org.example".into(),
        apk_in_ns: "/data/app/base.apk".into(),
        app_class: None,
        target_sdk: 34,
        min_sdk: 24,
        uid: 10001,
        version_code: 7,
        version_name: "1.0".into(),
        app_theme: 5,
        label_res: 1,
        icon_res: 2,
        app_component_factory: None,
    };
    let info = application_info(&rec);
    assert_eq!(info.native_library_dir, "/data/app/org.example/lib/x86_64");
    assert_eq!(info.data_dir, "/data/user/0/org.example");
    assert_eq!(info.device_protected_data_dir, "/data/user_de/0/org.example");
    let reg = Registry { apps: vec![rec] };
    assert_eq!(reg.package_uid(Some("org.example")), 10001);
    assert_eq!(reg.package_uid(Some("x")), -1);
    assert_eq!(reg.name_for_uid(10001).as_deref(), Some("org.example"));
    assert!(reg.is_available(Some("org.example")));
    assert_eq!(reg.first_target_sdk(), 34);
}

#[test]
fn session_paths_join_the_runtime_dir() {
    assert_eq!(join_path("/run/aro", "binderfs"), "/run/aro/binderfs");
    assert_eq!(join_path("/run/aro/", "socket"), "/run/aro/socket");
    let s = Session::paths("/tmp/r");
    assert_eq!(s.binderfs, "/tmp/r/binderfs");
    assert_eq!(s.sockets, "/tmp/r/socket");
}
