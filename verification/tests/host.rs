use arod::activity::{
    document_result, picked_path, ActivityDecl, ActivityService, ActivityTask, ActivityTaskService, AppModel,
    RunningServices, StartRefusal, FLAG_ACTIVITY_NEW_TASK, FLAG_GRANT_READ_URI_PERMISSION, RESULT_CANCELED, RESULT_OK,
};
use arod::gralloc::{gbm_info, memfd_info, AllocatorService, BufferDesc, Gralloc};
use arod::playback::source_read_len;
use arod::service_hosts::{external_allowed, host_apk_path, service_process_name, service_uid, Binding, ServiceProcesses};
use arod::alarm::LaunchTarget;
use arod::clock::epoch_millis_i64;
use arod::media::{hidden_name, system_sound_file, user_alarm_file, MediaService, SoundFile, VisualFile};
use arod::playback::{recorder_call, RecorderCall, RecorderState};
use arod::shade::{shade_command, ShadeCommand};
use arod::userdirs::{user_dir, walk_continues, MAX_VISUAL_ITEMS, MAX_WALK_DEPTH};
use arod::services::{Answer, Payload};

fn model() -> AppModel {
    AppModel {
        package: "org.example".into(),
        main_activity: Some("org.example.Main".into()),
        requested_activity: None,
        activities: vec![
            ActivityDecl { name: "org.example.Main".into(), target_activity: None, filters: vec![] },
            ActivityDecl { name: "org.example.Second".into(), target_activity: None, filters: vec![] },
        ],
    }
}

fn manager(url: Option<&str>) -> ActivityService {
    ActivityService {
        task: ActivityTask { stack: vec![] },
        services: RunningServices { entries: vec![] },
        next_service_start_id: 1,
        launch_url: url.map(|u| u.to_string()),
    }
}

#[test]
fn activity_manager_answers() {
    let m = manager(None);
    assert_eq!(m.answer("attachApplication"), Answer::Payload(Payload::AttachApplication));
    assert_eq!(m.answer("getContentProviderExternal"), Answer::Payload(Payload::ContentProviderOf));
    assert_eq!(m.answer("refContentProvider"), Answer::Bool(false));
    assert_eq!(m.answer("removeContentProvider"), Answer::Silent);
    assert_eq!(m.answer("registerReceiver"), Answer::TypedNone);
    assert_eq!(m.answer("handleApplicationWtf"), Answer::Bool(false));
    assert_eq!(m.answer("stopServiceToken"), Answer::Payload(Payload::ServiceStopped));
    assert_eq!(m.answer("killBackgroundProcesses"), Answer::Refused);
}

#[test]
fn activity_manager_starts_activities_with_their_intent() {
    let app = model();
    let mut m = manager(None);
    let (t, i) = m.finish_attach(&app).unwrap();
    assert_eq!(t, "org.example.Main");
    assert_eq!(i.action.as_deref(), Some("android.intent.action.MAIN"));
    let (t, i) = m
        .start_activity(&app, Some("org.example".into()), Some("org.example.Second".into()), Some("a.b.GO".into()), Some("x:y".into()))
        .unwrap();
    assert_eq!(t, "org.example.Second");
    assert_eq!(i.action.as_deref(), Some("a.b.GO"));
    assert_eq!(i.data.as_deref(), Some("x:y"));
    assert_eq!(i.component, Some(("org.example".to_string(), "org.example.Second".to_string())));
    assert_eq!(i.flags, FLAG_ACTIVITY_NEW_TASK);
    assert!(i.categories.is_empty());
    assert!(matches!(
        m.start_activity(&app, None, Some("org.example.Second".into()), None, None),
        Err(StartRefusal::AlreadyRunning)
    ));
    assert_eq!(m.task.stack, vec!["org.example.Main".to_string(), "org.example.Second".to_string()]);
}

#[test]
fn started_targets_carry_categories_and_extras() {
    let app = model();
    let mut m = manager(None);
    let target = LaunchTarget {
        package: Some("org.example".into()),
        class: Some("org.example.Second".into()),
        action: Some("a.b.SHOW".into()),
        data: None,
        categories: vec!["android.intent.category.DEFAULT".into()],
        extras: Some(vec![1, 2, 3]),
        intent_type: 2,
    };
    let (t, i) = m.start_activity_target(&app, target).unwrap();
    assert_eq!(t, "org.example.Second");
    assert_eq!(i.categories, vec!["android.intent.category.DEFAULT".to_string()]);
    assert_eq!(i.extras, Some(vec![1, 2, 3]));
    assert_eq!(i.action.as_deref(), Some("a.b.SHOW"));
    assert_eq!(i.flags, FLAG_ACTIVITY_NEW_TASK);
}

#[test]
fn activity_manager_counts_service_starts() {
    let mut m = manager(None);
    assert_eq!(m.start_service("a.Svc", 100), (100, true, 1));
    assert_eq!(m.start_service("a.Svc", 101), (100, false, 2));
    assert_eq!(m.start_service("b.Svc", 102), (102, true, 3));
    m.stop_service(100);
    assert_eq!(m.services.entries, vec![("b.Svc".to_string(), 102)]);
    assert_eq!(m.next_service_start_id, 4);
}

#[test]
fn activity_task_manager_answers_and_documents() {
    let t = ActivityTaskService;
    assert_eq!(t.answer("startActivityAsUser"), Answer::Int(0));
    assert_eq!(t.answer("supportsMultiWindow"), Answer::Bool(true));
    assert_eq!(t.answer("supportsLocalVoiceInteraction"), Answer::Bool(false));
    assert_eq!(t.answer("getActivityClientController"), Answer::Payload(Payload::ClientController));
    assert!(t.is_document_request(&Some("android.intent.action.GET_CONTENT".into())));
    assert!(t.is_document_request(&Some("android.intent.action.OPEN_DOCUMENT".into())));
    assert!(!t.is_document_request(&Some("android.intent.action.VIEW".into())));
    assert!(!t.is_document_request(&None));
}

#[test]
fn picked_documents_become_media_uris() {
    assert_eq!(picked_path("  /home/u/a.ogg\n").as_deref(), Some("/home/u/a.ogg"));
    assert_eq!(picked_path(" \n"), None);
    let (code, intent) = document_result(Some(1000001));
    assert_eq!(code, RESULT_OK);
    let intent = intent.unwrap();
    assert_eq!(intent.data.as_deref(), Some("content://media/external/audio/media/1000001"));
    assert_eq!(intent.flags, FLAG_GRANT_READ_URI_PERMISSION);
    assert!(intent.action.is_none() && intent.component.is_none());
    let (code, intent) = document_result(None);
    assert_eq!(code, RESULT_CANCELED);
    assert!(intent.is_none());
}

fn desc(w: u32, h: u32, format: i32) -> BufferDesc {
    BufferDesc { name: "b".into(), width: w, height: h, layer_count: 1, format, usage: 0x300 }
}

#[test]
fn buffers_get_fresh_ids_and_geometry() {
    let mut g = Gralloc::new();
    let id = g.take_id();
    assert_eq!(id, 1);
    let b = memfd_info(desc(100, 10, 1), id);
    assert_eq!((b.stride, b.size), (128, 8192));
    assert!(!b.is_gbm);
    g.record(b);
    let id = g.take_id();
    assert_eq!(id, 2);
    let b = gbm_info(desc(100, 10, 4), id, 256, None, 7);
    assert_eq!((b.stride, b.size, b.modifier), (128, 4096, 7));
    let c = gbm_info(desc(100, 10, 1), 9, 512, Some(123456), 0);
    assert_eq!((c.stride, c.size), (128, 123456));
    let d = gbm_info(desc(100, 10, 1), 9, 512, Some(0), 0);
    assert_eq!(d.size, 8192);
    g.record(b);
    assert_eq!(g.find(2), Some(1));
    assert_eq!(g.find(3), None);
}

#[test]
fn allocator_answers() {
    let a = AllocatorService;
    assert_eq!(a.answer("getInterfaceVersion"), Answer::Int(3));
    assert_eq!(a.answer("getIMapperLibrarySuffix"), Answer::Text("aro"));
    assert_eq!(a.answer("getInterfaceHash"), Answer::Text("notfrozen"));
    assert_eq!(a.answer("allocate"), Answer::Refused);
    assert_eq!(a.request_count(-3), 0);
    assert_eq!(a.request_count(2), 2);
    assert_eq!(a.reported_stride(&vec![]), 0);
    assert_eq!(a.reported_stride(&vec![memfd_info(desc(1, 1, 1), 1)]), 64);
}

#[test]
fn data_sources_are_read_by_their_length() {
    assert_eq!(source_read_len(1234), Some(1234));
    assert_eq!(source_read_len(0), None);
    assert_eq!(source_read_len(-1), None);
    assert_eq!(source_read_len(50_000_000), None);
}

#[test]
fn user_dirs_file_names_the_pictures_directory() {
    let text = "# XDG_PICTURES_DIR=\"$HOME/Old\"\nXDG_DESKTOP_DIR=\"$HOME/Desktop\"\n  XDG_PICTURES_DIR=\"$HOME/Photos/$HOME\"  \nXDG_PICTURES_DIR=\"$HOME/Later\"\n";
    assert_eq!(user_dir(text, "XDG_PICTURES_DIR", "/home/u").as_deref(), Some("/home/u/Photos//home/u"));
    assert_eq!(user_dir(text, "XDG_DESKTOP_DIR", "/h").as_deref(), Some("/h/Desktop"));
    assert_eq!(user_dir(text, "XDG_VIDEOS_DIR", "/h"), None);
    assert_eq!(user_dir("XDG_DOWNLOAD_DIR=/srv/dl", "XDG_DOWNLOAD_DIR", "/h").as_deref(), Some("/srv/dl"));
    assert!(walk_continues(0, 0));
    assert!(walk_continues(MAX_WALK_DEPTH, MAX_VISUAL_ITEMS - 1));
    assert!(!walk_continues(MAX_WALK_DEPTH + 1, 0));
    assert!(!walk_continues(0, MAX_VISUAL_ITEMS));
}

fn target(class: &str) -> LaunchTarget {
    LaunchTarget { package: Some("p".into()), class: Some(class.into()), action: None, data: None, categories: vec![], extras: None, intent_type: 4 }
}

#[test]
fn service_process_identity() {
    assert!(external_allowed(false, false, false));
    assert!(external_allowed(true, true, true));
    assert!(!external_allowed(true, true, false));
    assert!(!external_allowed(true, false, true));
    assert_eq!(service_uid(true, 1, 10050), Some(99000));
    assert_eq!(service_uid(true, 999, 10050), Some(99998));
    assert_eq!(service_uid(false, 5, 10050), Some(10050));
    assert_eq!(service_uid(true, 1000, 10050), None);
    assert_eq!(service_process_name(true, "org.a", "org.a.R", None, "org.a"), "org.a:isolated:org.a.R:0");
    assert_eq!(service_process_name(true, "org.a", "org.a.R", Some("7"), "org.a"), "org.a:isolated:org.a.R:7");
    assert_eq!(service_process_name(false, "org.a", "org.a.R", Some("7"), "org.a:svc"), "org.a:svc");
    assert_eq!(host_apk_path("/system/app/W/W.apk", "/img", "/d"), "/img/system/app/W/W.apk");
    assert_eq!(host_apk_path("/data/app/x/base.apk", "/img", "/d/"), "/d/app/x/base.apk");
    assert_eq!(host_apk_path("/opt/x.apk", "/img", "/d"), "/opt/x.apk");
}

#[test]
fn service_bindings_wait_for_attach_and_end_with_unbind() {
    let mut s = ServiceProcesses::new();
    assert_eq!(s.find("app", "R", ""), None);
    let seq = s.take_seq();
    assert_eq!(seq, 1);
    s.add_process(seq, "app".into(), "R".into(), "".into(), 500, target("R"), 7);
    let k = s.find("app", "R", "").unwrap();
    assert!(!s.bind(k, target("R"), 8, 900));
    assert_eq!(s.processes[0].pending.len(), 2);
    assert!(s.processes[0].is_bound_token(500));
    assert!(!s.processes[0].is_bound_token(501));
    let (token, waiting) = s.attach(1).unwrap();
    assert!(!s.processes[0].is_bound_token(500));
    assert_eq!(token, 500);
    assert_eq!(waiting.iter().map(|w| w.1).collect::<Vec<_>>(), vec![7, 8]);
    assert!(s.attach(2).is_none());
    for (t, c) in waiting {
        s.record_binding(Binding { bind_token: 600 + c, service_token: token, connection: c, target: t });
    }
    assert!(s.bind(k, target("R"), 9, 901));
    assert_eq!(s.bindings.len(), 3);
    let (gone, stopped) = s.unbind(7);
    assert_eq!(gone.len(), 1);
    assert!(stopped.is_empty());
    let (_, stopped) = s.unbind(8);
    assert!(stopped.is_empty());
    let (gone, stopped) = s.unbind(9);
    assert_eq!(gone[0].bind_token, 901);
    assert_eq!(stopped.len(), 1);
    assert_eq!(stopped[0].seq, 1);
    assert!(s.processes.is_empty() && s.bindings.is_empty());
}

#[test]
fn shade_widget_commands() {
    assert!(matches!(shade_command(Some("invoke"), Some(3)), Some(ShadeCommand::Invoke(3))));
    assert!(shade_command(Some("invoke"), None).is_none());
    assert!(matches!(shade_command(Some("dismiss"), Some(4)), Some(ShadeCommand::Dismiss(4))));
    assert!(shade_command(Some("dismiss"), None).is_none());
    assert!(matches!(shade_command(Some("dismissAll"), None), Some(ShadeCommand::DismissAll)));
    assert!(matches!(shade_command(Some("open"), Some(1)), Some(ShadeCommand::Unknown)));
    assert!(matches!(shade_command(None, Some(1)), Some(ShadeCommand::Unknown)));
}

#[test]
fn media_store_hands_out_fresh_ids() {
    let mut m = MediaService::new();
    assert_eq!(m.add_sound("/img/alarms/Alarm_Beep_01.ogg", "/product/media/audio/alarms/", true, false, false), 1);
    assert_eq!(m.add_sound("/home/u/Alarms/wake.MP3", "/sdcard/Alarms/", true, false, false), 2);
    assert_eq!(m.items[0].title, "Alarm Beep 01");
    assert_eq!(m.items[0].container_path, "/product/media/audio/alarms/Alarm_Beep_01.ogg");
    assert_eq!(m.items[1].display_name, "wake.MP3");
    assert_eq!(m.next_id, 3);
}

fn sound(path: &str) -> SoundFile {
    SoundFile { path: path.into(), container_dir: "/product/media/audio/alarms/".into(), alarm: true, ringtone: false, notification: false }
}

fn picture(path: &str, taken: i64) -> VisualFile {
    VisualFile { path: path.into(), size: 10, times: (1, 2, taken), dims: (4, 5) }
}

#[test]
fn media_load_orders_sounds_saved_then_pictures_newest_first() {
    let mut saved = MediaService::new();
    saved.add_custom_file("/home/u/x.ogg");
    let saved_items: Vec<_> = saved.items.into_iter().map(|mut a| { a.id = 40; a }).collect();
    let m = MediaService::load(
        vec![sound("/img/a.ogg"), sound("/img/b.ogg")],
        saved_items,
        "/home/u",
        vec![picture("/home/u/Pictures/old.png", 100), picture("/elsewhere/x.png", 500), picture("/home/u/Pictures/notes.txt", 900), picture("/home/u/Pictures/new.jpg", 300), picture("/home/u/Pictures/same.png", 100)],
    );
    assert_eq!(m.items.iter().map(|a| a.id).collect::<Vec<_>>(), vec![1, 2, 40]);
    assert_eq!(m.items[0].title, "a");
    let ids: Vec<i64> = m.visual.iter().map(|v| v.id).collect();
    // 41: old (100), 42: new (300), 43: same (100); newest first, larger id first on a tie
    assert_eq!(ids, vec![42, 43, 41]);
    assert_eq!(m.next_id, 44);
}

#[test]
fn file_kinds_and_names() {
    assert!(system_sound_file("/a/b.ogg"));
    assert!(!system_sound_file("/a/b.OGG"));
    assert!(!system_sound_file("/a/.ogg"));
    assert!(user_alarm_file("/a/b.OGG") && user_alarm_file("/a/b.mp3") && user_alarm_file("/a/b.Wav"));
    assert!(!user_alarm_file("/a/b.flac") && !user_alarm_file("/a/b"));
    assert!(hidden_name(".cache") && !hidden_name("cache"));
    let s = arod::media::sound_item("/a/.bashrc", 1, "/x/", false, false, false);
    assert_eq!(s.title, ".bashrc");
    let s = arod::media::sound_item("/a/foo.", 1, "/x/", false, false, false);
    assert_eq!(s.title, "foo");
    let s = arod::media::sound_item("/a/x.tar.gz", 1, "/x/", false, false, false);
    assert_eq!(s.title, "x.tar");
}

#[test]
fn clock_readings_are_cut_to_64_bits() {
    assert_eq!(epoch_millis_i64(None), 0);
    assert_eq!(epoch_millis_i64(Some(1_700_000_000_000)), 1_700_000_000_000);
    assert_eq!(epoch_millis_i64(Some(1u128 << 64)), 0);
    assert_eq!(epoch_millis_i64(Some((1u128 << 63) + 5)), i64::MIN + 5);
}

#[test]
fn custom_files_match_as_paths() {
    let mut m = MediaService::new();
    let a = m.add_custom_file("/home/u/a/b.ogg");
    let b = m.add_custom_file("/home/u//a/./b.ogg");
    let c = m.add_custom_file("/home/u/a/b.ogg/");
    assert_eq!(a.id, b.id);
    assert_eq!(a.id, c.id);
    assert_eq!(m.items.len(), 1);
    let d = m.add_custom_file("home/u/a/b.ogg");
    assert_ne!(d.id, a.id);
}

#[test]
fn recorder_status_table() {
    for n in ["init", "listener", "clientName", "audioCallback", "privacy"] {
        assert_eq!(recorder_call(n), RecorderCall::Fixed(0));
    }
    assert_eq!(recorder_call("getMaxAmplitude"), RecorderCall::Fixed(-38));
    assert_eq!(recorder_call("start"), RecorderCall::Start);
    assert_eq!(recorder_call("reset"), RecorderCall::Release);
    let s = RecorderState::default();
    assert_eq!(s.start_status(true), -38);
    let mut p = RecorderState::default();
    p.set_output();
    p.set_encoder(3);
    p.set_format(2);
    assert_eq!(p.prepare(), 0);
    assert_eq!(p.start_status(true), 0);
    assert_eq!(p.start_status(false), -38);
    p.started();
    assert_eq!(p.start_status(true), -38);
}
