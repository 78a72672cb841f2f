use arod::clipboard::{bundle_end, mime_count_ok, text_kind_ok, ClipError, ClipboardService};
use arod::cursor::{window_inline, Cell, CursorWindowBuilder};
use arod::display::DisplayService;
use arod::services::{Answer, Payload};
use arod::surfaceflinger::{
    vsync_event, ComposerAidl, ComposerClient, ComposerLegacy, DisplayEventConnection, SurfaceFlinger,
    DISPLAY_EVENT_VSYNC, EVENT_SIZE, FRAME_INTERVAL_NS, PHYSICAL_DISPLAY_ID,
};

fn le64(b: &[u8], at: usize) -> i64 {
    i64::from_le_bytes(b[at..at + 8].try_into().unwrap())
}

fn le32(b: &[u8], at: usize) -> u32 {
    u32::from_le_bytes(b[at..at + 4].try_into().unwrap())
}

#[test]
fn layers_get_rising_ids_and_the_display_size() {
    let mut sf = SurfaceFlinger::new(800, 600);
    assert_eq!(sf.create_surface(Some("main")), 1);
    assert_eq!(sf.create_surface(None), 2);
    assert_eq!(sf.create_layer("popup", 10, 20), 3);
    assert_eq!(sf.next_layer_id, 4);
    assert_eq!(sf.layers.len(), 3);
    assert_eq!(sf.layers[0].name, "main");
    assert_eq!((sf.layers[0].width, sf.layers[0].height), (800, 600));
    assert_eq!(sf.layers[1].name, "?");
    assert_eq!((sf.layers[2].width, sf.layers[2].height), (10, 20));
}

#[test]
fn layer_counter_wraps_like_the_atomic_it_stands_for() {
    let mut sf = SurfaceFlinger::new(1, 1);
    sf.next_layer_id = i32::MAX;
    assert_eq!(sf.create_layer("last", 1, 1), i32::MAX);
    assert_eq!(sf.next_layer_id, i32::MIN);
}

#[test]
fn composer_binders_answer_their_tables() {
    let aidl = ComposerAidl;
    assert_eq!(aidl.answer("bootFinished"), Answer::Done);
    assert_eq!(aidl.answer("createConnection"), Answer::Payload(Payload::ClientConnection));
    assert_eq!(aidl.answer("isWideColorDisplay"), Answer::Bool(false));
    assert_eq!(aidl.answer("setPowerMode"), Answer::Refused);
    assert!(aidl.has_display_token(PHYSICAL_DISPLAY_ID));
    assert!(!aidl.has_display_token(0));

    let client = ComposerClient;
    assert_eq!(client.answer("createSurface"), Answer::Payload(Payload::SurfaceCreated));
    assert_eq!(client.answer("mirrorSurface"), Answer::Refused);

    let mut legacy = ComposerLegacy { transactions: 0 };
    assert_eq!(legacy.handle("setTransactionState"), Answer::Raw(0));
    assert_eq!(legacy.handle("setTransactionState"), Answer::Raw(0));
    assert_eq!(legacy.handle("getSchedulingPolicy"), Answer::Payload(Payload::SchedulingPolicy));
    assert_eq!(legacy.handle("bootFinished"), Answer::Refused);
    assert_eq!(legacy.transactions, 2);
}

#[test]
fn vsync_event_layout() {
    let now: i64 = 5_000_000_000;
    let e = vsync_event(now, 7);
    assert_eq!(e.len(), EVENT_SIZE);
    assert_eq!(le32(&e, 0), DISPLAY_EVENT_VSYNC);
    assert_eq!(le32(&e, 4), 0);
    assert_eq!(le64(&e, 8), PHYSICAL_DISPLAY_ID);
    assert_eq!(le64(&e, 16), now);
    assert_eq!(le32(&e, 24), 7);
    assert_eq!(le64(&e, 32), FRAME_INTERVAL_NS);
    assert_eq!(le32(&e, 40), 0);
    assert_eq!(le32(&e, 44), 1);
    assert_eq!(le32(&e, 48), 0);
    assert_eq!(le64(&e, 56), 7);
    assert_eq!(le64(&e, 64), now + 16_666_667 - 2_000_000);
    assert_eq!(le64(&e, 72), now + 33_333_334);
    assert!(e[80..].iter().all(|b| *b == 0));
}

#[test]
fn vsync_counter_and_rate() {
    let mut c = DisplayEventConnection::new();
    assert!(!c.continuous());
    assert_eq!(c.answer("requestNextVsync"), Answer::Silent);
    assert_eq!(c.next_vsync(), 1);
    assert_eq!(c.next_vsync(), 2);
    assert!(c.set_vsync_rate(1));
    assert!(c.continuous());
    assert!(!c.set_vsync_rate(0));
    let d = c.vsync_event_data(1_000);
    assert_eq!(d.vsync_id, 2);
    assert_eq!(d.frame_interval, FRAME_INTERVAL_NS);
    assert_eq!(d.frame_timelines_length, 1);
    assert_eq!(d.deadline, 1_000 + FRAME_INTERVAL_NS - 2_000_000);
    assert_eq!(d.expected_presentation_time, 1_000 + 2 * FRAME_INTERVAL_NS);
}

#[test]
fn display_manager_reports_one_display() {
    let mut d = DisplayService { name: "eDP-1".into(), width: 800, height: 1280, dpi: 160, callbacks: vec![] };
    assert!(d.has_display(0));
    assert!(!d.has_display(1));
    assert_eq!(d.nominal_sizes(), (800, 1280));
    d.width = 1920;
    d.height = 1080;
    assert_eq!(d.nominal_sizes(), (1080, 1920));
    assert_eq!(d.answer("getDisplayIds"), Answer::Payload(Payload::DisplayIds));
    assert_eq!(d.answer("getPreferredWideGamutColorSpaceId"), Answer::Int(0));
    assert_eq!(d.answer("createVirtualDisplay"), Answer::Refused);
    d.register_callback_with_event_mask(Some(4), 0x10);
    d.register_callback(Some(5));
    d.register_callback(None);
    assert_eq!(d.callbacks, vec![(4, 0x10), (5, -1)]);
}

#[test]
fn clipboard_listeners_are_held_once() {
    let mut c = ClipboardService::new();
    c.change_listener(Some(1), true);
    c.change_listener(Some(2), true);
    c.change_listener(Some(1), true);
    assert_eq!(c.listeners, vec![2, 1]);
    c.change_listener(Some(2), false);
    c.change_listener(None, true);
    assert_eq!(c.listeners, vec![1]);
    c.drop_listener(1);
    assert!(c.listeners.is_empty());
}

#[test]
fn clipboard_text_checks() {
    let c = ClipboardService::new();
    assert!(c.has_clip(true, Some("")));
    assert!(!c.has_clip(false, Some("")));
    assert!(c.has_clip(false, Some("x")));
    assert!(!c.has_clip(true, None));
    assert_eq!(c.answer("getPrimaryClipSource"), Answer::NullText);
    assert_eq!(c.answer("hasClipboardText"), Answer::Payload(Payload::HasClip));
    assert!(mime_count_ok(0) && mime_count_ok(128));
    assert!(!mime_count_ok(-1) && !mime_count_ok(129) && !mime_count_ok(i32::MAX));
    assert!(text_kind_ok(0) && text_kind_ok(1) && !text_kind_ok(2));
}

#[test]
fn bundles_are_skipped_by_their_padded_length() {
    assert_eq!(bundle_end(8, 0, 8), Ok(8));
    assert_eq!(bundle_end(8, -1, 8), Ok(8));
    assert_eq!(bundle_end(8, 5, 100), Ok(8 + 4 + 8));
    assert_eq!(bundle_end(8, 8, 20), Ok(20));
    assert_eq!(bundle_end(8, 9, 20), Err(ClipError::NotEnoughData));
    assert_eq!(bundle_end(usize::MAX - 4, 4, usize::MAX), Err(ClipError::BadValue));
}

#[test]
fn cursor_window_holds_heap_then_slots_last_cell_first() {
    let mut b = CursorWindowBuilder::new("w".into(), vec!["a".into(), "b".into()]);
    b.add_row(vec![Cell::Integer(5), Cell::Text("hi".into())]);
    b.add_row(vec![Cell::Null]);
    let w = b.window();
    // heap: "hi\0" padded to 4, then four 16-byte slots
    assert_eq!(w.len(), 4 + 4 * 16);
    assert_eq!(&w[0..4], b"hi\0\0");
    let slot = |k: usize| &w[w.len() - (k + 1) * 16..w.len() - k * 16];
    assert_eq!(le32(slot(0), 0), 1);
    assert_eq!(le64(slot(0), 4), 5);
    assert_eq!(le32(slot(1), 0), 3);
    assert_eq!(le32(slot(1), 4), 0);
    assert_eq!(le32(slot(1), 8), 3);
    assert_eq!(le32(slot(2), 0), 0);
    assert_eq!(le32(slot(3), 0), 0);
    assert!(window_inline(w.len()));
    assert!(!window_inline(16385));
}
