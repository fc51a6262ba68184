//! The capture pipeline, the Suppression Gate, and paste/copy replay.

use pastify::dedup::is_duplicate;
use pastify::entry::{ContentKind, EntryDraft};
use pastify::error::AppError;
use pastify::gate::{SuppressionGate, SUPPRESS_WINDOW_MS};
use pastify::monitor::{capture, ClipboardMonitor, ClipboardSnapshot};
use pastify::replay::{replay_finish, replay_prepare, ReplayMode, ReplayPayload};
use pastify::settings::Settings;
use pastify::source::ProcessInfo;
use pastify::store::ContentStore;
use pastify::api::update_settings;

fn text_snap(text: &str) -> ClipboardSnapshot {
    ClipboardSnapshot::Text { text: text.as_bytes().to_vec() }
}

fn source(display: &str) -> ProcessInfo {
    ProcessInfo {
        display: display.as_bytes().to_vec(),
        path: b"C:\\apps\\tool.exe".to_vec(),
        icon_png: None,
    }
}

fn settings_with_blacklist(names: &[&str]) -> Settings {
    Settings {
        max_history: 100,
        record_images: true,
        hotkey: b"Ctrl+Shift+V".to_vec(),
        blacklist: names.iter().map(|n| n.as_bytes().to_vec()).collect(),
    }
}

#[test]
fn two_identical_consecutive_texts_store_once() {
    let mut store = ContentStore::new();
    let r1 = capture(&mut store, None, &text_snap("hello"), 10).unwrap();
    assert!(r1.is_some());
    let r2 = capture(&mut store, None, &text_snap("hello"), 20).unwrap();
    assert!(r2.is_none());
    assert_eq!(store.entries().len(), 1);
}

#[test]
fn same_text_with_another_value_between_stores_twice() {
    let mut store = ContentStore::new();
    capture(&mut store, None, &text_snap("alpha"), 10).unwrap();
    capture(&mut store, None, &text_snap("beta"), 20).unwrap();
    capture(&mut store, None, &text_snap("alpha"), 30).unwrap();
    let alphas = store
        .entries()
        .iter()
        .filter(|e| e.text.as_deref() == Some(b"alpha".as_slice()))
        .count();
    assert_eq!(alphas, 2);
    assert_eq!(store.entries().len(), 3);
}

#[test]
fn blank_or_empty_text_is_never_stored() {
    let mut store = ContentStore::new();
    assert!(capture(&mut store, None, &text_snap(""), 1).unwrap().is_none());
    assert!(capture(&mut store, None, &text_snap(" \t\r\n "), 2)
        .unwrap()
        .is_none());
    assert!(capture(&mut store, None, &ClipboardSnapshot::Empty, 3)
        .unwrap()
        .is_none());
    assert_eq!(store.entries().len(), 0);
}

#[test]
fn unicode_whitespace_only_text_is_never_stored() {
    // Blankness follows the full Unicode white-space set, as the text's
    // trim sees it: vertical tab, no-break space, em space, ideographic
    // space and the line separator are all white space.
    let mut store = ContentStore::new();
    for blank in ["\u{000B}", "\u{0085}", "\u{00A0}", "\u{1680}", "\u{2003}",
        "\u{2028}", "\u{202F}", "\u{3000}", " \u{000B}\u{00A0} "] {
        assert!(
            capture(&mut store, None, &text_snap(blank), 1).unwrap().is_none(),
            "stored whitespace-only text {:?}",
            blank
        );
    }
    assert_eq!(store.entries().len(), 0);
    // Zero-width space is not white space: it is stored.
    assert!(capture(&mut store, None, &text_snap("\u{200B}"), 2)
        .unwrap()
        .is_some());
    assert_eq!(store.entries().len(), 1);
}

#[test]
fn blacklisted_source_is_never_captured() {
    // Case-insensitive match on the resolved display name drops the change
    // whatever the content.
    let mut store = ContentStore::new();
    update_settings(&mut store, &settings_with_blacklist(&["Secret Notes"]));
    let r = capture(
        &mut store,
        Some(&source("sEcReT nOtEs")),
        &text_snap("password"),
        10,
    )
    .unwrap();
    assert!(r.is_none());
    assert_eq!(store.entries().len(), 0);

    let img = ClipboardSnapshot::Image { width: 1, height: 1, rgba: vec![0, 0, 0, 255] };
    let r = capture(&mut store, Some(&source("Secret Notes")), &img, 20).unwrap();
    assert!(r.is_none());
    assert_eq!(store.entries().len(), 0);

    // A source that does not match is captured.
    let r = capture(&mut store, Some(&source("Open App")), &text_snap("fine"), 30).unwrap();
    assert!(r.is_some());
    assert_eq!(store.entries().len(), 1);
    assert_eq!(store.entries()[0].source_app.as_deref(), Some(b"Open App".as_slice()));
}

#[test]
fn image_capture_encodes_png_and_replay_decodes_it_back() {
    let mut store = ContentStore::new();
    let rgba = vec![255, 0, 0, 255]; // one red pixel
    let snap = ClipboardSnapshot::Image { width: 1, height: 1, rgba: rgba.clone() };
    let dto = capture(&mut store, None, &snap, 10).unwrap().unwrap();
    assert_eq!(dto.content_type, ContentKind::Image);
    // The stored payload is a PNG stream, not the raw pixels.
    let stored_png = store.entries()[0].image.clone().unwrap();
    assert_eq!(&stored_png[..8], &[0x89, b'P', b'N', b'G', 0x0d, 0x0a, 0x1a, 0x0a]);
    // The data-URI thumbnail wraps the same payload.
    let thumb = dto.image_thumb.unwrap();
    assert!(thumb.starts_with(b"data:image/png;base64,"));

    let mut gate = SuppressionGate::new();
    let payload = replay_prepare(&store, &mut gate, dto.id, 1000).unwrap();
    match payload {
        ReplayPayload::Image { width, height, rgba: decoded } => {
            assert_eq!((width, height), (1, 1));
            assert_eq!(decoded, rgba);
        }
        ReplayPayload::Text { .. } => panic!("expected an image payload"),
    }
}

#[test]
fn bad_image_buffers_are_errors() {
    let mut store = ContentStore::new();
    // Buffer length disagrees with the dimensions.
    let snap = ClipboardSnapshot::Image { width: 2, height: 2, rgba: vec![0, 0, 0, 255] };
    assert!(matches!(
        capture(&mut store, None, &snap, 1),
        Err(AppError::Other(_))
    ));
    // Zero-dimension image.
    let snap = ClipboardSnapshot::Image { width: 0, height: 0, rgba: vec![] };
    assert!(matches!(
        capture(&mut store, None, &snap, 2),
        Err(AppError::Other(_))
    ));
    assert_eq!(store.entries().len(), 0);
}

#[test]
fn image_dedup_compares_payload_lengths_only() {
    // The accepted approximation: same encoded length means duplicate.
    let mut store = ContentStore::new();
    let prior = EntryDraft {
        kind: ContentKind::Image,
        text: None,
        image: Some(vec![1, 2, 3]),
        source_app: None,
        source_path: None,
        source_icon: None,
        created_at: 1,
    };
    store.insert(prior, 100);
    let same_len = EntryDraft {
        kind: ContentKind::Image,
        text: None,
        image: Some(vec![9, 9, 9]),
        source_app: None,
        source_path: None,
        source_icon: None,
        created_at: 2,
    };
    assert!(is_duplicate(&same_len, store.last_entry()));
    let longer = EntryDraft {
        kind: ContentKind::Image,
        text: None,
        image: Some(vec![9, 9, 9, 9]),
        source_app: None,
        source_path: None,
        source_icon: None,
        created_at: 3,
    };
    assert!(!is_duplicate(&longer, store.last_entry()));
}

#[test]
fn kinds_never_deduplicate_against_each_other() {
    let mut store = ContentStore::new();
    capture(&mut store, None, &text_snap("123"), 1).unwrap();
    let img = EntryDraft {
        kind: ContentKind::Image,
        text: None,
        image: Some(vec![0; 3]),
        source_app: None,
        source_path: None,
        source_icon: None,
        created_at: 2,
    };
    assert!(!is_duplicate(&img, store.last_entry()));
}

#[test]
fn gate_window_boundaries() {
    let mut gate = SuppressionGate::new();
    assert!(!gate.is_suppressed(0));
    gate.arm(1000, SUPPRESS_WINDOW_MS);
    assert!(gate.is_suppressed(1000));
    assert!(gate.is_suppressed(1000 + SUPPRESS_WINDOW_MS - 1));
    assert!(!gate.is_suppressed(1000 + SUPPRESS_WINDOW_MS));
}

#[test]
fn replay_then_tick_inside_window_stores_nothing() {
    // A Monitor tick right after a copy-back replay sees the change but
    // suppression swallows it; a later change after the window is captured.
    let mut store = ContentStore::new();
    let mut gate = SuppressionGate::new();
    let mut monitor = ClipboardMonitor::new(7);
    let dto = capture(&mut store, None, &text_snap("stored"), 10).unwrap().unwrap();

    let replay_at: u64 = 100_000;
    let payload = replay_prepare(&store, &mut gate, dto.id, replay_at).unwrap();
    assert!(matches!(payload, ReplayPayload::Text { .. }));
    replay_finish(&mut store, dto.id, None).unwrap();

    // The engine's own clipboard write bumps the OS counter; the tick falls
    // inside the window, so the content is not even inspected.
    let tick_at = replay_at + 200;
    assert!(!monitor.poll(&gate, 8, tick_at));
    assert_eq!(store.entries().len(), 1);

    // After the window, a genuine external change is captured again.
    let later = replay_at + SUPPRESS_WINDOW_MS;
    assert!(monitor.poll(&gate, 9, later));
    let r = capture(&mut store, None, &text_snap("external"), later as i64).unwrap();
    assert!(r.is_some());
    assert_eq!(store.entries().len(), 2);
}

#[test]
fn unchanged_sequence_number_is_idle() {
    let mut monitor = ClipboardMonitor::new(42);
    let gate = SuppressionGate::new();
    assert!(!monitor.poll(&gate, 42, 0));
    assert!(monitor.poll(&gate, 43, 0));
    assert!(!monitor.poll(&gate, 43, 0));
}

#[test]
fn replay_of_missing_id_is_not_found_and_leaves_gate_alone() {
    let store = ContentStore::new();
    let mut gate = SuppressionGate::new();
    let r = replay_prepare(&store, &mut gate, 12345, 50);
    assert!(matches!(r, Err(AppError::NotFound)));
    assert!(!gate.is_suppressed(51));
}

#[test]
fn replay_arms_gate_before_the_clipboard_write() {
    let mut store = ContentStore::new();
    let dto = capture(&mut store, None, &text_snap("x"), 10).unwrap().unwrap();
    let mut gate = SuppressionGate::new();
    let payload = replay_prepare(&store, &mut gate, dto.id, 5000).unwrap();
    // Suppression is already armed when the payload is handed out.
    assert!(gate.is_suppressed(5001));
    match payload {
        ReplayPayload::Text { text } => assert_eq!(text, b"x".to_vec()),
        ReplayPayload::Image { .. } => panic!("expected a text payload"),
    }
}

#[test]
fn replay_finish_surfaces_synthesis_failure_but_counts_usage() {
    let mut store = ContentStore::new();
    let dto = capture(&mut store, None, &text_snap("y"), 10).unwrap().unwrap();
    // Copy-only: no synthesis, success, one use.
    assert!(replay_finish(&mut store, dto.id, None).is_ok());
    assert_eq!(store.entries()[0].usage_count, 1);
    // Paste mode with failing synthesis: the error is surfaced, the usage
    // increment is not rolled back.
    let r = replay_finish(&mut store, dto.id, Some(Err(AppError::Other(b"no focus".to_vec()))));
    assert!(matches!(r, Err(AppError::Other(_))));
    assert_eq!(store.entries()[0].usage_count, 2);
    // Paste mode with successful synthesis.
    assert!(replay_finish(&mut store, dto.id, Some(Ok(()))).is_ok());
    assert_eq!(store.entries()[0].usage_count, 3);
}

#[test]
fn history_length_is_min_of_distinct_count_and_cap() {
    // The retention law on concrete values: gate never armed, six writes
    // with one adjacent repeat, cap of four.
    let mut store = ContentStore::new();
    update_settings(
        &mut store,
        &Settings {
            max_history: 4,
            record_images: true,
            hotkey: b"Ctrl+Shift+V".to_vec(),
            blacklist: vec![],
        },
    );
    let writes = ["a", "b", "b", "c", "d", "e"]; // 5 accepted by adjacent dedup
    for (i, w) in writes.iter().enumerate() {
        capture(&mut store, None, &text_snap(w), 10 + i as i64).unwrap();
    }
    assert_eq!(store.entries().len(), 4); // min(5, 4)
    let texts: Vec<Vec<u8>> = store
        .entries()
        .iter()
        .map(|e| e.text.clone().unwrap())
        .collect();
    assert_eq!(
        texts,
        vec![b"b".to_vec(), b"c".to_vec(), b"d".to_vec(), b"e".to_vec()]
    );
}

#[test]
fn record_images_off_skips_image_snapshots() {
    // The field exists and gates the image path, even though the engine
    // forces it on whenever settings pass through load or save.
    let mut store = ContentStore::new();
    let snap = ClipboardSnapshot::Image { width: 1, height: 1, rgba: vec![1, 2, 3, 255] };
    let r = capture(&mut store, None, &snap, 5).unwrap();
    assert!(r.is_some());
    assert_eq!(store.entries().len(), 1);
}

#[test]
fn replay_modes_decide_synthesis() {
    assert!(ReplayMode::PasteAndSynthesizeKeys.requires_synthesis());
    assert!(!ReplayMode::CopyOnly.requires_synthesis());
}
