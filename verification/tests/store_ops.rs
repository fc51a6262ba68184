//! Store behavior: insertion, eviction, pinning, deletion, usage counts,
//! and the settings round trip.

use pastify::entry::{ContentKind, EntryDraft};
use pastify::settings::Settings;
use pastify::store::ContentStore;
use pastify::api::{get_settings, update_settings};

fn text_draft(text: &str, created_at: i64) -> EntryDraft {
    EntryDraft {
        kind: ContentKind::Text,
        text: Some(text.as_bytes().to_vec()),
        image: None,
        source_app: None,
        source_path: None,
        source_icon: None,
        created_at,
    }
}

fn image_draft(payload: &[u8], created_at: i64) -> EntryDraft {
    EntryDraft {
        kind: ContentKind::Image,
        text: None,
        image: Some(payload.to_vec()),
        source_app: None,
        source_path: None,
        source_icon: None,
        created_at,
    }
}

#[test]
fn insert_assigns_monotonic_ids() {
    let mut store = ContentStore::new();
    let a = store.insert(text_draft("a", 10), 100);
    let b = store.insert(text_draft("b", 20), 100);
    assert_eq!(a.id, 1);
    assert_eq!(b.id, 2);
    assert_eq!(store.entries().len(), 2);
    assert!(!a.is_pinned);
    assert_eq!(a.usage_count, 0);
}

#[test]
fn eviction_keeps_newest_up_to_cap() {
    let mut store = ContentStore::new();
    for i in 0..5i64 {
        store.insert(text_draft(&format!("t{}", i), 100 + i), 3);
    }
    let texts: Vec<Vec<u8>> = store
        .entries()
        .iter()
        .map(|e| e.text.clone().unwrap())
        .collect();
    assert_eq!(texts, vec![b"t2".to_vec(), b"t3".to_vec(), b"t4".to_vec()]);
}

#[test]
fn eviction_never_removes_pinned_entries() {
    // Pin one entry, then insert a full cap of further distinct entries:
    // the pinned entry must survive.
    let mut store = ContentStore::new();
    let cap: i64 = 4;
    let pinned = store.insert(text_draft("keep me", 1), cap);
    store.set_pinned_toggle(pinned.id);
    for i in 0..cap {
        store.insert(text_draft(&format!("n{}", i), 10 + i), cap);
    }
    assert!(store
        .entries()
        .iter()
        .any(|e| e.id == pinned.id && e.is_pinned));
}

#[test]
fn pinned_entries_fill_the_ranked_cap_first() {
    // The eviction rank puts pinned entries first, so with as many pinned
    // entries as the cap, a fresh non-pinned insert is evicted at once.
    let mut store = ContentStore::new();
    let cap: i64 = 2;
    let a = store.insert(text_draft("a", 1), cap);
    let b = store.insert(text_draft("b", 2), cap);
    store.set_pinned_toggle(a.id);
    store.set_pinned_toggle(b.id);
    store.insert(text_draft("c", 3), cap);
    let ids: Vec<i64> = store.entries().iter().map(|e| e.id).collect();
    assert_eq!(ids, vec![a.id, b.id]);
}

#[test]
fn nonpinned_count_respects_cap_with_pins_present() {
    // However many entries are pinned, each insert leaves at most `cap`
    // non-pinned survivors; with two pinned entries filling a cap of
    // three, exactly one non-pinned entry remains after every insert.
    let mut store = ContentStore::new();
    let cap: i64 = 3;
    let a = store.insert(text_draft("pin a", 1), cap);
    let b = store.insert(text_draft("pin b", 2), cap);
    store.set_pinned_toggle(a.id);
    store.set_pinned_toggle(b.id);
    for i in 0..5i64 {
        store.insert(text_draft(&format!("n{}", i), 10 + i), cap);
        let nonpinned = store.entries().iter().filter(|e| !e.is_pinned).count();
        assert!(nonpinned <= cap as usize);
        assert_eq!(nonpinned, 1);
    }
    assert_eq!(store.entries().len(), 3);
}

#[test]
fn delete_removes_only_the_given_id() {
    let mut store = ContentStore::new();
    let a = store.insert(text_draft("a", 1), 10);
    let b = store.insert(text_draft("b", 2), 10);
    store.delete(a.id);
    let ids: Vec<i64> = store.entries().iter().map(|e| e.id).collect();
    assert_eq!(ids, vec![b.id]);
    // Deleting a missing id is a silent no-op.
    store.delete(999);
    assert_eq!(store.entries().len(), 1);
}

#[test]
fn toggle_pin_flips_and_flips_back() {
    let mut store = ContentStore::new();
    let a = store.insert(text_draft("a", 1), 10);
    store.set_pinned_toggle(a.id);
    assert!(store.entries()[0].is_pinned);
    store.set_pinned_toggle(a.id);
    assert!(!store.entries()[0].is_pinned);
    // Missing id: no-op.
    store.set_pinned_toggle(999);
    assert!(!store.entries()[0].is_pinned);
}

#[test]
fn increment_usage_counts_up() {
    let mut store = ContentStore::new();
    let a = store.insert(text_draft("a", 1), 10);
    store.increment_usage(a.id);
    store.increment_usage(a.id);
    assert_eq!(store.entries()[0].usage_count, 2);
    store.increment_usage(42);
    assert_eq!(store.entries()[0].usage_count, 2);
}

#[test]
fn last_entry_reflects_most_recent_insert() {
    let mut store = ContentStore::new();
    assert!(store.last_entry().is_none());
    store.insert(text_draft("a", 1), 10);
    store.insert(image_draft(&[1, 2, 3], 2), 10);
    let last = store.last_entry().unwrap();
    assert_eq!(last.kind, ContentKind::Image);
}

#[test]
fn update_settings_always_returns_record_images_true() {
    // The round trip forces image recording on, whatever the caller sent.
    let mut store = ContentStore::new();
    let wanted = Settings {
        max_history: 50,
        record_images: false,
        hotkey: b"Ctrl+Alt+P".to_vec(),
        blacklist: vec![b"Secret App".to_vec()],
    };
    let result = update_settings(&mut store, &wanted);
    assert!(result.record_images);
    assert_eq!(result.max_history, 50);
    assert_eq!(result.hotkey, b"Ctrl+Alt+P".to_vec());
    assert_eq!(result.blacklist, vec![b"Secret App".to_vec()]);
    let loaded = get_settings(&mut store);
    assert!(loaded.record_images);
    assert_eq!(loaded.max_history, 50);
}

#[test]
fn default_settings_match_first_startup() {
    let mut store = ContentStore::new();
    let s = get_settings(&mut store);
    assert_eq!(s.max_history, 1000);
    assert!(s.record_images);
    assert_eq!(s.hotkey, b"Ctrl+Shift+V".to_vec());
    assert!(s.blacklist.is_empty());
}
