//! Display-name rules and history queries: filters, ordering, time
//! buckets, the row cap, and the data-URI rendering.

use pastify::api::query_history;
use pastify::dto::to_dto;
use pastify::entry::{ClipboardEntry, ContentKind, EntryDraft};
use pastify::query::{HistoryFilter, TimeBucket};
use pastify::source::{build_process_info, map_known_app_name, normalize_display_name};
use pastify::store::ContentStore;

fn text_draft(text: &str, created_at: i64) -> EntryDraft {
    EntryDraft {
        kind: ContentKind::Text,
        text: Some(text.as_bytes().to_vec()),
        image: None,
        source_app: None,
        source_path: None,
        source_icon: None,
        created_at,
    }
}

fn attributed_draft(text: &str, created_at: i64, app: &str) -> EntryDraft {
    EntryDraft {
        kind: ContentKind::Text,
        text: Some(text.as_bytes().to_vec()),
        image: None,
        source_app: Some(app.as_bytes().to_vec()),
        source_path: None,
        source_icon: None,
        created_at,
    }
}

#[test]
fn normalize_trims_strips_exe_and_capitalizes() {
    assert_eq!(normalize_display_name(b"  chrome.EXE "), b"Chrome".to_vec());
    assert_eq!(normalize_display_name(b"notepad"), b"Notepad".to_vec());
    assert_eq!(normalize_display_name(b"Slack"), b"Slack".to_vec());
    assert_eq!(normalize_display_name(b"   "), b"".to_vec());
    assert_eq!(normalize_display_name(b"7zip.exe"), b"7zip".to_vec());
}

#[test]
fn normalize_trims_unicode_whitespace() {
    // Trimming follows the full Unicode white-space set: a name of only
    // vertical tab and no-break space trims to nothing, and such bytes
    // around a real name disappear.
    assert_eq!(normalize_display_name(" \u{000B} ".as_bytes()), b"".to_vec());
    assert_eq!(
        normalize_display_name("\u{00A0}chrome.exe\u{00A0}".as_bytes()),
        b"Chrome".to_vec()
    );
    assert_eq!(
        normalize_display_name("\u{3000}tool\u{2003}".as_bytes()),
        b"Tool".to_vec()
    );
}

#[test]
fn known_app_names_are_mapped() {
    assert_eq!(map_known_app_name(b"msedge"), b"Microsoft Edge".to_vec());
    assert_eq!(map_known_app_name(b"EDGE"), b"Microsoft Edge".to_vec());
    assert_eq!(map_known_app_name(b"vscode"), b"VS Code".to_vec());
    assert_eq!(map_known_app_name(b"wechatweb"), b"WeChat".to_vec());
    assert_eq!(map_known_app_name(b"chrome"), b"Google Chrome".to_vec());
    assert_eq!(map_known_app_name(b"firefox"), b"Firefox".to_vec());
    assert_eq!(map_known_app_name(b"explorer"), b"File Explorer".to_vec());
    assert_eq!(map_known_app_name(b"notepad"), b"Notepad".to_vec());
    assert_eq!(map_known_app_name(b"someapp"), b"Someapp".to_vec());
}

#[test]
fn process_info_prefers_a_distinct_friendly_name() {
    let info = build_process_info(b"C:\\Tools\\msedge.exe", b"", None);
    assert_eq!(info.display, b"Microsoft Edge".to_vec());
    // A friendly name that merely repeats the base name goes through the
    // known-name table too.
    let info = build_process_info(b"C:\\Tools\\msedge.exe", b"msedge", None);
    assert_eq!(info.display, b"Microsoft Edge".to_vec());
    // A genuinely different friendly name wins.
    let info = build_process_info(b"C:\\Tools\\msedge.exe", b"Edge Dev Channel", None);
    assert_eq!(info.display, b"Edge Dev Channel".to_vec());
    assert_eq!(info.path, b"C:\\Tools\\msedge.exe".to_vec());
    // A path without a stem falls back to the placeholder.
    let info = build_process_info(b"C:\\Tools\\", b"", None);
    assert_eq!(info.display, b"?".to_vec());
}

#[test]
fn data_uri_thumbnails_use_standard_base64() {
    let entry = ClipboardEntry {
        id: 1,
        kind: ContentKind::Image,
        text: None,
        image: Some(b"Man".to_vec()),
        source_app: None,
        source_path: None,
        source_icon: Some(b"Ma".to_vec()),
        created_at: 9,
        is_pinned: false,
        usage_count: 0,
    };
    let dto = to_dto(&entry);
    assert_eq!(
        dto.image_thumb.unwrap(),
        b"data:image/png;base64,TWFu".to_vec()
    );
    assert_eq!(
        dto.source_icon.unwrap(),
        b"data:image/png;base64,TWE=".to_vec()
    );
    assert_eq!(dto.text_content, None);
}

#[test]
fn query_orders_pinned_first_then_newest() {
    let mut store = ContentStore::new();
    let a = store.insert(text_draft("old", 100), 50);
    let _b = store.insert(text_draft("mid", 200), 50);
    let c = store.insert(text_draft("new", 300), 50);
    store.set_pinned_toggle(a.id);
    let rows = query_history(&store, &HistoryFilter::none(), 0, 0);
    let ids: Vec<i64> = rows.iter().map(|d| d.id).collect();
    assert_eq!(ids, vec![a.id, c.id, _b.id]);
    assert!(rows[0].is_pinned);
}

#[test]
fn substring_filter_is_case_insensitive_and_skips_images() {
    let mut store = ContentStore::new();
    store.insert(text_draft("Hello World", 10), 50);
    store.insert(text_draft("other", 20), 50);
    store.insert(
        EntryDraft {
            kind: ContentKind::Image,
            text: None,
            image: Some(vec![1, 2, 3]),
            source_app: None,
            source_path: None,
            source_icon: None,
            created_at: 30,
        },
        50,
    );
    let f = HistoryFilter {
        query: Some(b"wORLD".to_vec()),
        kind: None,
        source_app: None,
        bucket: None,
    };
    let rows = query_history(&store, &f, 0, 0);
    assert_eq!(rows.len(), 1);
    assert_eq!(rows[0].text_content.as_deref(), Some(b"Hello World".as_slice()));
    // A blank query string filters nothing out.
    let f = HistoryFilter {
        query: Some(b"  ".to_vec()),
        kind: None,
        source_app: None,
        bucket: None,
    };
    assert_eq!(query_history(&store, &f, 0, 0).len(), 3);
}

#[test]
fn kind_and_source_filters() {
    let mut store = ContentStore::new();
    store.insert(attributed_draft("from notepad", 10, "Notepad"), 50);
    store.insert(attributed_draft("from edge", 20, "Microsoft Edge"), 50);
    store.insert(
        EntryDraft {
            kind: ContentKind::Image,
            text: None,
            image: Some(vec![0; 8]),
            source_app: Some(b"Notepad".to_vec()),
            source_path: None,
            source_icon: None,
            created_at: 30,
        },
        50,
    );
    let f = HistoryFilter {
        query: None,
        kind: Some(ContentKind::Image),
        source_app: None,
        bucket: None,
    };
    assert_eq!(query_history(&store, &f, 0, 0).len(), 1);
    let f = HistoryFilter {
        query: None,
        kind: None,
        source_app: Some(b"Notepad".to_vec()),
        bucket: None,
    };
    assert_eq!(query_history(&store, &f, 0, 0).len(), 2);
    // The source match is exact, not case-insensitive.
    let f = HistoryFilter {
        query: None,
        kind: None,
        source_app: Some(b"notepad".to_vec()),
        bucket: None,
    };
    assert_eq!(query_history(&store, &f, 0, 0).len(), 0);
    // An empty source string filters nothing out.
    let f = HistoryFilter {
        query: None,
        kind: None,
        source_app: Some(Vec::new()),
        bucket: None,
    };
    assert_eq!(query_history(&store, &f, 0, 0).len(), 3);
}

#[test]
fn time_buckets_split_on_local_midnights() {
    // One entry a minute before today's local midnight, one a minute after:
    // "today" returns only the second, "yesterday" only the first.
    let yesterday_start: i64 = 1_000_000_000;
    let today_start: i64 = yesterday_start + 86_400_000;
    let mut store = ContentStore::new();
    let before = store.insert(text_draft("23:59 yesterday", today_start - 60_000), 50);
    let after = store.insert(text_draft("00:01 today", today_start + 60_000), 50);
    let earlier = store.insert(text_draft("long ago", yesterday_start - 5), 50);

    let f = HistoryFilter { query: None, kind: None, source_app: None, bucket: Some(TimeBucket::Today) };
    let rows = query_history(&store, &f, yesterday_start, today_start);
    assert_eq!(rows.iter().map(|d| d.id).collect::<Vec<_>>(), vec![after.id]);

    let f = HistoryFilter { query: None, kind: None, source_app: None, bucket: Some(TimeBucket::Yesterday) };
    let rows = query_history(&store, &f, yesterday_start, today_start);
    assert_eq!(rows.iter().map(|d| d.id).collect::<Vec<_>>(), vec![before.id]);

    let f = HistoryFilter { query: None, kind: None, source_app: None, bucket: Some(TimeBucket::Earlier) };
    let rows = query_history(&store, &f, yesterday_start, today_start);
    assert_eq!(rows.iter().map(|d| d.id).collect::<Vec<_>>(), vec![earlier.id]);
}

#[test]
fn queries_cap_at_five_hundred_rows() {
    let mut store = ContentStore::new();
    for i in 0..520i64 {
        store.insert(text_draft(&format!("row {}", i), i), 1000);
    }
    let rows = query_history(&store, &HistoryFilter::none(), 0, 0);
    assert_eq!(rows.len(), 500);
    // Newest first: the very latest row leads.
    assert_eq!(rows[0].text_content.as_deref(), Some(b"row 519".as_slice()));
}

#[test]
fn get_history_resolves_local_day_bounds() {
    // The full read path: the local midnights come from the system clock,
    // the rows from the verified query.
    let mut store = ContentStore::new();
    store.insert(text_draft("one", 10), 50);
    store.insert(text_draft("two", 20), 50);
    let rows = pastify::api::get_history(&store, &HistoryFilter::none()).unwrap();
    assert_eq!(rows.len(), 2);
    assert_eq!(rows[0].text_content.as_deref(), Some(b"two".as_slice()));
}
