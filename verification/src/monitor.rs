//! Clipboard Monitor: the per-tick decisions of the polling loop. The loop
//! itself (sleeping, reading the OS change counter, reading the clipboard,
//! resolving the foreground window) runs outside the library and hands the
//! observed values in; this module decides what becomes a history entry.

use vstd::prelude::*;
use vstd::string::StrSliceExecFns;
use crate::bytes::is_blank;
use crate::bytes::is_blank_bytes;
use crate::bytes::opt_bytes_view;
use crate::codec::encode_png;
use crate::codec::fits_base64;
use crate::codec::payload_len_fits;
use crate::codec::png_of;
use crate::dedup::is_duplicate;
use crate::dedup::is_duplicate_model;
use crate::dto::ClipboardDto;
use crate::dto::dto_of;
use crate::dto::to_dto;
use crate::entry::ContentKind;
use crate::entry::DraftModel;
use crate::entry::EntryDraft;
use crate::entry::entry_of_draft;
use crate::error::AppError;
use crate::settings::blacklisted;
use crate::gate::SuppressionGate;
use crate::gate::suppressed_at;
use crate::source::ProcessInfo;
use crate::source::ProcessInfoModel;
use crate::store::ContentStore;
use crate::store::StoreModel;
use crate::store::survivors;

verus! {

/// The monitor's persistent state: the last OS clipboard change counter it
/// has seen.
pub struct ClipboardMonitor {
    /// Opaque OS change counter at the last observed state.
    pub last_seen_sequence: u64,
}

impl ClipboardMonitor {
    /// A monitor that has seen the given initial change counter.
    pub fn new(initial_sequence: u64) -> (m: Self)
        ensures
            m.last_seen_sequence == initial_sequence,
    {
        ClipboardMonitor { last_seen_sequence: initial_sequence }
    }

    /// One poll of the change counter: remembers the new value and reports
    /// whether the clipboard changed since the last poll.
    pub fn observe(&mut self, sequence: u64) -> (changed: bool)
        ensures
            final(self).last_seen_sequence == sequence,
            changed == (sequence != old(self).last_seen_sequence),
    {
        let changed = sequence != self.last_seen_sequence;
        self.last_seen_sequence = sequence;
        changed
    }

    /// One tick of the monitor loop, up to the decision whether to inspect
    /// the clipboard: the change counter is remembered either way, and the
    /// content is inspected only when the counter moved and the Suppression
    /// Gate is not armed for this instant.
    pub fn poll(&mut self, gate: &SuppressionGate, sequence: u64, now_ms: u64) -> (proceed: bool)
        ensures
            final(self).last_seen_sequence == sequence,
            proceed == (sequence != old(self).last_seen_sequence && !suppressed_at(*gate, now_ms)),
    {
        let changed = self.observe(sequence);
        changed && !gate.is_suppressed(now_ms)
    }
}

/// Mathematical model of one clipboard read.
#[verifier::ext_equal]
pub ghost enum SnapshotModel {
    /// Neither text nor image was on the clipboard.
    Empty,
    /// UTF-8 text.
    Text { text: Seq<u8> },
    /// Raw RGBA pixels, 8 bits per channel, row-major, top-down.
    Image { width: u32, height: u32, rgba: Seq<u8> },
}

/// What one read of the OS clipboard yielded: text when any is present
/// (tried first), else an image, else nothing.
pub enum ClipboardSnapshot {
    /// Neither text nor image was on the clipboard.
    Empty,
    /// UTF-8 text.
    Text { text: Vec<u8> },
    /// Raw RGBA pixels, 8 bits per channel, row-major, top-down.
    Image { width: u32, height: u32, rgba: Vec<u8> },
}

impl View for ClipboardSnapshot {
    type V = SnapshotModel;

    open spec fn view(&self) -> SnapshotModel {
        match self {
            ClipboardSnapshot::Empty => SnapshotModel::Empty,
            ClipboardSnapshot::Text { text } => SnapshotModel::Text { text: text@ },
            ClipboardSnapshot::Image { width, height, rgba } => SnapshotModel::Image {
                width: *width,
                height: *height,
                rgba: rgba@,
            },
        }
    }
}

/// The model of an optional borrowed source attribution.
pub open spec fn opt_source_model(source: Option<&ProcessInfo>) -> Option<ProcessInfoModel> {
    match source {
        Some(p) => Some(p@),
        None => None,
    }
}

/// The candidate's source is attributed and its display name matches the
/// blacklist, ASCII-case-insensitively.
pub open spec fn source_blacklisted(
    blacklist: Seq<Seq<u8>>,
    source: Option<ProcessInfoModel>,
) -> bool {
    source matches Some(p) && blacklisted(blacklist, p.display)
}

/// An image snapshot whose buffer agrees with its dimensions and fits the
/// PNG encoder.
pub open spec fn image_dims_ok(width: u32, height: u32, len: int) -> bool {
    &&& len == 4 * (width as int) * (height as int)
    &&& 4 * (width as int) * (height as int) <= 0x7fffffff
    &&& width > 0
    &&& height > 0
}

/// The entry draft a snapshot becomes, given the capture timestamp and
/// source attribution; `None` when the snapshot holds nothing storable
/// (no content, or blank text). Image payloads are the snapshot's pixels
/// re-encoded as PNG.
pub open spec fn draft_of_snapshot(
    snap: SnapshotModel,
    source: Option<ProcessInfoModel>,
    now_ms: int,
) -> Option<DraftModel> {
    let source_app = match source {
        Some(p) => Some(p.display),
        None => None,
    };
    let source_path = match source {
        Some(p) => Some(p.path),
        None => None,
    };
    let source_icon = match source {
        Some(p) => p.icon_png,
        None => None,
    };
    match snap {
        SnapshotModel::Empty => None,
        SnapshotModel::Text { text } => if is_blank(text) {
            None
        } else {
            Some(
                DraftModel {
                    kind: ContentKind::Text,
                    text: Some(text),
                    image: None,
                    source_app,
                    source_path,
                    source_icon,
                    created_at: now_ms,
                },
            )
        },
        SnapshotModel::Image { width, height, rgba } => Some(
            DraftModel {
                kind: ContentKind::Image,
                text: None,
                image: Some(png_of(width, height, rgba)),
                source_app,
                source_path,
                source_icon,
                created_at: now_ms,
            },
        ),
    }
}

/// The most recent entry of a store's contents, if any.
pub open spec fn last_entry_of(entries: Seq<crate::entry::EntryModel>) -> Option<
    crate::entry::EntryModel,
> {
    if entries.len() > 0 {
        Some(entries.last())
    } else {
        None
    }
}

/// Whether a capture of `snap` at `now_ms` commits a new entry: the source
/// is not blacklisted, the snapshot is storable, images are being
/// recorded, the encoded image payload is renderable, and the candidate
/// does not repeat the most recent entry.
pub open spec fn capture_commits(
    m: StoreModel,
    source: Option<ProcessInfoModel>,
    snap: SnapshotModel,
    now_ms: int,
) -> bool {
    &&& !source_blacklisted(m.settings.blacklist, source)
    &&& (snap is Image ==> m.settings.record_images)
    &&& (snap matches SnapshotModel::Image { width, height, rgba } ==> image_dims_ok(
        width,
        height,
        rgba.len() as int,
    ) && fits_base64(png_of(width, height, rgba).len() as int))
    &&& draft_of_snapshot(snap, source, now_ms) matches Some(d) && !is_duplicate_model(
        d,
        last_entry_of(m.entries),
    )
}

/// Whether a capture of `snap` fails with an error: the change survives
/// the blacklist and image recording is on, but the image buffer does not
/// agree with its dimensions, cannot be PNG-encoded, or encodes to a
/// payload too large to render.
pub open spec fn capture_errs(
    m: StoreModel,
    source: Option<ProcessInfoModel>,
    snap: SnapshotModel,
) -> bool {
    &&& !source_blacklisted(m.settings.blacklist, source)
    &&& m.settings.record_images
    &&& snap matches SnapshotModel::Image { width, height, rgba } && !(image_dims_ok(
        width,
        height,
        rgba.len() as int,
    ) && fits_base64(png_of(width, height, rgba).len() as int))
}

/// One capture attempt: applies the blacklist, classifies the snapshot
/// (text first, blank text never stored; images re-encoded to PNG), runs
/// the deduplicator against the most recent entry, and on acceptance
/// inserts through the store with the current retention cap. Returns the
/// stored entry rendered for listeners, `None` when the change was
/// dropped, or the decoding error.
pub fn capture(
    store: &mut ContentStore,
    source: Option<&ProcessInfo>,
    snapshot: &ClipboardSnapshot,
    now_ms: i64,
) -> (r: Result<Option<ClipboardDto>, AppError>)
    requires
        old(store)@.wf(),
        old(store)@.next_id < i64::MAX as int,
        opt_source_model(source) matches Some(p) ==> p.wf(),
    ensures
        final(store)@.wf(),
        final(store)@.settings == old(store)@.settings,
        capture_commits(old(store)@, opt_source_model(source), snapshot@, now_ms as int) ==> ({
            let d = draft_of_snapshot(snapshot@, opt_source_model(source), now_ms as int).unwrap();
            let stored = entry_of_draft(d, old(store)@.next_id);
            &&& final(store)@.entries == survivors(
                old(store)@.entries.push(stored),
                old(store)@.settings.max_history,
            )
            &&& final(store)@.next_id == old(store)@.next_id + 1
            &&& r matches Ok(Some(dto)) && dto@ == dto_of(stored)
        }),
        !capture_commits(old(store)@, opt_source_model(source), snapshot@, now_ms as int)
            ==> final(store)@ == old(store)@,
        !capture_commits(old(store)@, opt_source_model(source), snapshot@, now_ms as int) ==> (
        if capture_errs(old(store)@, opt_source_model(source), snapshot@) {
            r matches Err(e) && e is Other
        } else {
            r matches Ok(o) && o is None
        }),
{
    let settings = store.settings();
    if let Some(p) = source {
        if settings.is_blacklisted(p.display.as_slice()) {
            return Ok(None);
        }
    }
    let retention_cap = store.settings().max_history;

    let draft: EntryDraft = match snapshot {
        ClipboardSnapshot::Empty => {
            return Ok(None);
        },
        ClipboardSnapshot::Text { text } => {
            if is_blank_bytes(text.as_slice()) {
                return Ok(None);
            }
            EntryDraft {
                kind: ContentKind::Text,
                text: Some(crate::bytes::clone_bytes(text)),
                image: None,
                source_app: source_display(source),
                source_path: source_path(source),
                source_icon: source_icon(source),
                created_at: now_ms,
            }
        },
        ClipboardSnapshot::Image { width, height, rgba } => {
            if !store.settings().record_images {
                return Ok(None);
            }
            let w = *width;
            let h = *height;
            if !image_len_matches(w, h, rgba.len()) {
                return Err(AppError::Other("image buffer does not match its dimensions".as_bytes_vec()));
            }
            let png = match encode_png(w, h, rgba) {
                Some(png) => png,
                None => {
                    return Err(AppError::Other("image could not be encoded".as_bytes_vec()));
                },
            };
            if !payload_len_fits(png.len()) {
                return Err(AppError::Other("encoded image too large".as_bytes_vec()));
            }
            EntryDraft {
                kind: ContentKind::Image,
                text: None,
                image: Some(png),
                source_app: source_display(source),
                source_path: source_path(source),
                source_icon: source_icon(source),
                created_at: now_ms,
            }
        },
    };
    proof {
        assert(Some(draft@) =~~= draft_of_snapshot(
            snapshot@,
            opt_source_model(source),
            now_ms as int,
        ));
    }

    if is_duplicate(&draft, store.last_entry()) {
        return Ok(None);
    }

    let stored = store.insert(draft, retention_cap);
    let dto = to_dto(&stored);
    Ok(Some(dto))
}

/// The buffer length agrees with the image dimensions and stays within
/// the PNG encoder's limits.
fn image_len_matches(width: u32, height: u32, len: usize) -> (r: bool)
    ensures
        r == image_dims_ok(width, height, len as int),
{
    let wu: u128 = width as u128;
    let hu: u128 = height as u128;
    proof {
        assert(wu * hu <= 0xffffffffu128 * 0xffffffffu128) by (nonlinear_arith)
            requires
                wu <= 0xffffffffu128,
                hu <= 0xffffffffu128,
        ;
        assert((4 * (width as int)) * (height as int) == 4 * ((width as int) * (height as int)))
            by (nonlinear_arith);
    }
    let need: u128 = 4u128 * (wu * hu);
    need == (len as u128) && need <= 0x7fffffff && width > 0 && height > 0
}

/// The display name a capture attributes, copied out of the source.
fn source_display(source: Option<&ProcessInfo>) -> (r: Option<Vec<u8>>)
    ensures
        opt_bytes_view(r) == match opt_source_model(source) {
            Some(p) => Some(p.display),
            None => None::<Seq<u8>>,
        },
{
    match source {
        Some(p) => Some(crate::bytes::clone_bytes(&p.display)),
        None => None,
    }
}

/// The executable path a capture attributes, copied out of the source.
fn source_path(source: Option<&ProcessInfo>) -> (r: Option<Vec<u8>>)
    ensures
        opt_bytes_view(r) == match opt_source_model(source) {
            Some(p) => Some(p.path),
            None => None::<Seq<u8>>,
        },
{
    match source {
        Some(p) => Some(crate::bytes::clone_bytes(&p.path)),
        None => None,
    }
}

/// The icon a capture attributes, copied out of the source.
fn source_icon(source: Option<&ProcessInfo>) -> (r: Option<Vec<u8>>)
    ensures
        opt_bytes_view(r) == match opt_source_model(source) {
            Some(p) => p.icon_png,
            None => None::<Seq<u8>>,
        },
{
    match source {
        Some(p) => crate::bytes::clone_opt_bytes(&p.icon_png),
        None => None,
    }
}

} // verus!
