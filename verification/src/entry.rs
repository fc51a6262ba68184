//! History entries: one immutable captured clipboard value plus its mutable
//! pin/usage metadata.

use vstd::prelude::*;
use crate::bytes::clone_opt_bytes;
use crate::bytes::opt_bytes_view;
use crate::codec::fits_base64;

verus! {

/// The two kinds of content the engine stores.
#[derive(Clone, Copy, PartialEq, Eq, Structural, Debug)]
pub enum ContentKind {
    Text,
    Image,
}

/// Mathematical model of a stored entry.
#[verifier::ext_equal]
pub ghost struct EntryModel {
    pub id: int,
    pub kind: ContentKind,
    /// UTF-8 text payload; present exactly on text entries.
    pub text: Option<Seq<u8>>,
    /// PNG-encoded image payload; present exactly on image entries.
    pub image: Option<Seq<u8>>,
    pub source_app: Option<Seq<u8>>,
    pub source_path: Option<Seq<u8>>,
    pub source_icon: Option<Seq<u8>>,
    pub created_at: int,
    pub is_pinned: bool,
    pub usage_count: int,
}

impl EntryModel {
    /// A storable entry: the payload matches the kind (text entries hold
    /// text and no image, image entries the reverse), the binary payloads
    /// are small enough to render as data URIs, and the usage counter is
    /// non-negative.
    pub open spec fn wf(self) -> bool {
        &&& match self.kind {
            ContentKind::Text => self.text is Some && self.image is None,
            ContentKind::Image => self.image is Some && self.text is None,
        }
        &&& (self.image matches Some(b) ==> fits_base64(b.len() as int))
        &&& (self.source_icon matches Some(b) ==> fits_base64(b.len() as int))
        &&& self.usage_count >= 0
    }
}

/// One stored history entry. The content and attribution fields are
/// immutable after creation; only `is_pinned` and `usage_count` change.
pub struct ClipboardEntry {
    /// Unique, assigned by the store on insert.
    pub id: i64,
    pub kind: ContentKind,
    /// UTF-8 text payload.
    pub text: Option<Vec<u8>>,
    /// PNG-encoded image payload.
    pub image: Option<Vec<u8>>,
    /// Foreground application display name at capture time.
    pub source_app: Option<Vec<u8>>,
    /// Foreground application executable path at capture time.
    pub source_path: Option<Vec<u8>>,
    /// PNG-encoded icon of the source application.
    pub source_icon: Option<Vec<u8>>,
    /// Capture timestamp, milliseconds since the epoch.
    pub created_at: i64,
    /// Pinned entries are exempt from eviction.
    pub is_pinned: bool,
    /// How many times the entry was copied or pasted back.
    pub usage_count: i64,
}

impl View for ClipboardEntry {
    type V = EntryModel;

    open spec fn view(&self) -> EntryModel {
        EntryModel {
            id: self.id as int,
            kind: self.kind,
            text: opt_bytes_view(self.text),
            image: opt_bytes_view(self.image),
            source_app: opt_bytes_view(self.source_app),
            source_path: opt_bytes_view(self.source_path),
            source_icon: opt_bytes_view(self.source_icon),
            created_at: self.created_at as int,
            is_pinned: self.is_pinned,
            usage_count: self.usage_count as int,
        }
    }
}

impl DeepView for ClipboardEntry {
    type V = EntryModel;

    open spec fn deep_view(&self) -> EntryModel {
        self.view()
    }
}

impl Clone for ClipboardEntry {
    /// A field-for-field copy.
    fn clone(&self) -> (r: Self)
        ensures
            r@ == self@,
    {
        ClipboardEntry {
            id: self.id,
            kind: self.kind,
            text: clone_opt_bytes(&self.text),
            image: clone_opt_bytes(&self.image),
            source_app: clone_opt_bytes(&self.source_app),
            source_path: clone_opt_bytes(&self.source_path),
            source_icon: clone_opt_bytes(&self.source_icon),
            created_at: self.created_at,
            is_pinned: self.is_pinned,
            usage_count: self.usage_count,
        }
    }
}

/// Model of an entry handed to the store for insertion, before an id is
/// assigned.
#[verifier::ext_equal]
pub ghost struct DraftModel {
    pub kind: ContentKind,
    pub text: Option<Seq<u8>>,
    pub image: Option<Seq<u8>>,
    pub source_app: Option<Seq<u8>>,
    pub source_path: Option<Seq<u8>>,
    pub source_icon: Option<Seq<u8>>,
    pub created_at: int,
}

impl DraftModel {
    /// A storable draft: payload matching the kind, binary payloads small
    /// enough to render as data URIs.
    pub open spec fn wf(self) -> bool {
        &&& match self.kind {
            ContentKind::Text => self.text is Some && self.image is None,
            ContentKind::Image => self.image is Some && self.text is None,
        }
        &&& (self.image matches Some(b) ==> fits_base64(b.len() as int))
        &&& (self.source_icon matches Some(b) ==> fits_base64(b.len() as int))
    }
}

/// An entry as handed to the store for insertion: everything but the
/// store-assigned id and the freshly zeroed pin/usage metadata.
pub struct EntryDraft {
    pub kind: ContentKind,
    pub text: Option<Vec<u8>>,
    pub image: Option<Vec<u8>>,
    pub source_app: Option<Vec<u8>>,
    pub source_path: Option<Vec<u8>>,
    pub source_icon: Option<Vec<u8>>,
    pub created_at: i64,
}

impl View for EntryDraft {
    type V = DraftModel;

    open spec fn view(&self) -> DraftModel {
        DraftModel {
            kind: self.kind,
            text: opt_bytes_view(self.text),
            image: opt_bytes_view(self.image),
            source_app: opt_bytes_view(self.source_app),
            source_path: opt_bytes_view(self.source_path),
            source_icon: opt_bytes_view(self.source_icon),
            created_at: self.created_at as int,
        }
    }
}

/// The entry a draft becomes when the store assigns it `id`: unpinned,
/// never used yet.
pub open spec fn entry_of_draft(d: DraftModel, id: int) -> EntryModel {
    EntryModel {
        id: id,
        kind: d.kind,
        text: d.text,
        image: d.image,
        source_app: d.source_app,
        source_path: d.source_path,
        source_icon: d.source_icon,
        created_at: d.created_at,
        is_pinned: false,
        usage_count: 0,
    }
}

} // verus!
