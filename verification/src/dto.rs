//! The entry shape handed to listeners and front ends: binary payloads are
//! rendered as base64 data URIs.

use vstd::prelude::*;
use crate::bytes::clone_opt_bytes;
use crate::bytes::opt_bytes_view;
use crate::codec::data_uri_of;
use crate::codec::data_uri_png;
use crate::entry::ClipboardEntry;
use crate::entry::ContentKind;
use crate::entry::EntryModel;

verus! {

/// Mathematical model of the outward entry shape.
#[verifier::ext_equal]
pub ghost struct DtoModel {
    pub id: int,
    pub content_type: ContentKind,
    pub text_content: Option<Seq<u8>>,
    pub image_thumb: Option<Seq<u8>>,
    pub source_app: Option<Seq<u8>>,
    pub source_icon: Option<Seq<u8>>,
    pub created_at: int,
    pub is_pinned: bool,
    pub usage_count: int,
}

/// A history entry as delivered to listeners: text verbatim, image payload
/// and source icon as base64 `data:` URIs.
pub struct ClipboardDto {
    pub id: i64,
    pub content_type: ContentKind,
    pub text_content: Option<Vec<u8>>,
    pub image_thumb: Option<Vec<u8>>,
    pub source_app: Option<Vec<u8>>,
    pub source_icon: Option<Vec<u8>>,
    pub created_at: i64,
    pub is_pinned: bool,
    pub usage_count: i64,
}

impl View for ClipboardDto {
    type V = DtoModel;

    open spec fn view(&self) -> DtoModel {
        DtoModel {
            id: self.id as int,
            content_type: self.content_type,
            text_content: opt_bytes_view(self.text_content),
            image_thumb: opt_bytes_view(self.image_thumb),
            source_app: opt_bytes_view(self.source_app),
            source_icon: opt_bytes_view(self.source_icon),
            created_at: self.created_at as int,
            is_pinned: self.is_pinned,
            usage_count: self.usage_count as int,
        }
    }
}

impl DeepView for ClipboardDto {
    type V = DtoModel;

    open spec fn deep_view(&self) -> DtoModel {
        self.view()
    }
}

/// The outward rendering of a sequence of stored entries.
pub open spec fn dto_seq_of(s: Seq<EntryModel>) -> Seq<DtoModel> {
    Seq::new(s.len(), |i: int| dto_of(s[i]))
}

/// The outward rendering of a stored entry.
pub open spec fn dto_of(e: EntryModel) -> DtoModel {
    DtoModel {
        id: e.id,
        content_type: e.kind,
        text_content: e.text,
        image_thumb: match e.image {
            Some(b) => Some(data_uri_of(b)),
            None => None,
        },
        source_app: e.source_app,
        source_icon: match e.source_icon {
            Some(b) => Some(data_uri_of(b)),
            None => None,
        },
        created_at: e.created_at,
        is_pinned: e.is_pinned,
        usage_count: e.usage_count,
    }
}

/// Renders a stored entry for listeners.
pub fn to_dto(e: &ClipboardEntry) -> (dto: ClipboardDto)
    requires
        e@.wf(),
    ensures
        dto@ == dto_of(e@),
{
    let image_thumb = match &e.image {
        Some(b) => Some(data_uri_png(b)),
        None => None,
    };
    let source_icon = match &e.source_icon {
        Some(b) => Some(data_uri_png(b)),
        None => None,
    };
    let dto = ClipboardDto {
        id: e.id,
        content_type: e.kind,
        text_content: clone_opt_bytes(&e.text),
        image_thumb,
        source_app: clone_opt_bytes(&e.source_app),
        source_icon,
        created_at: e.created_at,
        is_pinned: e.is_pinned,
        usage_count: e.usage_count,
    };
    proof {
        assert(dto@ =~~= dto_of(e@));
    }
    dto
}

} // verus!
