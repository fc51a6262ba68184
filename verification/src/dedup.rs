//! Deduplicator: decides whether a candidate entry repeats the single most
//! recently stored entry. Text is compared byte for byte; images by the
//! length of their encoded payloads only (an accepted approximation).

use vstd::prelude::*;
use crate::bytes::bytes_eq;
use crate::entry::ClipboardEntry;
use crate::entry::ContentKind;
use crate::entry::DraftModel;
use crate::entry::EntryDraft;
use crate::entry::EntryModel;

verus! {

/// The length of an optional payload.
pub open spec fn opt_len(o: Option<Seq<u8>>) -> Option<int> {
    match o {
        Some(b) => Some(b.len() as int),
        None => None,
    }
}

/// The candidate duplicates the prior entry: same kind, and for text the
/// same bytes, for images merely the same encoded payload length.
pub open spec fn duplicate_of(d: DraftModel, prior: EntryModel) -> bool {
    &&& prior.kind == d.kind
    &&& match d.kind {
        ContentKind::Text => prior.text == d.text,
        ContentKind::Image => opt_len(prior.image) == opt_len(d.image),
    }
}

/// The dedup decision against the store's most recent entry, if any:
/// with no prior entry nothing is a duplicate.
pub open spec fn is_duplicate_model(d: DraftModel, last: Option<EntryModel>) -> bool {
    match last {
        Some(prior) => duplicate_of(d, prior),
        None => false,
    }
}

/// The model of an optional borrowed entry.
pub open spec fn opt_entry_model(last: Option<&ClipboardEntry>) -> Option<EntryModel> {
    match last {
        Some(e) => Some(e@),
        None => None,
    }
}

/// Decides whether the candidate repeats the most recently stored entry.
pub fn is_duplicate(d: &EntryDraft, last: Option<&ClipboardEntry>) -> (r: bool)
    ensures
        r == is_duplicate_model(d@, opt_entry_model(last)),
{
    match last {
        None => false,
        Some(prior) => {
            if prior.kind != d.kind {
                return false;
            }
            match d.kind {
                ContentKind::Text => {
                    match (&prior.text, &d.text) {
                        (Some(a), Some(b)) => bytes_eq(a.as_slice(), b.as_slice()),
                        (None, None) => true,
                        _ => false,
                    }
                },
                ContentKind::Image => {
                    match (&prior.image, &d.image) {
                        (Some(a), Some(b)) => a.len() == b.len(),
                        (None, None) => true,
                        _ => false,
                    }
                },
            }
        },
    }
}

} // verus!
