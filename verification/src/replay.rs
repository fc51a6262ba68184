//! Paste/Copy Replay: takes a stored entry back to the OS clipboard. The
//! clipboard write and the key synthesis happen outside the library; this
//! module looks the entry up, arms the Suppression Gate (always before the
//! write, to close the race against the monitor's next tick), prepares the
//! payload, and afterwards increments the usage counter and surfaces a
//! synthesis failure.

use vstd::prelude::*;
use vstd::string::StrSliceExecFns;
use crate::bytes::clone_bytes;
use crate::codec::decode_image;
use crate::codec::decoded_image;
use crate::entry::ContentKind;
use crate::entry::EntryModel;
use crate::error::AppError;
use crate::gate::SUPPRESS_WINDOW_MS;
use crate::gate::SuppressionGate;
use crate::gate::saturated_sum;
use crate::store::ContentStore;
use crate::store::usage_bumped;

verus! {

/// The two replay modes.
#[derive(Clone, Copy, PartialEq, Eq, Structural, Debug)]
pub enum ReplayMode {
    /// Write the entry to the clipboard and synthesize the paste keystroke.
    PasteAndSynthesizeKeys,
    /// Only write the entry to the clipboard.
    CopyOnly,
}

impl ReplayMode {
    /// Whether this mode calls for key synthesis once the clipboard write
    /// is done.
    pub fn requires_synthesis(self) -> (r: bool)
        ensures
            r == (self is PasteAndSynthesizeKeys),
    {
        match self {
            ReplayMode::PasteAndSynthesizeKeys => true,
            ReplayMode::CopyOnly => false,
        }
    }
}

/// Mathematical model of what is written back to the clipboard.
#[verifier::ext_equal]
pub ghost enum ReplayPayloadModel {
    Text { text: Seq<u8> },
    Image { width: u32, height: u32, rgba: Seq<u8> },
}

/// What the caller must write to the OS clipboard: the entry's text
/// verbatim, or its image decoded back to raw RGBA pixels.
pub enum ReplayPayload {
    Text { text: Vec<u8> },
    Image { width: u32, height: u32, rgba: Vec<u8> },
}

impl View for ReplayPayload {
    type V = ReplayPayloadModel;

    open spec fn view(&self) -> ReplayPayloadModel {
        match self {
            ReplayPayload::Text { text } => ReplayPayloadModel::Text { text: text@ },
            ReplayPayload::Image { width, height, rgba } => ReplayPayloadModel::Image {
                width: *width,
                height: *height,
                rgba: rgba@,
            },
        }
    }
}

/// What replaying the stored entry `e` yields: its text, or its image
/// decoded to pixels (`Err` when the stored bytes no longer decode).
pub open spec fn payload_of_entry(e: EntryModel) -> Result<ReplayPayloadModel, ()> {
    match e.kind {
        ContentKind::Text => Ok(
            ReplayPayloadModel::Text {
                text: match e.text {
                    Some(t) => t,
                    None => Seq::empty(),
                },
            },
        ),
        ContentKind::Image => match decoded_image(e.image.unwrap()) {
            Some((w, h, px)) => Ok(ReplayPayloadModel::Image { width: w, height: h, rgba: px }),
            None => Err(()),
        },
    }
}

/// Looks the entry up, arms the Suppression Gate for the fixed window, and
/// prepares the clipboard payload. `NotFound` when no entry has the id, in
/// which case suppression is left alone; a decoding failure still leaves
/// suppression armed, exactly as a clipboard write would find it.
pub fn replay_prepare(
    store: &ContentStore,
    gate: &mut SuppressionGate,
    id: i64,
    now_ms: u64,
) -> (r: Result<ReplayPayload, AppError>)
    requires
        store@.wf(),
    ensures
        (forall|k: int| 0 <= k < store@.entries.len() ==> store@.entries[k].id != id as int) ==> (
        r matches Err(e) && e == AppError::NotFound && *final(gate) == *old(gate)),
        forall|k: int|
            0 <= k < store@.entries.len() && store@.entries[k].id == id as int ==> ({
                let e = store@.entries[k];
                &&& final(gate).suppressed_until_ms == saturated_sum(now_ms, SUPPRESS_WINDOW_MS)
                &&& match payload_of_entry(e) {
                    Ok(p) => r matches Ok(got) && got@ == p,
                    Err(_) => r matches Err(err) && err is Other,
                }
            }),
{
    let entries = store.entries();
    let n = entries.len();
    let mut i: usize = 0;
    while i < n
        invariant
            n == entries.len(),
            entries.deep_view() == store@.entries,
            store@.wf(),
            0 <= i <= n,
            *gate == *old(gate),
            forall|k: int| 0 <= k < i ==> store@.entries[k].id != id as int,
        decreases n - i,
    {
        if entries[i].id == id {
            let e = &entries[i];
            proof {
                assert(e@ == store@.entries[i as int]);
                assert(e@.wf());
                assert forall|k: int|
                    0 <= k < store@.entries.len() && store@.entries[k].id
                        == id as int implies store@.entries[k] == e@ by {
                    if k < i as int {
                        assert(store@.entries[k].id < store@.entries[i as int].id);
                    } else if k > i as int {
                        assert(store@.entries[i as int].id < store@.entries[k].id);
                    }
                }
            }
            gate.arm(now_ms, SUPPRESS_WINDOW_MS);
            match e.kind {
                ContentKind::Text => {
                    let text = match &e.text {
                        Some(t) => clone_bytes(t),
                        None => Vec::new(),
                    };
                    return Ok(ReplayPayload::Text { text });
                },
                ContentKind::Image => {
                    let png = match &e.image {
                        Some(b) => b,
                        None => {
                            proof {
                                assert(false);
                            }
                            unreached()
                        },
                    };
                    match decode_image(png) {
                        Some((width, height, rgba)) => {
                            return Ok(ReplayPayload::Image { width, height, rgba });
                        },
                        None => {
                            return Err(
                                AppError::Other("stored image no longer decodes".as_bytes_vec()),
                            );
                        },
                    }
                },
            }
        }
        i += 1;
    }
    Err(AppError::NotFound)
}

/// After the clipboard write (and, for paste mode, the key-synthesis
/// attempt): adds one use to the entry, then surfaces the synthesis
/// failure if there was one. The usage increment is not rolled back on a
/// synthesis failure.
pub fn replay_finish(
    store: &mut ContentStore,
    id: i64,
    synthesis: Option<Result<(), AppError>>,
) -> (r: Result<(), AppError>)
    requires
        old(store)@.wf(),
    ensures
        final(store)@.wf(),
        final(store)@.settings == old(store)@.settings,
        final(store)@.next_id == old(store)@.next_id,
        (forall|k: int|
            0 <= k < old(store)@.entries.len() ==> old(store)@.entries[k].id != id as int)
            ==> final(store)@.entries == old(store)@.entries,
        forall|k: int|
            0 <= k < old(store)@.entries.len() && old(store)@.entries[k].id == id as int
                ==> final(store)@.entries == old(store)@.entries.update(
                k,
                usage_bumped(old(store)@.entries[k]),
            ),
        match synthesis {
            Some(Err(e)) => r == Err::<(), AppError>(e),
            _ => r == Ok::<(), AppError>(()),
        },
{
    store.increment_usage(id);
    match synthesis {
        Some(Err(e)) => Err(e),
        _ => Ok(()),
    }
}

} // verus!
