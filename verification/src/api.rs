//! The engine's read and settings interfaces, as request handlers call
//! them: history queries rendered for the front end, and the settings
//! round trip that forces image recording on.

use vstd::prelude::*;
use vstd::string::StrSliceExecFns;
use crate::clock::local_day_bounds;
use crate::dto::ClipboardDto;
use crate::dto::dto_of;
use crate::dto::dto_seq_of;
use crate::dto::to_dto;
use crate::error::AppError;
use crate::query::HistoryFilter;
use crate::query::query_entries;
use crate::query::query_result;
use crate::settings::Settings;
use crate::store::ContentStore;
use crate::store::forced_images;

verus! {

/// Runs a history query at explicit local-day bounds and renders the rows
/// for the front end, in query order.
pub fn query_history(
    store: &ContentStore,
    f: &HistoryFilter,
    yesterday_start: i64,
    today_start: i64,
) -> (r: Vec<ClipboardDto>)
    requires
        store@.wf(),
    ensures
        r.deep_view() == dto_seq_of(
            query_result(store@.entries, f@, yesterday_start as int, today_start as int),
        ),
{
    let entries = query_entries(store, f, yesterday_start, today_start);
    let ghost q = entries.deep_view();
    let n = entries.len();
    let mut dtos: Vec<ClipboardDto> = Vec::new();
    let mut i: usize = 0;
    while i < n
        invariant
            n == entries.len(),
            entries.deep_view() == q,
            q.len() == n,
            forall|k: int| 0 <= k < n ==> (#[trigger] entries@[k])@.wf(),
            0 <= i <= n,
            dtos@.len() == i,
            forall|k: int| 0 <= k < i ==> (#[trigger] dtos@[k])@ == dto_of(q[k]),
        decreases n - i,
    {
        dtos.push(to_dto(&entries[i]));
        i += 1;
    }
    proof {
        assert(dtos.deep_view() =~~= dto_seq_of(q));
    }
    dtos
}

/// Runs a history query against the caller's local calendar day: resolves
/// today's and yesterday's local midnights and filters against them. Fails
/// only when the local midnights cannot be resolved.
pub fn get_history(store: &ContentStore, f: &HistoryFilter) -> (r: Result<
    Vec<ClipboardDto>,
    AppError,
>)
    requires
        store@.wf(),
    ensures
        r matches Ok(dtos) ==> exists|ys: int, ts: int|
            ys < ts && dtos.deep_view() == dto_seq_of(query_result(store@.entries, f@, ys, ts)),
        r matches Err(e) ==> e is Other,
{
    match local_day_bounds() {
        Some((yesterday_start, today_start)) => {
            let dtos = query_history(store, f, yesterday_start, today_start);
            proof {
                assert((yesterday_start as int) < (today_start as int));
                assert(dtos.deep_view() == dto_seq_of(
                    query_result(store@.entries, f@, yesterday_start as int, today_start as int),
                ));
            }
            Ok(dtos)
        },
        None => Err(AppError::Other("local day boundary unavailable".as_bytes_vec())),
    }
}

/// The settings round trip: persists the caller's record with image
/// recording forced on, and returns the record as persisted. The result
/// always has `record_images == true`, whatever the caller passed.
pub fn update_settings(store: &mut ContentStore, s: &Settings) -> (r: Settings)
    requires
        old(store)@.wf(),
        s@.wf(),
    ensures
        final(store)@.wf(),
        final(store)@.entries == old(store)@.entries,
        final(store)@.next_id == old(store)@.next_id,
        final(store)@.settings == forced_images(s@),
        r@ == forced_images(s@),
        r@.record_images,
{
    store.save_settings(s);
    store.load_settings()
}

/// The settings as the store holds them, with image recording forced on.
pub fn get_settings(store: &mut ContentStore) -> (s: Settings)
    requires
        old(store)@.wf(),
    ensures
        final(store)@.wf(),
        final(store)@.entries == old(store)@.entries,
        final(store)@.next_id == old(store)@.next_id,
        final(store)@.settings == forced_images(old(store)@.settings),
        s@ == forced_images(old(store)@.settings),
        s@.record_images,
{
    store.load_settings()
}

} // verus!
