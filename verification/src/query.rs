//! History queries: optional filters (case-insensitive substring on text,
//! content kind, exact source application, local-day time bucket), results
//! ordered pinned-first then newest-first, capped at 500 rows.

use vstd::prelude::*;
use crate::bytes::contains_ci;
use crate::bytes::contains_ci_bytes;
use crate::bytes::is_blank;
use crate::bytes::is_blank_bytes;
use crate::bytes::bytes_eq;
use crate::entry::ClipboardEntry;
use crate::entry::ContentKind;
use crate::entry::EntryModel;
use crate::store::ContentStore;
use crate::store::rank_before;
use crate::store::rank_before_exec;

verus! {

/// The number of rows a query returns at most, whatever the filters.
pub const QUERY_ROW_CAP: usize = 500;

/// The three calendar buckets entries are filtered into, against the
/// caller's local day boundaries.
#[derive(Clone, Copy, PartialEq, Eq, Structural, Debug)]
pub enum TimeBucket {
    Today,
    Yesterday,
    Earlier,
}

/// Mathematical model of a history query.
#[verifier::ext_equal]
pub ghost struct FilterModel {
    pub query: Option<Seq<u8>>,
    pub kind: Option<ContentKind>,
    pub source_app: Option<Seq<u8>>,
    pub bucket: Option<TimeBucket>,
}

/// A history query: each filter is independently optional. A blank
/// substring query and an empty source-application string are ignored,
/// as the caller may hand them through verbatim.
pub struct HistoryFilter {
    /// Substring to look for in text payloads, ASCII-case-insensitively;
    /// entries without text never match a non-blank query.
    pub query: Option<Vec<u8>>,
    /// Keep only entries of this kind.
    pub kind: Option<ContentKind>,
    /// Keep only entries whose source application equals this exactly.
    pub source_app: Option<Vec<u8>>,
    /// Keep only entries of this local-calendar bucket.
    pub bucket: Option<TimeBucket>,
}

impl View for HistoryFilter {
    type V = FilterModel;

    open spec fn view(&self) -> FilterModel {
        FilterModel {
            query: crate::bytes::opt_bytes_view(self.query),
            kind: self.kind,
            source_app: crate::bytes::opt_bytes_view(self.source_app),
            bucket: self.bucket,
        }
    }
}

impl HistoryFilter {
    /// The filter that keeps everything.
    pub fn none() -> (f: Self)
        ensures
            f@.query is None,
            f@.kind is None,
            f@.source_app is None,
            f@.bucket is None,
    {
        HistoryFilter { query: None, kind: None, source_app: None, bucket: None }
    }
}

/// Whether `e` falls in `bucket`, where `yesterday_start` and
/// `today_start` are the epoch milliseconds of the local midnights opening
/// yesterday and today.
pub open spec fn in_bucket(e: EntryModel, bucket: TimeBucket, yesterday_start: int, today_start: int) -> bool {
    match bucket {
        TimeBucket::Today => e.created_at >= today_start,
        TimeBucket::Yesterday => yesterday_start <= e.created_at < today_start,
        TimeBucket::Earlier => e.created_at < yesterday_start,
    }
}

/// Whether `e` passes every filter of `f`.
pub open spec fn passes_filter(
    e: EntryModel,
    f: FilterModel,
    yesterday_start: int,
    today_start: int,
) -> bool {
    &&& match f.query {
        Some(q) => is_blank(q) || (e.text matches Some(t) && contains_ci(t, q)),
        None => true,
    }
    &&& match f.kind {
        Some(k) => e.kind == k,
        None => true,
    }
    &&& match f.source_app {
        Some(sa) => sa.len() == 0 || (e.source_app matches Some(x) && x == sa),
        None => true,
    }
    &&& match f.bucket {
        Some(b) => in_bucket(e, b, yesterday_start, today_start),
        None => true,
    }
}

/// The entries among the first `i` of `s` that pass the filters, in their
/// original order.
pub open spec fn filtered_upto(
    s: Seq<EntryModel>,
    f: FilterModel,
    ys: int,
    ts: int,
    i: int,
) -> Seq<EntryModel>
    decreases i,
{
    if i <= 0 {
        Seq::empty()
    } else {
        let prev = filtered_upto(s, f, ys, ts, i - 1);
        if 0 <= i - 1 < s.len() && passes_filter(s[i - 1], f, ys, ts) {
            prev.push(s[i - 1])
        } else {
            prev
        }
    }
}

/// The entries of `s` that pass the filters, in their original order.
pub open spec fn filtered(s: Seq<EntryModel>, f: FilterModel, ys: int, ts: int) -> Seq<EntryModel> {
    filtered_upto(s, f, ys, ts, s.len() as int)
}

/// `s` re-ordered by rank (pinned first, then newest first, newest id
/// breaking ties), by insertion from the front.
pub open spec fn insert_ranked(s: Seq<EntryModel>, e: EntryModel) -> Seq<EntryModel>
    decreases s.len(),
{
    if s.len() == 0 {
        seq![e]
    } else if rank_before(e, s[0]) {
        seq![e] + s
    } else {
        seq![s[0]] + insert_ranked(s.drop_first(), e)
    }
}

/// Insertion sort of `s` by rank.
pub open spec fn sort_ranked(s: Seq<EntryModel>) -> Seq<EntryModel>
    decreases s.len(),
{
    if s.len() == 0 {
        Seq::empty()
    } else {
        insert_ranked(sort_ranked(s.drop_first()), s[0])
    }
}

/// What a query returns: the matching entries, ranked, capped at
/// [`QUERY_ROW_CAP`] rows.
pub open spec fn query_result(s: Seq<EntryModel>, f: FilterModel, ys: int, ts: int) -> Seq<
    EntryModel,
> {
    let sorted = sort_ranked(filtered(s, f, ys, ts));
    if sorted.len() <= QUERY_ROW_CAP as int {
        sorted
    } else {
        sorted.take(QUERY_ROW_CAP as int)
    }
}

/// Inserting at the first position whose occupant the new entry outranks
/// is what [`insert_ranked`] does.
proof fn lemma_insert_ranked_at(s: Seq<EntryModel>, e: EntryModel, p: int)
    requires
        0 <= p <= s.len(),
        forall|k: int| 0 <= k < p ==> !rank_before(e, s[k]),
        p < s.len() ==> rank_before(e, s[p]),
    ensures
        insert_ranked(s, e) == s.take(p) + seq![e] + s.skip(p),
    decreases s.len(),
{
    if s.len() == 0 {
        assert(insert_ranked(s, e) =~= s.take(0) + seq![e] + s.skip(0));
    } else if rank_before(e, s[0]) {
        assert(p == 0);
        assert(insert_ranked(s, e) =~= s.take(0) + seq![e] + s.skip(0));
    } else {
        assert(p >= 1);
        let t = s.drop_first();
        assert forall|k: int| 0 <= k < p - 1 implies !rank_before(e, t[k]) by {
            assert(t[k] == s[k + 1]);
        }
        lemma_insert_ranked_at(t, e, p - 1);
        assert(insert_ranked(s, e) =~= s.take(p) + seq![e] + s.skip(p));
    }
}

/// Whether `e` passes every filter of `f`, at the given day bounds.
fn passes_filter_exec(
    e: &ClipboardEntry,
    f: &HistoryFilter,
    yesterday_start: i64,
    today_start: i64,
) -> (r: bool)
    ensures
        r == passes_filter(e@, f@, yesterday_start as int, today_start as int),
{
    let query_ok = match &f.query {
        Some(q) => {
            if is_blank_bytes(q.as_slice()) {
                true
            } else {
                match &e.text {
                    Some(t) => contains_ci_bytes(t.as_slice(), q.as_slice()),
                    None => false,
                }
            }
        },
        None => true,
    };
    let kind_ok = match &f.kind {
        Some(k) => e.kind == *k,
        None => true,
    };
    let source_ok = match &f.source_app {
        Some(sa) => {
            if sa.len() == 0 {
                true
            } else {
                match &e.source_app {
                    Some(x) => bytes_eq(x.as_slice(), sa.as_slice()),
                    None => false,
                }
            }
        },
        None => true,
    };
    let bucket_ok = match &f.bucket {
        Some(b) => match b {
            TimeBucket::Today => e.created_at >= today_start,
            TimeBucket::Yesterday => e.created_at >= yesterday_start && e.created_at < today_start,
            TimeBucket::Earlier => e.created_at < yesterday_start,
        },
        None => true,
    };
    query_ok && kind_ok && source_ok && bucket_ok
}

/// Inserts a copy of `e` into `out`, which is kept ranked.
fn insert_ranked_exec(out: &mut Vec<ClipboardEntry>, e: ClipboardEntry)
    requires
        forall|k: int| 0 <= k < old(out)@.len() ==> (#[trigger] old(out)@[k])@.wf(),
        e@.wf(),
    ensures
        final(out).deep_view() == insert_ranked(old(out).deep_view(), e@),
        forall|k: int| 0 <= k < final(out)@.len() ==> (#[trigger] final(out)@[k])@.wf(),
{
    let ghost s = out.deep_view();
    let n = out.len();
    let mut p: usize = 0;
    while p < n && !rank_before_exec(&e, &out[p])
        invariant
            n == out.len(),
            out.deep_view() == s,
            s.len() == n,
            0 <= p <= n,
            forall|k: int| 0 <= k < p ==> !rank_before(e@, s[k]),
        decreases n - p,
    {
        p += 1;
    }
    proof {
        lemma_insert_ranked_at(s, e@, p as int);
    }
    out.insert(p, e);
    proof {
        assert(out.deep_view() =~~= s.take(p as int) + seq![e@] + s.skip(p as int));
    }
}

/// Runs a query against the stored entries: every entry passing the
/// filters, ordered pinned-first then newest-first (newest id breaking
/// ties), capped at [`QUERY_ROW_CAP`] rows. `yesterday_start` and
/// `today_start` are the epoch milliseconds of the local midnights that
/// open yesterday and today, for the time-bucket filter.
pub fn query_entries(
    store: &ContentStore,
    f: &HistoryFilter,
    yesterday_start: i64,
    today_start: i64,
) -> (r: Vec<ClipboardEntry>)
    requires
        store@.wf(),
    ensures
        r.deep_view() == query_result(
            store@.entries,
            f@,
            yesterday_start as int,
            today_start as int,
        ),
        forall|k: int| 0 <= k < r@.len() ==> (#[trigger] r@[k])@.wf(),
{
    let ghost ys = yesterday_start as int;
    let ghost ts = today_start as int;
    let entries = store.entries();
    let ghost s = store@.entries;
    let n = entries.len();

    let mut hits: Vec<ClipboardEntry> = Vec::new();
    let mut i: usize = 0;
    while i < n
        invariant
            n == entries.len(),
            entries.deep_view() == s,
            s.len() == n,
            0 <= i <= n,
            ys == yesterday_start as int,
            ts == today_start as int,
            store@.wf(),
            s == store@.entries,
            hits.deep_view() == filtered_upto(s, f@, ys, ts, i as int),
            forall|k: int| 0 <= k < hits@.len() ==> (#[trigger] hits@[k])@.wf(),
        decreases n - i,
    {
        if passes_filter_exec(&entries[i], f, yesterday_start, today_start) {
            hits.push(entries[i].clone());
            proof {
                assert(hits.deep_view() =~~= filtered_upto(s, f@, ys, ts, i + 1));
            }
        } else {
            proof {
                assert(hits.deep_view() =~~= filtered_upto(s, f@, ys, ts, i + 1));
            }
        }
        i += 1;
    }
    let ghost m = hits.deep_view();
    proof {
        assert(m == filtered(s, f@, ys, ts));
    }

    let mut sorted: Vec<ClipboardEntry> = Vec::new();
    let total = hits.len();
    let mut left = total;
    while hits.len() > 0
        invariant
            left == hits.len(),
            0 <= left <= total,
            m.len() == total,
            forall|k: int| 0 <= k < left ==> (#[trigger] hits@[k])@ == m[k],
            forall|k: int| 0 <= k < left ==> (#[trigger] hits@[k])@.wf(),
            sorted.deep_view() == sort_ranked(m.skip(left as int)),
            forall|k: int| 0 <= k < sorted@.len() ==> (#[trigger] sorted@[k])@.wf(),
        decreases hits.len(),
    {
        let e = match hits.pop() {
            Some(e) => e,
            None => {
                proof {
                    assert(false);
                }
                unreached()
            },
        };
        proof {
            assert(e@ == m[left - 1]);
            assert(m.skip(left - 1).drop_first() =~= m.skip(left as int));
            assert(m.skip(left - 1)[0] == m[left - 1]);
        }
        insert_ranked_exec(&mut sorted, e);
        left -= 1;
    }
    proof {
        assert(m.skip(0) =~= m);
    }
    if sorted.len() > QUERY_ROW_CAP {
        sorted.truncate(QUERY_ROW_CAP);
        proof {
            assert(sorted.deep_view() =~~= sort_ranked(m).take(QUERY_ROW_CAP as int));
        }
    }
    proof {
        assert(forall|k: int| 0 <= k < sorted@.len() ==> (#[trigger] sorted@[k])@.wf());
    }
    sorted
}

} // verus!
