//! The retention laws. Over any sequence of clipboard writes processed
//! while the Suppression Gate is never armed, the stored history never
//! exceeds the retention cap and holds exactly as many entries as the
//! adjacent-duplicate rule accepts, up to that cap; adjacent duplicates
//! collapse to one entry while a repeat with a distinct value between is
//! kept twice; and whatever is pinned, no eviction pass ever leaves more
//! than the cap in non-pinned entries.

use vstd::prelude::*;
use crate::dedup::is_duplicate_model;
use crate::dedup::opt_len;
use crate::entry::ContentKind;
use crate::entry::DraftModel;
use crate::entry::EntryModel;
use crate::entry::entry_of_draft;
use crate::monitor::last_entry_of;
use crate::store::keeps;
use crate::store::num_ranked_before;
use crate::store::num_ranked_before_upto;
use crate::store::rank_before;
use crate::store::survivors;
use crate::store::survivors_upto;

verus! {

/// The smaller of two integers.
pub open spec fn min_int(a: int, b: int) -> int {
    if a <= b {
        a
    } else {
        b
    }
}

/// One spec-level monitor acceptance: a storable candidate is dropped when
/// it duplicates the most recent entry, otherwise it is inserted with the
/// next id and eviction runs at cap `cap`. This is exactly what a committed
/// or deduplicated capture does to the store.
pub open spec fn accept_step(
    entries: Seq<EntryModel>,
    next_id: int,
    d: DraftModel,
    cap: int,
) -> (Seq<EntryModel>, int) {
    if is_duplicate_model(d, last_entry_of(entries)) {
        (entries, next_id)
    } else {
        (survivors(entries.push(entry_of_draft(d, next_id)), cap), next_id + 1)
    }
}

/// The spec-level monitor run: the storable candidates of a sequence of
/// clipboard writes, processed in order with suppression never armed.
pub open spec fn run_monitor(
    entries: Seq<EntryModel>,
    next_id: int,
    drafts: Seq<DraftModel>,
    cap: int,
) -> (Seq<EntryModel>, int)
    decreases drafts.len(),
{
    if drafts.len() == 0 {
        (entries, next_id)
    } else {
        let (e1, n1) = accept_step(entries, next_id, drafts[0], cap);
        run_monitor(e1, n1, drafts.skip(1), cap)
    }
}

/// Two candidates the deduplicator cannot tell apart: same kind, same text
/// bytes, same encoded image length.
pub open spec fn draft_dup(a: DraftModel, b: DraftModel) -> bool {
    &&& a.kind == b.kind
    &&& match a.kind {
        ContentKind::Text => a.text == b.text,
        ContentKind::Image => opt_len(a.image) == opt_len(b.image),
    }
}

/// How many of the candidates the adjacent-duplicate rule accepts, given
/// the candidate the most recent stored entry came from (if any): each
/// candidate equal (in the deduplicator's eyes) to the last accepted one is
/// dropped, every other one is accepted and becomes the new comparison
/// basis. This is the "distinct by adjacent deduplication" count of a write
/// sequence.
pub open spec fn accepted_count(last: Option<DraftModel>, drafts: Seq<DraftModel>) -> int
    decreases drafts.len(),
{
    if drafts.len() == 0 {
        0
    } else if last matches Some(p) && draft_dup(drafts[0], p) {
        accepted_count(last, drafts.skip(1))
    } else {
        1 + accepted_count(Some(drafts[0]), drafts.skip(1))
    }
}

/// The adjacent-duplicate rule never accepts a negative number of
/// candidates.
proof fn lemma_accepted_count_nonneg(last: Option<DraftModel>, drafts: Seq<DraftModel>)
    ensures
        accepted_count(last, drafts) >= 0,
    decreases drafts.len(),
{
    if drafts.len() > 0 {
        if last matches Some(p) && draft_dup(drafts[0], p) {
            lemma_accepted_count_nonneg(last, drafts.skip(1));
        } else {
            lemma_accepted_count_nonneg(Some(drafts[0]), drafts.skip(1));
        }
    }
}

/// The most recent entry is (to the deduplicator) the same value as the
/// most recently accepted candidate.
pub open spec fn dup_matches(last_e: Option<EntryModel>, last_d: Option<DraftModel>) -> bool {
    match last_e {
        None => last_d is None,
        Some(e) => last_d matches Some(d) && e.kind == d.kind && e.text == d.text && opt_len(
            e.image,
        ) == opt_len(d.image),
    }
}

/// The store shapes the monitor maintains when every write is accepted
/// through it: nothing pinned, capture timestamps nondecreasing in
/// insertion order, ids strictly increasing and below the next id, and at
/// most `cap` entries.
pub open spec fn run_inv(entries: Seq<EntryModel>, next_id: int, cap: int) -> bool {
    &&& forall|k: int| 0 <= k < entries.len() ==> !(#[trigger] entries[k]).is_pinned
    &&& forall|k: int| 0 <= k < entries.len() ==> (#[trigger] entries[k]).id < next_id
    &&& forall|a: int, b: int|
        0 <= a < b < entries.len() ==> entries[a].id < entries[b].id
    &&& forall|a: int, b: int|
        0 <= a < b < entries.len() ==> entries[a].created_at <= entries[b].created_at
    &&& entries.len() <= cap
}

/// In a non-pinned store ordered oldest-first, later entries rank strictly
/// before earlier ones and never the other way round.
proof fn lemma_rank_of_ordered(s: Seq<EntryModel>, a: int, b: int)
    requires
        forall|k: int| 0 <= k < s.len() ==> !(#[trigger] s[k]).is_pinned,
        forall|x: int, y: int| 0 <= x < y < s.len() ==> s[x].id < s[y].id,
        forall|x: int, y: int| 0 <= x < y < s.len() ==> s[x].created_at <= s[y].created_at,
        0 <= a < b < s.len(),
    ensures
        rank_before(s[b], s[a]),
        !rank_before(s[a], s[b]),
{
}

/// In such a store, the number of entries ranked before `s[i]` among the
/// first `m` is the number of later entries among those.
proof fn lemma_num_ranked_ordered(s: Seq<EntryModel>, i: int, m: int)
    requires
        forall|k: int| 0 <= k < s.len() ==> !(#[trigger] s[k]).is_pinned,
        forall|x: int, y: int| 0 <= x < y < s.len() ==> s[x].id < s[y].id,
        forall|x: int, y: int| 0 <= x < y < s.len() ==> s[x].created_at <= s[y].created_at,
        0 <= i < s.len(),
        0 <= m <= s.len(),
    ensures
        num_ranked_before_upto(s, s[i], m) == if m <= i {
            0int
        } else {
            m - 1 - i
        },
    decreases m,
{
    if m > 0 {
        lemma_num_ranked_ordered(s, i, m - 1);
        if m - 1 < i {
            lemma_rank_of_ordered(s, m - 1, i);
        } else if m - 1 > i {
            lemma_rank_of_ordered(s, i, m - 1);
        }
    }
}

/// In such a store, eviction at cap `cap` keeps exactly the newest
/// `min(len, cap)` entries, in order.
proof fn lemma_survivors_ordered(s: Seq<EntryModel>, cap: int, m: int)
    requires
        cap >= 1,
        forall|k: int| 0 <= k < s.len() ==> !(#[trigger] s[k]).is_pinned,
        forall|x: int, y: int| 0 <= x < y < s.len() ==> s[x].id < s[y].id,
        forall|x: int, y: int| 0 <= x < y < s.len() ==> s[x].created_at <= s[y].created_at,
        0 <= m <= s.len(),
    ensures
        survivors_upto(s, cap, m) == if m <= s.len() - cap {
            Seq::<EntryModel>::empty()
        } else if s.len() - cap >= 0 {
            s.subrange(s.len() - cap, m)
        } else {
            s.subrange(0, m)
        },
    decreases m,
{
    let lo: int = if s.len() - cap >= 0 {
        s.len() - cap
    } else {
        0
    };
    if m > 0 {
        lemma_survivors_ordered(s, cap, m - 1);
        lemma_num_ranked_ordered(s, m - 1, s.len() as int);
        assert(num_ranked_before(s, s[m - 1]) == s.len() - m);
        assert(keeps(s, cap, s[m - 1]) == (m - 1 >= lo));
        if m - 1 >= lo {
            assert(survivors_upto(s, cap, m) =~= s.subrange(lo, m));
        }
    } else {
        assert(survivors_upto(s, cap, 0) =~= Seq::<EntryModel>::empty());
    }
}

/// The length part of the run: processing `drafts` grows the history by
/// the number of accepted candidates, clipped at the cap, and keeps the
/// monitor's store shapes.
proof fn lemma_run_monitor_len(
    entries: Seq<EntryModel>,
    next_id: int,
    drafts: Seq<DraftModel>,
    cap: int,
    last_d: Option<DraftModel>,
)
    requires
        cap >= 1,
        run_inv(entries, next_id, cap),
        dup_matches(last_entry_of(entries), last_d),
        forall|a: int, b: int|
            0 <= a < entries.len() && 0 <= b < drafts.len() ==> entries[a].created_at
                <= drafts[b].created_at,
        forall|a: int, b: int|
            0 <= a < b < drafts.len() ==> drafts[a].created_at <= drafts[b].created_at,
    ensures
        ({
            let (out, _) = run_monitor(entries, next_id, drafts, cap);
            &&& out.len() == min_int(entries.len() + accepted_count(last_d, drafts), cap)
            &&& forall|k: int| 0 <= k < out.len() ==> !(#[trigger] out[k]).is_pinned
        }),
    decreases drafts.len(),
{
    if drafts.len() > 0 {
        let d = drafts[0];
        let rest = drafts.skip(1);
        assert(forall|a: int, b: int|
            0 <= a < b < rest.len() ==> rest[a].created_at <= rest[b].created_at);
        if is_duplicate_model(d, last_entry_of(entries)) {
            assert(last_d matches Some(p) && draft_dup(d, p));
            assert(accepted_count(last_d, drafts) == accepted_count(last_d, rest));
            lemma_run_monitor_len(entries, next_id, rest, cap, last_d);
        } else {
            assert(!(last_d matches Some(p) && draft_dup(d, p)));
            assert(accepted_count(last_d, drafts) == 1 + accepted_count(Some(d), rest));
            let new = entry_of_draft(d, next_id);
            let pushed = entries.push(new);
            assert(forall|k: int| 0 <= k < pushed.len() ==> !(#[trigger] pushed[k]).is_pinned);
            assert(forall|x: int, y: int| 0 <= x < y < pushed.len() ==> pushed[x].id < pushed[y].id);
            assert(forall|x: int, y: int|
                0 <= x < y < pushed.len() ==> pushed[x].created_at <= pushed[y].created_at);
            lemma_survivors_ordered(pushed, cap, pushed.len() as int);
            let after = survivors(pushed, cap);
            let lo: int = if pushed.len() - cap >= 0 {
                pushed.len() - cap
            } else {
                0
            };
            assert(after =~= pushed.subrange(lo, pushed.len() as int));
            assert(after.len() == min_int(entries.len() + 1int, cap));
            assert(after.len() >= 1);
            assert(after.last() == new);
            assert(last_entry_of(after) == Some(new));
            assert(dup_matches(Some(new), Some(d)));
            assert(run_inv(after, next_id + 1, cap)) by {
                assert(forall|k: int|
                    0 <= k < after.len() ==> (#[trigger] after[k]) == pushed[lo + k]);
            }
            assert(forall|a: int, b: int|
                0 <= a < after.len() && 0 <= b < rest.len() ==> after[a].created_at
                    <= rest[b].created_at) by {
                assert(forall|k: int|
                    0 <= k < after.len() ==> (#[trigger] after[k]) == pushed[lo + k]);
            }
            lemma_run_monitor_len(after, next_id + 1, rest, cap, Some(d));
            lemma_accepted_count_nonneg(Some(d), rest);
            assert(min_int(after.len() + accepted_count(Some(d), rest), cap) == min_int(
                entries.len() + accepted_count(last_d, drafts),
                cap,
            ));
        }
    }
}

/// What a committed capture leaves behind, in a non-pinned store ordered
/// oldest-first: the newest `min(len + 1, cap)` entries, the new one last.
proof fn lemma_accept_commits(entries: Seq<EntryModel>, next_id: int, d: DraftModel, cap: int)
    requires
        cap >= 1,
        run_inv(entries, next_id, cap),
        forall|a: int| 0 <= a < entries.len() ==> entries[a].created_at <= d.created_at,
        !is_duplicate_model(d, last_entry_of(entries)),
    ensures
        ({
            let (out, n1) = accept_step(entries, next_id, d, cap);
            &&& out.len() == min_int(entries.len() + 1int, cap)
            &&& n1 == next_id + 1
            &&& out.last() == entry_of_draft(d, next_id)
            &&& run_inv(out, n1, cap)
            &&& forall|k: int|
                0 <= k < out.len() ==> entries.push(entry_of_draft(d, next_id)).contains(
                    #[trigger] out[k],
                )
        }),
{
    let new = entry_of_draft(d, next_id);
    let pushed = entries.push(new);
    lemma_survivors_ordered(pushed, cap, pushed.len() as int);
    let (out, _) = accept_step(entries, next_id, d, cap);
    let lo: int = if pushed.len() - cap >= 0 {
        pushed.len() - cap
    } else {
        0
    };
    assert(out =~= pushed.subrange(lo, pushed.len() as int));
    assert forall|k: int| 0 <= k < out.len() implies pushed.contains(#[trigger] out[k]) by {
        assert(out[k] == pushed[lo + k]);
    }
    assert(run_inv(out, next_id + 1, cap)) by {
        assert(forall|k: int| 0 <= k < out.len() ==> (#[trigger] out[k]) == pushed[lo + k]);
    }
}

/// ADJACENT DUPLICATES COLLAPSE. A candidate the store accepts, followed
/// at once by a second candidate the deduplicator cannot tell from it (for
/// text: the same bytes), yields exactly one new entry: the second
/// candidate changes nothing.
pub proof fn lemma_adjacent_duplicate_rejected(
    entries: Seq<EntryModel>,
    next_id: int,
    d1: DraftModel,
    d2: DraftModel,
    cap: int,
)
    requires
        cap >= 1,
        run_inv(entries, next_id, cap),
        forall|a: int| 0 <= a < entries.len() ==> entries[a].created_at <= d1.created_at,
        !is_duplicate_model(d1, last_entry_of(entries)),
        draft_dup(d2, d1),
    ensures
        ({
            let (e1, n1) = accept_step(entries, next_id, d1, cap);
            &&& e1.len() == min_int(entries.len() + 1int, cap)
            &&& accept_step(e1, n1, d2, cap) == (e1, n1)
        }),
{
    lemma_accept_commits(entries, next_id, d1, cap);
    let (e1, _) = accept_step(entries, next_id, d1, cap);
    assert(last_entry_of(e1) == Some(entry_of_draft(d1, next_id)));
    assert(is_duplicate_model(d2, last_entry_of(e1)));
}

/// A REPEAT WITH A DISTINCT VALUE BETWEEN IS KEPT TWICE. A candidate the
/// store accepts, a second one the deduplicator tells apart from it, and a
/// third equal (to the deduplicator) to the first: with room for three,
/// all three are stored, the repeated value among them twice, under two
/// different ids.
pub proof fn lemma_repeat_after_distinct_stored_twice(
    entries: Seq<EntryModel>,
    next_id: int,
    d1: DraftModel,
    d2: DraftModel,
    d3: DraftModel,
    cap: int,
)
    requires
        cap >= 3,
        run_inv(entries, next_id, cap),
        forall|a: int| 0 <= a < entries.len() ==> entries[a].created_at <= d1.created_at,
        d1.created_at <= d2.created_at <= d3.created_at,
        !is_duplicate_model(d1, last_entry_of(entries)),
        !draft_dup(d2, d1),
        !draft_dup(d3, d2),
        draft_dup(d3, d1),
    ensures
        ({
            let (e1, n1) = accept_step(entries, next_id, d1, cap);
            let (e2, n2) = accept_step(e1, n1, d2, cap);
            let (e3, n3) = accept_step(e2, n2, d3, cap);
            &&& e3.contains(entry_of_draft(d1, next_id))
            &&& e3.contains(entry_of_draft(d3, next_id + 2))
            &&& n3 == next_id + 3
        }),
{
    lemma_accept_commits(entries, next_id, d1, cap);
    let (e1, n1) = accept_step(entries, next_id, d1, cap);
    assert(last_entry_of(e1) == Some(entry_of_draft(d1, next_id)));
    assert(!is_duplicate_model(d2, last_entry_of(e1)));
    lemma_accept_commits(e1, n1, d2, cap);
    let (e2, n2) = accept_step(e1, n1, d2, cap);
    assert(last_entry_of(e2) == Some(entry_of_draft(d2, next_id + 1)));
    assert(!is_duplicate_model(d3, last_entry_of(e2)));
    lemma_accept_commits(e2, n2, d3, cap);
    let (e3, _) = accept_step(e2, n2, d3, cap);
    let x1 = entry_of_draft(d1, next_id);
    let x2 = entry_of_draft(d2, next_id + 1);
    let x3 = entry_of_draft(d3, next_id + 2);
    // The first entry still stands after the second step: with the cap at
    // least three, the second eviction pass keeps at least the last two.
    assert(e2.len() >= 2);
    assert(e2[e2.len() - 2] == x1) by {
        let pushed = e1.push(x2);
        lemma_survivors_ordered(pushed, cap, pushed.len() as int);
        let lo: int = if pushed.len() - cap >= 0 {
            pushed.len() - cap
        } else {
            0
        };
        assert(e2 =~= pushed.subrange(lo, pushed.len() as int));
        assert(e1.last() == x1);
        assert(pushed[pushed.len() - 2] == x1);
        assert(e2[pushed.len() - 2 - lo] == x1);
    }
    // And after the third: the cap keeps at least the last three.
    assert(e3.contains(x1) && e3.contains(x3)) by {
        let pushed = e2.push(x3);
        lemma_survivors_ordered(pushed, cap, pushed.len() as int);
        let lo: int = if pushed.len() - cap >= 0 {
            pushed.len() - cap
        } else {
            0
        };
        assert(e3 =~= pushed.subrange(lo, pushed.len() as int));
        assert(pushed[e2.len() - 2] == x1);
        assert(e3[e2.len() - 2 - lo] == x1);
        assert(pushed[pushed.len() - 1] == x3);
        assert(e3[pushed.len() - 1 - lo] == x3);
    }
}

/// How many entries of `t` are not pinned.
pub open spec fn count_nonpinned(t: Seq<EntryModel>) -> int
    decreases t.len(),
{
    if t.len() == 0 {
        0
    } else {
        count_nonpinned(t.drop_last()) + if t.last().is_pinned {
            0int
        } else {
            1int
        }
    }
}

/// How many of the first `m` entries of `s` are non-pinned and ranked
/// under the cap (the ones an eviction pass keeps besides the pinned).
spec fn count_np_kept_upto(s: Seq<EntryModel>, cap: int, m: int) -> int
    decreases m,
{
    if m <= 0 {
        0
    } else {
        count_np_kept_upto(s, cap, m - 1) + if 0 <= m - 1 < s.len() && !s[m - 1].is_pinned
            && num_ranked_before(s, s[m - 1]) < cap {
            1int
        } else {
            0int
        }
    }
}

/// How many of the first `m` entries of `s` are non-pinned with exactly
/// `v` entries ranked before them.
spec fn count_np_at_rank_upto(s: Seq<EntryModel>, v: int, m: int) -> int
    decreases m,
{
    if m <= 0 {
        0
    } else {
        count_np_at_rank_upto(s, v, m - 1) + if 0 <= m - 1 < s.len() && !s[m - 1].is_pinned
            && num_ranked_before(s, s[m - 1]) == v {
            1int
        } else {
            0int
        }
    }
}

/// No entry is ranked before a negative number of others.
proof fn lemma_num_ranked_nonneg(s: Seq<EntryModel>, e: EntryModel, m: int)
    ensures
        num_ranked_before_upto(s, e, m) >= 0,
    decreases m,
{
    if m > 0 {
        lemma_num_ranked_nonneg(s, e, m - 1);
    }
}

/// The rank count is strictly monotone along the ranking: whatever ranks
/// before `y` and stands in `s` pushes `y`'s count above its own.
proof fn lemma_num_ranked_monotone(s: Seq<EntryModel>, x: EntryModel, y: EntryModel, j: int, m: int)
    requires
        rank_before(x, y),
        0 <= j < s.len(),
        s[j] == x,
        m <= s.len(),
    ensures
        num_ranked_before_upto(s, y, m) >= num_ranked_before_upto(s, x, m) + if j < m {
            1int
        } else {
            0int
        },
    decreases m,
{
    if m > 0 {
        lemma_num_ranked_monotone(s, x, y, j, m - 1);
    }
}

/// A rank witness: when some of the first `m` entries are non-pinned at
/// rank `v`, one of them can be pointed at.
proof fn lemma_np_at_rank_witness(s: Seq<EntryModel>, v: int, m: int)
    requires
        count_np_at_rank_upto(s, v, m) >= 1,
    ensures
        exists|i: int|
            0 <= i < m && i < s.len() && !(#[trigger] s[i]).is_pinned && num_ranked_before(s, s[i])
                == v,
    decreases m,
{
    if m > 0 {
        if !(0 <= m - 1 < s.len() && !s[m - 1].is_pinned && num_ranked_before(s, s[m - 1]) == v) {
            lemma_np_at_rank_witness(s, v, m - 1);
        }
    }
}

/// Entries with distinct ids are totally ordered by rank, so at most one
/// non-pinned entry sits at each rank count.
proof fn lemma_np_at_rank_unique(s: Seq<EntryModel>, v: int, m: int)
    requires
        forall|a: int, b: int| 0 <= a < b < s.len() ==> s[a].id != s[b].id,
        m <= s.len(),
    ensures
        count_np_at_rank_upto(s, v, m) <= 1,
    decreases m,
{
    if m > 0 {
        lemma_np_at_rank_unique(s, v, m - 1);
        if 0 <= m - 1 < s.len() && !s[m - 1].is_pinned && num_ranked_before(s, s[m - 1]) == v
            && count_np_at_rank_upto(s, v, m - 1) >= 1 {
            lemma_np_at_rank_witness(s, v, m - 1);
            let i = choose|i: int|
                0 <= i < m - 1 && i < s.len() && !(#[trigger] s[i]).is_pinned && num_ranked_before(
                    s,
                    s[i],
                ) == v;
            let x = s[i];
            let y = s[m - 1];
            assert(x.id != y.id);
            assert(rank_before(x, y) || rank_before(y, x));
            if rank_before(x, y) {
                lemma_num_ranked_monotone(s, x, y, i, s.len() as int);
            } else {
                lemma_num_ranked_monotone(s, y, x, m - 1, s.len() as int);
            }
            assert(false);
        }
    }
}

/// Splitting the kept count at the top rank: kept under `cap` is kept
/// under `cap - 1` plus those at rank exactly `cap - 1`.
proof fn lemma_count_np_kept_split(s: Seq<EntryModel>, cap: int, m: int)
    ensures
        count_np_kept_upto(s, cap, m) == count_np_kept_upto(s, cap - 1, m) + count_np_at_rank_upto(
            s,
            cap - 1,
            m,
        ),
    decreases m,
{
    if m > 0 {
        lemma_count_np_kept_split(s, cap, m - 1);
    }
}

/// Nothing is kept under a cap of zero.
proof fn lemma_count_np_kept_zero(s: Seq<EntryModel>, m: int)
    ensures
        count_np_kept_upto(s, 0, m) == 0,
    decreases m,
{
    if m > 0 {
        lemma_count_np_kept_zero(s, m - 1);
        if 0 <= m - 1 < s.len() {
            lemma_num_ranked_nonneg(s, s[m - 1], s.len() as int);
        }
    }
}

/// With distinct ids, at most `cap` non-pinned entries are kept: each
/// kept one occupies a distinct rank count below the cap.
proof fn lemma_count_np_kept_bounded(s: Seq<EntryModel>, cap: int)
    requires
        cap >= 0,
        forall|a: int, b: int| 0 <= a < b < s.len() ==> s[a].id != s[b].id,
    ensures
        count_np_kept_upto(s, cap, s.len() as int) <= cap,
    decreases cap,
{
    if cap == 0 {
        lemma_count_np_kept_zero(s, s.len() as int);
    } else {
        lemma_count_np_kept_bounded(s, cap - 1);
        lemma_count_np_kept_split(s, cap, s.len() as int);
        lemma_np_at_rank_unique(s, cap - 1, s.len() as int);
    }
}

/// The non-pinned survivors are exactly the kept-count of the prefix.
proof fn lemma_survivors_np_count(s: Seq<EntryModel>, cap: int, m: int)
    requires
        0 <= m <= s.len(),
    ensures
        count_nonpinned(survivors_upto(s, cap, m)) == count_np_kept_upto(s, cap, m),
    decreases m,
{
    if m > 0 {
        lemma_survivors_np_count(s, cap, m - 1);
        let prev = survivors_upto(s, cap, m - 1);
        if keeps(s, cap, s[m - 1]) {
            assert(prev.push(s[m - 1]).drop_last() =~= prev);
        }
    }
}

/// THE NON-PINNED CAP. However many pinned entries the store holds, an
/// eviction pass keeps at most `cap` non-pinned entries: the non-pinned
/// history length never exceeds the retention cap.
pub proof fn lemma_nonpinned_survivors_bounded(s: Seq<EntryModel>, cap: int)
    requires
        cap >= 0,
        forall|a: int, b: int| 0 <= a < b < s.len() ==> s[a].id != s[b].id,
    ensures
        count_nonpinned(survivors(s, cap)) <= cap,
{
    lemma_survivors_np_count(s, cap, s.len() as int);
    lemma_count_np_kept_bounded(s, cap);
}

/// The non-pinned cap at every insert: what the store's `insert` leaves
/// behind holds at most `retention_cap` non-pinned entries, pinned entries
/// notwithstanding.
pub proof fn lemma_insert_bounds_nonpinned(m: crate::store::StoreModel, d: DraftModel, cap: int)
    requires
        m.wf(),
        cap >= 0,
    ensures
        count_nonpinned(survivors(m.entries.push(entry_of_draft(d, m.next_id)), cap)) <= cap,
{
    let pushed = m.entries.push(entry_of_draft(d, m.next_id));
    assert forall|a: int, b: int| 0 <= a < b < pushed.len() implies pushed[a].id != pushed[b].id by {
        if b < pushed.len() - 1 {
            assert(pushed[a] == m.entries[a]);
            assert(pushed[b] == m.entries[b]);
        } else {
            assert(pushed[a] == m.entries[a]);
            assert(pushed[b].id == m.next_id);
        }
    }
    lemma_nonpinned_survivors_bounded(pushed, cap);
}

/// THE RETENTION LAW. Starting from an empty store, process any sequence
/// of storable clipboard candidates with nondecreasing capture timestamps,
/// with the Suppression Gate never armed (so every one reaches the
/// deduplicator), at any positive retention cap. Then the stored history
/// holds no pinned entries, never exceeds the cap, and its length is
/// exactly the smaller of the cap and the number of candidates the
/// adjacent-duplicate rule accepts.
pub proof fn lemma_history_bounded(drafts: Seq<DraftModel>, cap: int)
    requires
        cap >= 1,
        forall|a: int, b: int|
            0 <= a < b < drafts.len() ==> drafts[a].created_at <= drafts[b].created_at,
    ensures
        ({
            let (entries, _) = run_monitor(Seq::empty(), 1, drafts, cap);
            &&& entries.len() == min_int(accepted_count(None, drafts), cap)
            &&& entries.len() <= cap
            &&& forall|k: int| 0 <= k < entries.len() ==> !(#[trigger] entries[k]).is_pinned
        }),
{
    lemma_run_monitor_len(Seq::empty(), 1, drafts, cap, None);
}

} // verus!
