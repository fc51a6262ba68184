//! Content Store: the bounded collection of history entries plus the single
//! settings record.
//!
//! Entries are kept in insertion order (strictly increasing ids). Every
//! insert runs eviction synchronously: the entries are ranked by
//! (pinned first, then newest `created_at` first, newest id breaking ties),
//! and a non-pinned entry survives only while fewer than the retention cap
//! rank before it. Pinned entries always survive.

use vstd::prelude::*;
use crate::entry::ClipboardEntry;
use crate::entry::EntryDraft;
use crate::entry::EntryModel;
use crate::entry::entry_of_draft;
use crate::settings::Settings;
use crate::settings::SettingsModel;
use crate::settings::default_settings_model;

verus! {

/// Strict ranking of entries for eviction and queries: pinned before
/// non-pinned, then newer `created_at` first, then newer id first. Total
/// over entries with distinct ids.
pub open spec fn rank_before(a: EntryModel, b: EntryModel) -> bool {
    ||| (a.is_pinned && !b.is_pinned)
    ||| (a.is_pinned == b.is_pinned && a.created_at > b.created_at)
    ||| (a.is_pinned == b.is_pinned && a.created_at == b.created_at && a.id > b.id)
}

/// How many of the first `i` entries of `s` rank strictly before `e`.
pub open spec fn num_ranked_before_upto(s: Seq<EntryModel>, e: EntryModel, i: int) -> int
    decreases i,
{
    if i <= 0 {
        0
    } else {
        num_ranked_before_upto(s, e, i - 1) + if 0 <= i - 1 < s.len() && rank_before(
            s[i - 1],
            e,
        ) {
            1int
        } else {
            0int
        }
    }
}

/// How many entries of `s` rank strictly before `e`.
pub open spec fn num_ranked_before(s: Seq<EntryModel>, e: EntryModel) -> int {
    num_ranked_before_upto(s, e, s.len() as int)
}

/// `e` survives an eviction pass over `s` with retention cap `cap`:
/// pinned entries always survive, a non-pinned entry survives only while
/// fewer than `cap` entries rank before it.
pub open spec fn keeps(s: Seq<EntryModel>, cap: int, e: EntryModel) -> bool {
    e.is_pinned || num_ranked_before(s, e) < cap
}

/// The survivors among the first `i` entries of `s`, in their original
/// order.
pub open spec fn survivors_upto(s: Seq<EntryModel>, cap: int, i: int) -> Seq<EntryModel>
    decreases i,
{
    if i <= 0 {
        Seq::empty()
    } else {
        let prev = survivors_upto(s, cap, i - 1);
        if 0 <= i - 1 < s.len() && keeps(s, cap, s[i - 1]) {
            prev.push(s[i - 1])
        } else {
            prev
        }
    }
}

/// The entries of `s` that survive an eviction pass with cap `cap`, in
/// their original order.
pub open spec fn survivors(s: Seq<EntryModel>, cap: int) -> Seq<EntryModel> {
    survivors_upto(s, cap, s.len() as int)
}

/// Pinned entries are exempt from eviction: a pinned entry of `s` is
/// always among the survivors, whatever the retention cap.
pub proof fn lemma_pinned_never_evicted(s: Seq<EntryModel>, cap: int, j: int)
    requires
        0 <= j < s.len(),
        s[j].is_pinned,
    ensures
        survivors(s, cap).contains(s[j]),
{
    lemma_kept_in_survivors_upto(s, cap, j, s.len() as int);
}

/// An entry of `s` that the eviction predicate keeps is among the
/// survivors of every prefix that covers it.
proof fn lemma_kept_in_survivors_upto(s: Seq<EntryModel>, cap: int, j: int, i: int)
    requires
        0 <= j < i <= s.len(),
        keeps(s, cap, s[j]),
    ensures
        survivors_upto(s, cap, i).contains(s[j]),
    decreases i,
{
    if j == i - 1 {
        let prev = survivors_upto(s, cap, i - 1);
        assert(survivors_upto(s, cap, i)[prev.len() as int] == s[j]);
    } else {
        lemma_kept_in_survivors_upto(s, cap, j, i - 1);
        let prev = survivors_upto(s, cap, i - 1);
        let k = choose|k: int| 0 <= k < prev.len() && prev[k] == s[j];
        assert(survivors_upto(s, cap, i)[k] == s[j]);
    }
}

/// Mathematical model of the store.
#[verifier::ext_equal]
pub ghost struct StoreModel {
    /// Stored entries in insertion order (ids strictly increasing).
    pub entries: Seq<EntryModel>,
    /// The single persisted settings record.
    pub settings: SettingsModel,
    /// The id the next insert will assign.
    pub next_id: int,
}

impl StoreModel {
    /// Well-formedness: valid settings, ids positive, strictly increasing
    /// in insertion order and below `next_id`, and every entry well formed.
    pub open spec fn wf(self) -> bool {
        &&& self.settings.wf()
        &&& 1 <= self.next_id <= i64::MAX as int
        &&& forall|i: int| 0 <= i < self.entries.len() ==> (#[trigger] self.entries[i]).wf()
        &&& forall|i: int| 0 <= i < self.entries.len() ==> 1 <= (#[trigger] self.entries[i]).id
            < self.next_id
        &&& forall|i: int, j: int|
            0 <= i < j < self.entries.len() ==> self.entries[i].id < self.entries[j].id
    }
}

/// The bounded collection of history entries plus the settings record.
pub struct ContentStore {
    entries: Vec<ClipboardEntry>,
    settings: Settings,
    next_id: i64,
}

impl View for ContentStore {
    type V = StoreModel;

    closed spec fn view(&self) -> StoreModel {
        StoreModel {
            entries: self.entries.deep_view(),
            settings: self.settings@,
            next_id: self.next_id as int,
        }
    }
}

/// `a` ranks strictly before `b` for eviction and query ordering.
pub fn rank_before_exec(a: &ClipboardEntry, b: &ClipboardEntry) -> (r: bool)
    ensures
        r == rank_before(a@, b@),
{
    (a.is_pinned && !b.is_pinned) || (a.is_pinned == b.is_pinned && a.created_at > b.created_at)
        || (a.is_pinned == b.is_pinned && a.created_at == b.created_at && a.id > b.id)
}

/// Counts the entries that rank strictly before `e`.
fn count_ranked_before(entries: &Vec<ClipboardEntry>, e: &ClipboardEntry) -> (c: usize)
    ensures
        c as int == num_ranked_before(entries.deep_view(), e@),
        c <= entries.len(),
{
    let n = entries.len();
    let mut c: usize = 0;
    let mut j: usize = 0;
    while j < n
        invariant
            n == entries.len(),
            0 <= j <= n,
            c <= j,
            entries.deep_view().len() == n,
            c as int == num_ranked_before_upto(entries.deep_view(), e@, j as int),
        decreases n - j,
    {
        if rank_before_exec(&entries[j], e) {
            c += 1;
        }
        j += 1;
    }
    c
}

impl ContentStore {
    /// A fresh, empty store holding the default settings record: the
    /// in-memory analogue of creating the backing schema and default
    /// settings on first startup.
    pub fn new() -> (store: Self)
        ensures
            store@.wf(),
            store@.entries.len() == 0,
            store@.settings == default_settings_model(),
            store@.next_id == 1,
    {
        let store = ContentStore { entries: Vec::new(), settings: Settings::defaults(), next_id: 1 };
        proof {
            assert(store@.entries =~~= Seq::<EntryModel>::empty());
        }
        store
    }

    /// The settings record currently persisted in the store.
    pub fn settings(&self) -> (s: &Settings)
        ensures
            s@ == self@.settings,
    {
        &self.settings
    }

    /// The id the next insert will assign.
    pub fn next_id(&self) -> (id: i64)
        ensures
            id as int == self@.next_id,
    {
        self.next_id
    }

    /// Read access to the stored entries, in insertion order.
    pub fn entries(&self) -> (entries: &Vec<ClipboardEntry>)
        ensures
            entries.deep_view() == self@.entries,
    {
        &self.entries
    }

    /// The most recently inserted entry still in the store, used as the
    /// sole comparison basis for duplicate suppression.
    pub fn last_entry(&self) -> (r: Option<&ClipboardEntry>)
        ensures
            match r {
                Some(e) => self@.entries.len() > 0 && e@ == self@.entries.last(),
                None => self@.entries.len() == 0,
            },
    {
        let n = self.entries.len();
        if n == 0 {
            None
        } else {
            Some(&self.entries[n - 1])
        }
    }

    /// Persists a new entry: assigns it the next id, appends it, then runs
    /// eviction so that, among the entries ranked by (pinned first, newest
    /// first), every non-pinned entry with `retention_cap` or more entries
    /// before it is deleted. Returns the stored entry (which eviction may
    /// already have removed again if the cap is filled by pinned entries).
    pub fn insert(&mut self, draft: EntryDraft, retention_cap: i64) -> (stored: ClipboardEntry)
        requires
            old(self)@.wf(),
            draft@.wf(),
            retention_cap >= 1,
            old(self)@.next_id < i64::MAX as int,
        ensures
            final(self)@.wf(),
            final(self)@.settings == old(self)@.settings,
            final(self)@.next_id == old(self)@.next_id + 1,
            stored@ == entry_of_draft(draft@, old(self)@.next_id),
            final(self)@.entries == survivors(
                old(self)@.entries.push(stored@),
                retention_cap as int,
            ),
    {
        let id = self.next_id;
        self.next_id = self.next_id + 1;
        let stored = ClipboardEntry {
            id,
            kind: draft.kind,
            text: draft.text,
            image: draft.image,
            source_app: draft.source_app,
            source_path: draft.source_path,
            source_icon: draft.source_icon,
            created_at: draft.created_at,
            is_pinned: false,
            usage_count: 0,
        };
        self.entries.push(stored.clone());
        let ghost s = self.entries.deep_view();
        let ghost cap = retention_cap as int;
        let ghost nid = self.next_id as int;
        proof {
            assert(s =~~= old(self)@.entries.push(stored@));
        }
        let n = self.entries.len();

        let mut flags: Vec<bool> = Vec::new();
        let mut i: usize = 0;
        while i < n
            invariant
                n == self.entries.len(),
                0 <= i <= n,
                self.entries.deep_view() == s,
                s.len() == n,
                retention_cap >= 1,
                cap == retention_cap as int,
                self@.settings == old(self)@.settings,
                self.next_id as int == old(self)@.next_id + 1,
                flags@.len() == i,
                forall|k: int| 0 <= k < i ==> flags@[k] == keeps(s, cap, s[k]),
            decreases n - i,
        {
            let keep = if self.entries[i].is_pinned {
                true
            } else {
                let c = count_ranked_before(&self.entries, &self.entries[i]);
                (c as u64) < (retention_cap as u64)
            };
            flags.push(keep);
            i += 1;
        }

        proof {
            assert(stored@.wf());
            assert forall|j: int| 0 <= j < n implies (#[trigger] s[j]).wf() && 1 <= s[j].id
                < nid by {
                if j < n - 1 {
                    assert(s[j] == old(self)@.entries[j]);
                } else {
                    assert(s[j] == stored@);
                }
            }
            assert forall|j1: int, j2: int| 0 <= j1 < j2 < n implies s[j1].id < s[j2].id by {
                if j2 < n - 1 {
                    assert(s[j1] == old(self)@.entries[j1]);
                    assert(s[j2] == old(self)@.entries[j2]);
                } else {
                    assert(s[j1] == old(self)@.entries[j1]);
                    assert(s[j2] == stored@);
                }
            }
        }
        let mut kept: Vec<ClipboardEntry> = Vec::new();
        let mut i: usize = 0;
        while self.entries.len() > 0
            invariant
                0 <= i <= n,
                i + self.entries.len() == n,
                s.len() == n,
                nid == self.next_id as int,
                self@.settings == old(self)@.settings,
                self.next_id as int == old(self)@.next_id + 1,
                flags@.len() == n,
                forall|k: int| 0 <= k < n ==> flags@[k] == keeps(s, cap, s[k]),
                forall|k: int|
                    0 <= k < self.entries@.len() ==> (#[trigger] self.entries@[k])@ == s[i + k],
                forall|j: int| 0 <= j < n ==> (#[trigger] s[j]).wf(),
                forall|j: int| 0 <= j < n ==> 1 <= (#[trigger] s[j]).id < nid,
                forall|j1: int, j2: int| 0 <= j1 < j2 < n ==> s[j1].id < s[j2].id,
                kept.deep_view() == survivors_upto(s, cap, i as int),
                forall|k: int|
                    0 <= k < kept@.len() ==> (#[trigger] kept@[k])@.wf(),
                forall|k: int| 0 <= k < kept@.len() ==> 1 <= (#[trigger] kept@[k])@.id < nid,
                forall|k1: int, k2: int|
                    0 <= k1 < k2 < kept@.len() ==> kept@[k1]@.id < kept@[k2]@.id,
                kept@.len() > 0 && i > 0 ==> kept@[kept@.len() - 1]@.id <= s[i - 1].id,
            decreases self.entries.len(),
        {
            let e = self.entries.remove(0);
            proof {
                assert(e@ == s[i as int]);
            }
            if flags[i] {
                kept.push(e);
                proof {
                    assert(kept.deep_view() =~~= survivors_upto(s, cap, i + 1));
                }
            } else {
                proof {
                    assert(kept.deep_view() =~~= survivors_upto(s, cap, i + 1));
                }
            }
            i += 1;
        }
        self.entries = kept;
        proof {
            assert(self@.entries =~~= survivors(s, cap));
        }
        stored
    }

    /// Restores one persisted entry at startup, keeping its id, pin and
    /// usage state. Rows must arrive in increasing id order; the next
    /// insert continues above the restored id.
    pub fn restore(&mut self, entry: ClipboardEntry)
        requires
            old(self)@.wf(),
            entry@.wf(),
            1 <= entry@.id,
            old(self)@.next_id <= entry@.id,
            entry@.id < i64::MAX as int,
        ensures
            final(self)@.wf(),
            final(self)@.settings == old(self)@.settings,
            final(self)@.entries == old(self)@.entries.push(entry@),
            final(self)@.next_id == entry@.id + 1,
    {
        self.next_id = entry.id + 1;
        let ghost restored = entry@;
        self.entries.push(entry);
        proof {
            assert(self.entries.deep_view() =~~= old(self)@.entries.push(restored));
        }
    }

    /// Deletes the entry with the given id; a no-op when no entry has it.
    pub fn delete(&mut self, id: i64)
        requires
            old(self)@.wf(),
        ensures
            final(self)@.wf(),
            final(self)@.settings == old(self)@.settings,
            final(self)@.next_id == old(self)@.next_id,
            (forall|k: int|
                0 <= k < old(self)@.entries.len() ==> old(self)@.entries[k].id != id as int)
                ==> final(self)@.entries == old(self)@.entries,
            forall|k: int|
                0 <= k < old(self)@.entries.len() && old(self)@.entries[k].id == id as int
                    ==> final(self)@.entries == old(self)@.entries.remove(k),
    {
        let n = self.entries.len();
        let mut i: usize = 0;
        while i < n
            invariant
                n == self.entries.len(),
                0 <= i <= n,
                self == old(self),
                old(self)@.wf(),
                forall|k: int| 0 <= k < i ==> self@.entries[k].id != id as int,
            decreases n - i,
        {
            if self.entries[i].id == id {
                proof {
                    assert(old(self)@.entries[i as int].id == id as int);
                }
                self.entries.remove(i);
                proof {
                    assert(self.entries.deep_view() =~~= old(self)@.entries.remove(i as int));
                    assert forall|k: int|
                        0 <= k < old(self)@.entries.len() && old(self)@.entries[k].id
                            == id as int implies self@.entries == old(
                        self,
                    )@.entries.remove(k) by {
                        if k < i as int {
                            assert(old(self)@.entries[k].id < old(self)@.entries[i as int].id);
                        } else if k > i as int {
                            assert(old(self)@.entries[i as int].id < old(self)@.entries[k].id);
                        }
                        assert(k == i as int);
                    }
                }
                return ;
            }
            i += 1;
        }
    }

    /// Flips the pinned flag of the entry with the given id; a no-op when
    /// no entry has it.
    pub fn set_pinned_toggle(&mut self, id: i64)
        requires
            old(self)@.wf(),
        ensures
            final(self)@.wf(),
            final(self)@.settings == old(self)@.settings,
            final(self)@.next_id == old(self)@.next_id,
            (forall|k: int|
                0 <= k < old(self)@.entries.len() ==> old(self)@.entries[k].id != id as int)
                ==> final(self)@.entries == old(self)@.entries,
            forall|k: int|
                0 <= k < old(self)@.entries.len() && old(self)@.entries[k].id == id as int
                    ==> final(self)@.entries == old(self)@.entries.update(
                    k,
                    pin_toggled(old(self)@.entries[k]),
                ),
    {
        let n = self.entries.len();
        let mut i: usize = 0;
        while i < n
            invariant
                n == self.entries.len(),
                0 <= i <= n,
                self == old(self),
                old(self)@.wf(),
                forall|k: int| 0 <= k < i ==> self@.entries[k].id != id as int,
            decreases n - i,
        {
            if self.entries[i].id == id {
                let mut e = self.entries.remove(i);
                e.is_pinned = !e.is_pinned;
                self.entries.insert(i, e);
                proof {
                    assert(self.entries.deep_view() =~~= old(self)@.entries.update(
                        i as int,
                        pin_toggled(old(self)@.entries[i as int]),
                    ));
                    assert forall|k: int|
                        0 <= k < old(self)@.entries.len() && old(self)@.entries[k].id
                            == id as int implies self@.entries == old(
                        self,
                    )@.entries.update(k, pin_toggled(old(self)@.entries[k])) by {
                        assert(k == i as int);
                    }
                }
                return ;
            }
            i += 1;
        }
    }

    /// Adds one use to the entry with the given id (saturating at the
    /// counter's top); a no-op when no entry has it.
    pub fn increment_usage(&mut self, id: i64)
        requires
            old(self)@.wf(),
        ensures
            final(self)@.wf(),
            final(self)@.settings == old(self)@.settings,
            final(self)@.next_id == old(self)@.next_id,
            (forall|k: int|
                0 <= k < old(self)@.entries.len() ==> old(self)@.entries[k].id != id as int)
                ==> final(self)@.entries == old(self)@.entries,
            forall|k: int|
                0 <= k < old(self)@.entries.len() && old(self)@.entries[k].id == id as int
                    ==> final(self)@.entries == old(self)@.entries.update(
                    k,
                    usage_bumped(old(self)@.entries[k]),
                ),
    {
        let n = self.entries.len();
        let mut i: usize = 0;
        while i < n
            invariant
                n == self.entries.len(),
                0 <= i <= n,
                self == old(self),
                old(self)@.wf(),
                forall|k: int| 0 <= k < i ==> self@.entries[k].id != id as int,
            decreases n - i,
        {
            if self.entries[i].id == id {
                let mut e = self.entries.remove(i);
                if e.usage_count < i64::MAX {
                    e.usage_count = e.usage_count + 1;
                }
                self.entries.insert(i, e);
                proof {
                    assert(self.entries.deep_view() =~~= old(self)@.entries.update(
                        i as int,
                        usage_bumped(old(self)@.entries[i as int]),
                    ));
                    assert forall|k: int|
                        0 <= k < old(self)@.entries.len() && old(self)@.entries[k].id
                            == id as int implies self@.entries == old(
                        self,
                    )@.entries.update(k, usage_bumped(old(self)@.entries[k])) by {
                        assert(k == i as int);
                    }
                }
                return ;
            }
            i += 1;
        }
    }

    /// Loads the settings record, forcing image recording on; when the
    /// stored record had it off, the forced value is persisted back.
    pub fn load_settings(&mut self) -> (s: Settings)
        requires
            old(self)@.wf(),
        ensures
            final(self)@.wf(),
            final(self)@.entries == old(self)@.entries,
            final(self)@.next_id == old(self)@.next_id,
            final(self)@.settings == forced_images(old(self)@.settings),
            s@ == forced_images(old(self)@.settings),
    {
        if !self.settings.record_images {
            self.settings.record_images = true;
        }
        self.settings.clone()
    }

    /// Persists a settings record under the single fixed key, forcing
    /// image recording on.
    pub fn save_settings(&mut self, s: &Settings)
        requires
            old(self)@.wf(),
            s@.wf(),
        ensures
            final(self)@.wf(),
            final(self)@.entries == old(self)@.entries,
            final(self)@.next_id == old(self)@.next_id,
            final(self)@.settings == forced_images(s@),
    {
        let mut stored = s.clone();
        stored.record_images = true;
        self.settings = stored;
    }
}

/// `e` with its pinned flag flipped.
pub open spec fn pin_toggled(e: EntryModel) -> EntryModel {
    EntryModel { is_pinned: !e.is_pinned, ..e }
}

/// `e` with one more use, saturating at the counter's top.
pub open spec fn usage_bumped(e: EntryModel) -> EntryModel {
    EntryModel {
        usage_count: if e.usage_count < i64::MAX as int {
            e.usage_count + 1
        } else {
            e.usage_count
        },
        ..e
    }
}

/// `m` with image recording forced on.
pub open spec fn forced_images(m: SettingsModel) -> SettingsModel {
    SettingsModel { record_images: true, ..m }
}

} // verus!
