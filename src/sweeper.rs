//! The expiry sweeper: removes expired pastes and reconciles entries whose
//! counterpart in the other store is missing.
use vstd::prelude::*;

use crate::clock::now_secs;
use crate::models::{expiry, is_expired};
use crate::store::{text_views, PasteStore, StoreView};

verus! {

/// The sweep at `now` removes the row of `id`: its content is gone, or it expired.
pub open spec fn drops_meta(s: StoreView, id: Seq<char>, now: i64) -> bool {
    s.meta.contains_key(id) && (!s.content.contains_key(id) || is_expired(s.meta[id], now))
}

/// The sweep at `now` removes the content of `id`: its paste expired, or it
/// has no row and was written more than `orphan_ttl` seconds ago.
pub open spec fn drops_content(s: StoreView, id: Seq<char>, now: i64, orphan_ttl: i64) -> bool {
    &&& s.content.contains_key(id)
    &&& if s.meta.contains_key(id) {
        is_expired(s.meta[id], now)
    } else {
        now > s.content[id].stored_at + orphan_ttl
    }
}

/// The stores after one sweep at `now`.
pub open spec fn sweep_spec(s: StoreView, now: i64, orphan_ttl: i64) -> StoreView {
    StoreView {
        content: s.content.remove_keys(Set::new(|k: Seq<char>| drops_content(s, k, now, orphan_ttl))),
        meta: s.meta.remove_keys(Set::new(|k: Seq<char>| drops_meta(s, k, now))),
        removed: s.removed,
    }
}

/// The first `i` entries of `ids`, with `ids[i]` after them.
proof fn lemma_prefix_step(ids: Seq<Seq<char>>, i: int)
    requires
        0 <= i < ids.len(),
        ids.no_duplicates(),
    ensures
        !ids.subrange(0, i).contains(ids[i]),
        forall|k: Seq<char>| #[trigger] ids.subrange(0, i + 1).contains(k)
            <==> (ids.subrange(0, i).contains(k) || k == ids[i]),
{
    let pre = ids.subrange(0, i);
    let next = ids.subrange(0, i + 1);
    assert(next =~= pre.push(ids[i]));
    if pre.contains(ids[i]) {
        let j = choose|j: int| 0 <= j < pre.len() && pre[j] == ids[i];
        assert(ids[j] == ids[i]);
    }
    assert forall|k: Seq<char>| #[trigger] next.contains(k) <==> (pre.contains(k) || k == ids[i]) by {
        if next.contains(k) {
            let j = choose|j: int| 0 <= j < next.len() && next[j] == k;
            if j < i {
                assert(pre[j] == k);
            }
        }
        if pre.contains(k) {
            let j = choose|j: int| 0 <= j < pre.len() && pre[j] == k;
            assert(next[j] == k);
        }
        if k == ids[i] {
            assert(next[i] == k);
        }
    }
}

/// Appending a string adds its view to the views.
proof fn lemma_push_view(v: Seq<String>, t: String)
    ensures
        forall|k: Seq<char>| #[trigger] text_views(v.push(t)).contains(k)
            <==> (text_views(v).contains(k) || k == t@),
        text_views(v).no_duplicates() && !text_views(v).contains(t@) ==> text_views(
            v.push(t),
        ).no_duplicates(),
{
    let before = text_views(v);
    let after = text_views(v.push(t));
    assert(after =~= before.push(t@));
    if before.no_duplicates() && !before.contains(t@) {
        assert forall|a: int, b: int| 0 <= a < after.len() && 0 <= b < after.len() && a != b
            implies after[a] != after[b] by {
            if a == before.len() {
                assert(before[b] == after[b]);
            } else if b == before.len() {
                assert(before[a] == after[a]);
            }
        }
    }
    assert forall|k: Seq<char>| #[trigger] after.contains(k) <==> (before.contains(k) || k == t@) by {
        if after.contains(k) {
            let j = choose|j: int| 0 <= j < after.len() && after[j] == k;
            if j < before.len() {
                assert(before[j] == k);
            }
        }
        if before.contains(k) {
            let j = choose|j: int| 0 <= j < before.len() && before[j] == k;
            assert(after[j] == k);
        }
        if k == t@ {
            assert(after[before.len() as int] == k);
        }
    }
}

/// What one step of a sweep did to a row.
#[derive(Debug, Clone, Copy, PartialEq, Eq, Structural)]
pub enum RowOutcome {
    /// Left as it was, or already gone.
    Kept,
    /// Expired: row and content removed.
    Expired,
    /// Its content was gone: row removed.
    Zombie,
}

/// The stores after the row of `id` was examined at `now`, and what was done.
pub open spec fn sweep_row_spec(s: StoreView, id: Seq<char>, now: i64) -> (StoreView, RowOutcome) {
    if !s.meta.contains_key(id) {
        (s, RowOutcome::Kept)
    } else if !s.content.contains_key(id) {
        (StoreView { meta: s.meta.remove(id), ..s }, RowOutcome::Zombie)
    } else if is_expired(s.meta[id], now) {
        (StoreView { meta: s.meta.remove(id), content: s.content.remove(id), ..s }, RowOutcome::Expired)
    } else {
        (s, RowOutcome::Kept)
    }
}

/// What one sweep removed, for the log.
pub struct SweepReport {
    /// Pastes that expired: row and content removed.
    pub expired: Vec<String>,
    /// Rows whose content was gone: row removed.
    pub zombies: Vec<String>,
    /// Content without a row that aged out: content removed.
    pub orphans: Vec<String>,
}

/// Runs the sweep on a fixed interval.
pub struct Sweeper {
    interval_secs: u64,
    orphan_ttl: i64,
}

impl Sweeper {
    pub closed spec fn interval_spec(&self) -> u64 {
        self.interval_secs
    }

    pub closed spec fn orphan_ttl_spec(&self) -> i64 {
        self.orphan_ttl
    }

    /// A sweeper that runs every `interval_secs` seconds and removes content
    /// without a row once it is `orphan_ttl` seconds old.
    pub fn new(interval_secs: u64, orphan_ttl: i64) -> (r: Sweeper)
        ensures
            r.interval_spec() == interval_secs,
            r.orphan_ttl_spec() == orphan_ttl,
    {
        Sweeper { interval_secs, orphan_ttl }
    }

    /// Seconds between two sweeps.
    pub fn interval_secs(&self) -> (r: u64)
        ensures
            r == self.interval_spec(),
    {
        self.interval_secs
    }

    /// One step of a sweep, for a caller that walks a snapshot of the rows
    /// itself: examines the row of `id` at `now`. A row already gone is no error.
    pub fn sweep_row(&self, store: &mut PasteStore, id: &str, now: i64) -> (r: RowOutcome)
        requires
            old(store).wf(),
        ensures
            final(store).wf(),
            (final(store)@, r) == sweep_row_spec(old(store)@, id@, now),
    {
        let (has_content, expired) = match store.meta.find_by_id(id) {
            Some(m) => (
                store.content.contains(id),
                (now as i128) > (m.created as i128) + (m.ttl as i128),
            ),
            None => return RowOutcome::Kept,
        };
        if !has_content {
            store.meta.delete_by_id(id);
            RowOutcome::Zombie
        } else if expired {
            store.content.delete(id);
            store.meta.delete_by_id(id);
            RowOutcome::Expired
        } else {
            RowOutcome::Kept
        }
    }

    /// One step of the orphan pass, for a caller that walks a snapshot of the
    /// content itself: removes the content of `id` if it has no row and was
    /// written more than `orphan_ttl` seconds before `now`.
    pub fn sweep_orphan(&self, store: &mut PasteStore, id: &str, now: i64) -> (r: bool)
        requires
            old(store).wf(),
        ensures
            final(store).wf(),
            r == (old(store)@.content.contains_key(id@) && !old(store)@.meta.contains_key(id@)
                && now > old(store)@.content[id@].stored_at + self.orphan_ttl_spec()),
            final(store)@ == (if r {
                StoreView { content: old(store)@.content.remove(id@), ..old(store)@ }
            } else {
                old(store)@
            }),
    {
        if store.meta.find_by_id(id).is_some() {
            return false;
        }
        let old_enough = match store.content.stored_at(id) {
            Some(t) => (now as i128) > (t as i128) + (self.orphan_ttl as i128),
            None => false,
        };
        if old_enough {
            store.content.delete(id);
        }
        old_enough
    }

    /// Removes the row of every paste whose content is gone, and both the row
    /// and the content of every paste that expired, over a snapshot of the rows.
    fn sweep_rows(&self, store: &mut PasteStore, now: i64) -> (r: (Vec<String>, Vec<String>))
        requires
            old(store).wf(),
        ensures
            final(store).wf(),
            final(store)@.removed == old(store)@.removed,
            text_views(r.0@).no_duplicates(),
            text_views(r.1@).no_duplicates(),
            forall|k: Seq<char>| #[trigger] text_views(r.0@).contains(k) <==> (
                old(store)@.meta.contains_key(k) && old(store)@.content.contains_key(k)
                && is_expired(old(store)@.meta[k], now)),
            forall|k: Seq<char>| #[trigger] text_views(r.1@).contains(k) <==> (
                old(store)@.meta.contains_key(k) && !old(store)@.content.contains_key(k)),
            final(store)@.meta =~= old(store)@.meta.remove_keys(
                Set::new(|k: Seq<char>| drops_meta(old(store)@, k, now)),
            ),
            forall|k: Seq<char>| #[trigger] final(store)@.content.contains_key(k)
                <==> (old(store)@.content.contains_key(k) && !(old(store)@.meta.contains_key(k)
                && is_expired(old(store)@.meta[k], now))),
            forall|k: Seq<char>| #[trigger] final(store)@.content.contains_key(k)
                ==> final(store)@.content[k] == old(store)@.content[k],
    {
        let ghost s0 = store@;
        let ids = store.meta.list_all();
        let ghost views = text_views(ids@);
        let mut expired_ids: Vec<String> = Vec::new();
        let mut zombie_ids: Vec<String> = Vec::new();
        let mut i: usize = 0;
        assert(text_views(expired_ids@) =~= Seq::<Seq<char>>::empty());
        assert(text_views(zombie_ids@) =~= Seq::<Seq<char>>::empty());
        while i < ids.len()
            invariant
                store.wf(),
                store@.removed == s0.removed,
                i <= ids@.len(),
                views == text_views(ids@),
                views.no_duplicates(),
                forall|k: Seq<char>| #[trigger] s0.meta.contains_key(k) <==> views.contains(k),
                text_views(expired_ids@).no_duplicates(),
                text_views(zombie_ids@).no_duplicates(),
                forall|k: Seq<char>| #[trigger] text_views(expired_ids@).contains(k) <==> (
                    views.subrange(0, i as int).contains(k) && s0.content.contains_key(k)
                    && is_expired(s0.meta[k], now)),
                forall|k: Seq<char>| #[trigger] text_views(zombie_ids@).contains(k) <==> (
                    views.subrange(0, i as int).contains(k) && !s0.content.contains_key(k)),
                forall|k: Seq<char>| #[trigger] store@.meta.contains_key(k)
                    <==> (s0.meta.contains_key(k) && !(views.subrange(0, i as int).contains(k)
                    && drops_meta(s0, k, now))),
                forall|k: Seq<char>| #[trigger] store@.meta.contains_key(k)
                    ==> store@.meta[k] == s0.meta[k],
                forall|k: Seq<char>| #[trigger] store@.content.contains_key(k)
                    <==> (s0.content.contains_key(k) && !(views.subrange(0, i as int).contains(k)
                    && s0.meta.contains_key(k) && is_expired(s0.meta[k], now))),
                forall|k: Seq<char>| #[trigger] store@.content.contains_key(k)
                    ==> store@.content[k] == s0.content[k],
            decreases ids@.len() - i,
        {
            let id = ids[i].as_str();
            let ghost before = store@;
            proof {
                lemma_prefix_step(views, i as int);
                assert(views[i as int] == id@);
                assert(views.contains(id@));
                assert(store@.content.contains_key(id@) == s0.content.contains_key(id@));
            }
            let (has_content, expired) = match store.meta.find_by_id(id) {
                Some(m) => (
                    store.content.contains(id),
                    (now as i128) > (m.created as i128) + (m.ttl as i128),
                ),
                None => (true, false),
            };
            let ghost expired_before = expired_ids@;
            let ghost zombies_before = zombie_ids@;
            assert(!text_views(expired_before).contains(id@));
            assert(!text_views(zombies_before).contains(id@));
            if !has_content {
                store.meta.delete_by_id(id);
                zombie_ids.push(ids[i].clone());
                proof {
                    lemma_push_view(zombies_before, ids@[i as int]);
                }
            } else if expired {
                store.content.delete(id);
                store.meta.delete_by_id(id);
                expired_ids.push(ids[i].clone());
                proof {
                    lemma_push_view(expired_before, ids@[i as int]);
                }
            }
            proof {
                let done = views.subrange(0, i + 1);
                assert(before.meta.contains_key(id@));
                assert(has_content == s0.content.contains_key(id@));
                assert(expired == is_expired(s0.meta[id@], now));
                assert forall|k: Seq<char>| #[trigger] store@.meta.contains_key(k)
                    <==> (s0.meta.contains_key(k) && !(done.contains(k) && drops_meta(s0, k, now))) by {
                    if k != id@ {
                        assert(store@.meta.contains_key(k) == before.meta.contains_key(k));
                    }
                }
                assert forall|k: Seq<char>| #[trigger] store@.meta.contains_key(k)
                    implies store@.meta[k] == s0.meta[k] by {
                    assert(before.meta.contains_key(k));
                }
                assert forall|k: Seq<char>| #[trigger] store@.content.contains_key(k)
                    <==> (s0.content.contains_key(k) && !(done.contains(k) && s0.meta.contains_key(k)
                    && is_expired(s0.meta[k], now))) by {
                    if k != id@ {
                        assert(store@.content.contains_key(k) == before.content.contains_key(k));
                    }
                }
                assert forall|k: Seq<char>| #[trigger] store@.content.contains_key(k)
                    implies store@.content[k] == s0.content[k] by {
                    assert(before.content.contains_key(k));
                }
                assert forall|k: Seq<char>| #[trigger] text_views(expired_ids@).contains(k) <==> (
                    done.contains(k) && s0.content.contains_key(k) && is_expired(s0.meta[k], now)) by {
                    if k != id@ && !(has_content && expired) {
                        assert(text_views(expired_ids@).contains(k) == text_views(expired_before).contains(k));
                    }
                }
                assert forall|k: Seq<char>| #[trigger] text_views(zombie_ids@).contains(k) <==> (
                    done.contains(k) && !s0.content.contains_key(k)) by {
                    if k != id@ && has_content {
                        assert(text_views(zombie_ids@).contains(k) == text_views(zombies_before).contains(k));
                    }
                }
            }
            i = i + 1;
        }
        proof {
            assert(views.subrange(0, ids@.len() as int) =~= views);
        }
        (expired_ids, zombie_ids)
    }

    /// Removes content that has no row and was written more than
    /// `orphan_ttl` seconds before `now`, over a snapshot of the content.
    fn sweep_orphans(&self, store: &mut PasteStore, now: i64) -> (r: Vec<String>)
        requires
            old(store).wf(),
        ensures
            final(store).wf(),
            final(store)@.removed == old(store)@.removed,
            text_views(r@).no_duplicates(),
            forall|k: Seq<char>| #[trigger] text_views(r@).contains(k) <==> (
                old(store)@.content.contains_key(k) && !old(store)@.meta.contains_key(k)
                && now > old(store)@.content[k].stored_at + self.orphan_ttl_spec()),
            final(store)@.meta == old(store)@.meta,
            final(store)@.content =~= old(store)@.content.remove_keys(
                Set::new(|k: Seq<char>| old(store)@.content.contains_key(k)
                    && !old(store)@.meta.contains_key(k)
                    && now > old(store)@.content[k].stored_at + self.orphan_ttl_spec()),
            ),
    {
        let ghost s0 = store@;
        let ids = store.content.ids();
        let ghost views = text_views(ids@);
        let mut orphan_ids: Vec<String> = Vec::new();
        let mut i: usize = 0;
        assert(text_views(orphan_ids@) =~= Seq::<Seq<char>>::empty());
        while i < ids.len()
            invariant
                store.wf(),
                store@.removed == s0.removed,
                i <= ids@.len(),
                views == text_views(ids@),
                views.no_duplicates(),
                forall|k: Seq<char>| #[trigger] s0.content.contains_key(k) <==> views.contains(k),
                text_views(orphan_ids@).no_duplicates(),
                forall|k: Seq<char>| #[trigger] text_views(orphan_ids@).contains(k) <==> (
                    views.subrange(0, i as int).contains(k) && !s0.meta.contains_key(k)
                    && now > s0.content[k].stored_at + self.orphan_ttl_spec()),
                store@.meta == s0.meta,
                forall|k: Seq<char>| #[trigger] store@.content.contains_key(k)
                    <==> (s0.content.contains_key(k) && !(views.subrange(0, i as int).contains(k)
                    && !s0.meta.contains_key(k) && now > s0.content[k].stored_at
                    + self.orphan_ttl_spec())),
                forall|k: Seq<char>| #[trigger] store@.content.contains_key(k)
                    ==> store@.content[k] == s0.content[k],
            decreases ids@.len() - i,
        {
            let id = ids[i].as_str();
            let ghost before = store@;
            proof {
                lemma_prefix_step(views, i as int);
                assert(views[i as int] == id@);
                assert(views.contains(id@));
            }
            let ghost orphans_before = orphan_ids@;
            assert(!text_views(orphans_before).contains(id@));
            let mut removed = false;
            if store.meta.find_by_id(id).is_none() {
                let old_enough = match store.content.stored_at(id) {
                    Some(t) => (now as i128) > (t as i128) + (self.orphan_ttl as i128),
                    None => false,
                };
                if old_enough {
                    store.content.delete(id);
                    orphan_ids.push(ids[i].clone());
                    removed = true;
                    proof {
                        lemma_push_view(orphans_before, ids@[i as int]);
                    }
                }
            }
            proof {
                let done = views.subrange(0, i + 1);
                assert(before.content.contains_key(id@));
                assert(removed == (!s0.meta.contains_key(id@)
                    && now > s0.content[id@].stored_at + self.orphan_ttl_spec()));
                assert forall|k: Seq<char>| #[trigger] text_views(orphan_ids@).contains(k) <==> (
                    done.contains(k) && !s0.meta.contains_key(k)
                    && now > s0.content[k].stored_at + self.orphan_ttl_spec()) by {
                    if k != id@ && !removed {
                        assert(text_views(orphan_ids@).contains(k) == text_views(orphans_before).contains(k));
                    }
                }
                assert forall|k: Seq<char>| #[trigger] store@.content.contains_key(k)
                    <==> (s0.content.contains_key(k) && !(done.contains(k) && !s0.meta.contains_key(k)
                    && now > s0.content[k].stored_at + self.orphan_ttl_spec())) by {
                    if k != id@ {
                        assert(store@.content.contains_key(k) == before.content.contains_key(k));
                    }
                }
                assert forall|k: Seq<char>| #[trigger] store@.content.contains_key(k)
                    implies store@.content[k] == s0.content[k] by {
                    assert(before.content.contains_key(k));
                }
            }
            i = i + 1;
        }
        proof {
            assert(views.subrange(0, ids@.len() as int) =~= views);
        }
        orphan_ids
    }

    /// One sweep at time `now`: rows whose content is gone are removed
    /// whatever their age; expired pastes lose row and content; content
    /// without a row ages out from the time it was written.
    pub fn run_cycle(&self, store: &mut PasteStore, now: i64) -> (r: SweepReport)
        requires
            old(store).wf(),
        ensures
            final(store).wf(),
            final(store)@ == sweep_spec(old(store)@, now, self.orphan_ttl_spec()),
            text_views(r.expired@).no_duplicates(),
            text_views(r.zombies@).no_duplicates(),
            text_views(r.orphans@).no_duplicates(),
            forall|k: Seq<char>| #[trigger] text_views(r.expired@).contains(k) <==> (
                old(store)@.meta.contains_key(k) && old(store)@.content.contains_key(k)
                && is_expired(old(store)@.meta[k], now)),
            forall|k: Seq<char>| #[trigger] text_views(r.zombies@).contains(k) <==> (
                old(store)@.meta.contains_key(k) && !old(store)@.content.contains_key(k)),
            forall|k: Seq<char>| #[trigger] text_views(r.orphans@).contains(k) <==> (
                old(store)@.content.contains_key(k) && !old(store)@.meta.contains_key(k)
                && now > old(store)@.content[k].stored_at + self.orphan_ttl_spec()),
    {
        let ghost s0 = store@;
        let (expired, zombies) = self.sweep_rows(store, now);
        let ghost s1 = store@;
        let orphans = self.sweep_orphans(store, now);
        proof {
            let s = sweep_spec(s0, now, self.orphan_ttl_spec());
            assert(store@.meta =~= s.meta);
            assert(store@.content =~= s.content);
            assert(store@.removed == s.removed);
            assert forall|k: Seq<char>| #[trigger] text_views(orphans@).contains(k) <==> (
                s0.content.contains_key(k) && !s0.meta.contains_key(k)
                && now > s0.content[k].stored_at + self.orphan_ttl_spec()) by {
                if s1.content.contains_key(k) {
                    assert(s1.content[k] == s0.content[k]);
                }
                if s0.content.contains_key(k) && !s0.meta.contains_key(k) {
                    assert(s1.content.contains_key(k));
                }
            }
        }
        SweepReport { expired, zombies, orphans }
    }

    /// One sweep at the current time.
    pub fn run_cycle_now(&self, store: &mut PasteStore) -> (r: SweepReport)
        requires
            old(store).wf(),
        ensures
            final(store).wf(),
            exists|now: i64| #![trigger sweep_spec(old(store)@, now, self.orphan_ttl_spec())] {
                &&& final(store)@ == sweep_spec(old(store)@, now, self.orphan_ttl_spec())
                &&& text_views(r.expired@).no_duplicates()
                &&& text_views(r.zombies@).no_duplicates()
                &&& text_views(r.orphans@).no_duplicates()
                &&& forall|k: Seq<char>| #[trigger] text_views(r.expired@).contains(k) <==> (
                    old(store)@.meta.contains_key(k) && old(store)@.content.contains_key(k)
                    && is_expired(old(store)@.meta[k], now))
                &&& forall|k: Seq<char>| #[trigger] text_views(r.zombies@).contains(k) <==> (
                    old(store)@.meta.contains_key(k) && !old(store)@.content.contains_key(k))
                &&& forall|k: Seq<char>| #[trigger] text_views(r.orphans@).contains(k) <==> (
                    old(store)@.content.contains_key(k) && !old(store)@.meta.contains_key(k)
                    && now > old(store)@.content[k].stored_at + self.orphan_ttl_spec())
            },
    {
        let now = now_secs();
        self.run_cycle(store, now)
    }
}

/// A paste past its expiry at `now` loses its row and its content in one sweep.
pub proof fn lemma_sweep_removes_expired(s: StoreView, id: Seq<char>, now: i64, orphan_ttl: i64)
    requires
        s.meta.contains_key(id),
        expiry(s.meta[id].created, s.meta[id].ttl) < now,
    ensures
        !sweep_spec(s, now, orphan_ttl).meta.contains_key(id),
        !sweep_spec(s, now, orphan_ttl).content.contains_key(id),
{
}

/// A paste with both row and content that has not expired at `now` is left
/// as it is by a sweep.
pub proof fn lemma_sweep_keeps_unexpired(s: StoreView, id: Seq<char>, now: i64, orphan_ttl: i64)
    requires
        s.meta.contains_key(id),
        s.content.contains_key(id),
        expiry(s.meta[id].created, s.meta[id].ttl) >= now,
    ensures
        sweep_spec(s, now, orphan_ttl).meta.contains_key(id),
        sweep_spec(s, now, orphan_ttl).meta[id] == s.meta[id],
        sweep_spec(s, now, orphan_ttl).content.contains_key(id),
        sweep_spec(s, now, orphan_ttl).content[id] == s.content[id],
{
}

/// A row whose content is gone is removed by one sweep, however young it is.
pub proof fn lemma_sweep_removes_row_without_content(
    s: StoreView,
    id: Seq<char>,
    now: i64,
    orphan_ttl: i64,
)
    requires
        s.meta.contains_key(id),
        !s.content.contains_key(id),
    ensures
        !sweep_spec(s, now, orphan_ttl).meta.contains_key(id),
{
}

} // verus!
