//! The two stores a paste lives in: content by identifier, and metadata by
//! identifier. Each keeps its entries in a hash map and, beside it, the list of
//! identifiers it holds, so that a sweep can take a snapshot of them.
use vstd::hash_map::StringHashMap;
use vstd::prelude::*;

use crate::models::{Paste, PasteMeta, PasteView, StoredContent};
use crate::error::PasteError;
use crate::text::same_text;

verus! {

/// The views of a sequence of strings.
pub open spec fn text_views(s: Seq<String>) -> Seq<Seq<char>> {
    s.map_values(|t: String| t@)
}

/// `ids` lists each key of `m` exactly once, and nothing else.
pub open spec fn lists_keys<V>(ids: Seq<String>, m: Map<Seq<char>, V>) -> bool {
    &&& text_views(ids).no_duplicates()
    &&& forall|k: Seq<char>| #[trigger] m.contains_key(k) <==> text_views(ids).contains(k)
}

/// A map from identifiers to values that can list its identifiers.
#[verifier::reject_recursive_types(V)]
pub struct Table<V> {
    map: StringHashMap<V>,
    ids: Vec<String>,
}

impl<V> View for Table<V> {
    type V = Map<Seq<char>, V>;

    closed spec fn view(&self) -> Map<Seq<char>, V> {
        self.map@
    }
}

impl<V> Table<V> {
    pub closed spec fn wf(&self) -> bool {
        lists_keys(self.ids@, self.map@)
    }

    pub fn new() -> (r: Table<V>)
        ensures
            r.wf(),
            r@ == Map::<Seq<char>, V>::empty(),
    {
        let r = Table { map: StringHashMap::new(), ids: Vec::new() };
        assert(text_views(r.ids@) =~= Seq::<Seq<char>>::empty());
        r
    }

    pub fn contains(&self, id: &str) -> (r: bool)
        ensures
            r == self@.contains_key(id@),
    {
        self.map.contains_key(id)
    }

    pub fn get(&self, id: &str) -> (r: Option<&V>)
        ensures
            match r {
                Some(v) => self@.contains_key(id@) && *v == self@[id@],
                None => !self@.contains_key(id@),
            },
    {
        self.map.get(id)
    }

    /// Sets the value of `id`, replacing any value it had.
    pub fn insert(&mut self, id: String, v: V)
        requires
            old(self).wf(),
        ensures
            final(self).wf(),
            final(self)@ == old(self)@.insert(id@, v),
    {
        if !self.map.contains_key(id.as_str()) {
            let copy = id.clone();
            let ghost before = self.ids@;
            self.ids.push(copy);
            proof {
                assert(text_views(self.ids@) =~= text_views(before).push(id@));
                assert(!text_views(before).contains(id@));
            }
        }
        self.map.insert(id, v);
        proof {
            let m = self.map@;
            let ids = text_views(self.ids@);
            assert forall|k: Seq<char>| #[trigger] m.contains_key(k) <==> ids.contains(k) by {
                if k == id@ {
                    assert(m.contains_key(k));
                    if !old(self)@.contains_key(id@) {
                        assert(ids[ids.len() - 1] == k);
                    }
                } else if ids.contains(k) {
                    let j = choose|j: int| 0 <= j < ids.len() && ids[j] == k;
                    if !old(self)@.contains_key(id@) && j == ids.len() - 1 {
                    } else {
                        assert(text_views(old(self).ids@)[j] == k);
                    }
                } else if old(self)@.contains_key(k) {
                    let j = choose|j: int| 0 <= j < text_views(old(self).ids@).len()
                        && text_views(old(self).ids@)[j] == k;
                    assert(ids[j] == k);
                }
            }
        }
    }

    /// Finds the position of `id` in the list of identifiers.
    fn position(&self, id: &str) -> (r: usize)
        requires
            self.wf(),
            self@.contains_key(id@),
        ensures
            r < self.ids@.len(),
            self.ids@[r as int]@ == id@,
    {
        let mut i: usize = 0;
        while i < self.ids.len()
            invariant
                self.wf(),
                self@.contains_key(id@),
                i <= self.ids@.len(),
                forall|j: int| 0 <= j < i ==> #[trigger] self.ids@[j]@ != id@,
            decreases self.ids@.len() - i,
        {
            if same_text(self.ids[i].as_str(), id) {
                return i;
            }
            i = i + 1;
        }
        proof {
            let ids = text_views(self.ids@);
            let j = choose|j: int| 0 <= j < ids.len() && ids[j] == id@;
            assert(self.ids@[j]@ == id@);
        }
        0
    }

    /// Removes `id`; returns whether it was there.
    pub fn remove(&mut self, id: &str) -> (r: bool)
        requires
            old(self).wf(),
        ensures
            final(self).wf(),
            final(self)@ == old(self)@.remove(id@),
            r == old(self)@.contains_key(id@),
    {
        if !self.map.contains_key(id) {
            proof {
                assert(self.map@.remove(id@) =~= self.map@);
            }
            return false;
        }
        let at = self.position(id);
        let ghost before = self.ids@;
        self.ids.remove(at);
        self.map.remove(id);
        proof {
            let old_ids = text_views(before);
            let ids = text_views(self.ids@);
            assert(ids =~= old_ids.remove(at as int));
            assert(old_ids[at as int] == id@);
            assert(ids.no_duplicates()) by {
                assert forall|a: int, b: int| 0 <= a < ids.len() && 0 <= b < ids.len() && a != b
                    implies ids[a] != ids[b] by {
                    let oa = if a < at { a } else { a + 1 };
                    let ob = if b < at { b } else { b + 1 };
                    assert(ids[a] == old_ids[oa]);
                    assert(ids[b] == old_ids[ob]);
                }
            }
            let m = self.map@;
            assert forall|k: Seq<char>| #[trigger] m.contains_key(k) <==> ids.contains(k) by {
                if m.contains_key(k) {
                    let j = choose|j: int| 0 <= j < old_ids.len() && old_ids[j] == k;
                    assert(j != at);
                    if j < at {
                        assert(ids[j] == k);
                    } else {
                        assert(ids[j - 1] == k);
                    }
                }
                if ids.contains(k) {
                    let j = choose|j: int| 0 <= j < ids.len() && ids[j] == k;
                    let oj = if j < at { j } else { j + 1 };
                    assert(old_ids[oj] == k);
                    assert(oj != at);
                }
            }
        }
        true
    }

    /// A snapshot of the identifiers held, each once.
    pub fn ids(&self) -> (r: Vec<String>)
        requires
            self.wf(),
        ensures
            lists_keys(r@, self@),
    {
        let mut out: Vec<String> = Vec::new();
        let mut i: usize = 0;
        while i < self.ids.len()
            invariant
                self.wf(),
                i <= self.ids@.len(),
                out@ == self.ids@.subrange(0, i as int),
            decreases self.ids@.len() - i,
        {
            out.push(self.ids[i].clone());
            assert(out@ =~= self.ids@.subrange(0, i + 1));
            i = i + 1;
        }
        assert(out@ =~= self.ids@);
        out
    }
}

} // verus!

verus! {

/// Content blobs by paste identifier.
pub struct ContentStore {
    table: Table<StoredContent>,
}

impl View for ContentStore {
    type V = Map<Seq<char>, StoredContent>;

    closed spec fn view(&self) -> Map<Seq<char>, StoredContent> {
        self.table@
    }
}

impl ContentStore {
    pub closed spec fn wf(&self) -> bool {
        self.table.wf()
    }

    pub fn new() -> (r: ContentStore)
        ensures
            r.wf(),
            r@ == Map::<Seq<char>, StoredContent>::empty(),
    {
        ContentStore { table: Table::new() }
    }

    /// Stores `body` under `id` at time `now`, replacing what was there.
    pub fn put(&mut self, id: String, body: String, now: i64)
        requires
            old(self).wf(),
        ensures
            final(self).wf(),
            final(self)@ == old(self)@.insert(id@, StoredContent { body, stored_at: now }),
    {
        self.table.insert(id, StoredContent { body, stored_at: now });
    }

    /// A copy of the content stored under `id`, if any.
    pub fn get(&self, id: &str) -> (r: Option<String>)
        ensures
            match r {
                Some(b) => self@.contains_key(id@) && b@ == self@[id@].body@,
                None => !self@.contains_key(id@),
            },
    {
        match self.table.get(id) {
            Some(c) => Some(c.body.clone()),
            None => None,
        }
    }

    /// Removes the content of `id`; returns whether there was any. Removing
    /// what is absent is no error.
    pub fn delete(&mut self, id: &str) -> (r: bool)
        requires
            old(self).wf(),
        ensures
            final(self).wf(),
            final(self)@ == old(self)@.remove(id@),
            r == old(self)@.contains_key(id@),
    {
        self.table.remove(id)
    }

    pub fn contains(&self, id: &str) -> (r: bool)
        ensures
            r == self@.contains_key(id@),
    {
        self.table.contains(id)
    }

    /// The time at which the content of `id` was written, if it is there.
    pub fn stored_at(&self, id: &str) -> (r: Option<i64>)
        ensures
            match r {
                Some(t) => self@.contains_key(id@) && t == self@[id@].stored_at,
                None => !self@.contains_key(id@),
            },
    {
        match self.table.get(id) {
            Some(c) => Some(c.stored_at),
            None => None,
        }
    }

    /// A snapshot of the identifiers that have content.
    pub fn ids(&self) -> (r: Vec<String>)
        requires
            self.wf(),
        ensures
            lists_keys(r@, self@),
    {
        self.table.ids()
    }
}

/// Metadata rows by paste identifier.
pub struct MetadataStore {
    table: Table<PasteMeta>,
}

impl View for MetadataStore {
    type V = Map<Seq<char>, PasteMeta>;

    closed spec fn view(&self) -> Map<Seq<char>, PasteMeta> {
        self.table@
    }
}

impl MetadataStore {
    /// Every row has a positive time to live.
    pub closed spec fn wf(&self) -> bool {
        &&& self.table.wf()
        &&& forall|k: Seq<char>| #[trigger] self.table@.contains_key(k) ==> self.table@[k].ttl > 0
    }

    pub fn new() -> (r: MetadataStore)
        ensures
            r.wf(),
            r@ == Map::<Seq<char>, PasteMeta>::empty(),
    {
        MetadataStore { table: Table::new() }
    }

    /// Adds the row of `id`; fails with `Conflict`, changing nothing, if `id`
    /// already has one.
    pub fn create(&mut self, id: String, meta: PasteMeta) -> (r: Result<(), PasteError>)
        requires
            old(self).wf(),
            meta.ttl > 0,
        ensures
            final(self).wf(),
            old(self)@.contains_key(id@) ==> r == Err::<(), PasteError>(PasteError::Conflict)
                && final(self)@ == old(self)@,
            !old(self)@.contains_key(id@) ==> r is Ok && final(self)@ == old(self)@.insert(
                id@,
                meta,
            ),
    {
        if self.table.contains(id.as_str()) {
            return Err(PasteError::Conflict);
        }
        self.table.insert(id, meta);
        Ok(())
    }

    /// The row of `id`, compared by exact equality of identifiers.
    pub fn find_by_id(&self, id: &str) -> (r: Option<&PasteMeta>)
        requires
            self.wf(),
        ensures
            r matches Some(m) ==> m.ttl > 0,
            match r {
                Some(m) => self@.contains_key(id@) && *m == self@[id@],
                None => !self@.contains_key(id@),
            },
    {
        self.table.get(id)
    }

    /// Removes the row of `id` and no other; returns whether there was one.
    pub fn delete_by_id(&mut self, id: &str) -> (r: bool)
        requires
            old(self).wf(),
        ensures
            final(self).wf(),
            final(self)@ == old(self)@.remove(id@),
            r == old(self)@.contains_key(id@),
    {
        self.table.remove(id)
    }

    /// A snapshot of the identifiers that have a row.
    pub fn list_all(&self) -> (r: Vec<String>)
        requires
            self.wf(),
        ensures
            lists_keys(r@, self@),
    {
        self.table.ids()
    }
}

/// The contents of both stores, and the keys of pastes removed on request.
pub struct StoreView {
    pub content: Map<Seq<char>, StoredContent>,
    pub meta: Map<Seq<char>, PasteMeta>,
    pub removed: Map<Seq<char>, String>,
}

/// The handle on both stores, built once and shared by the service and the
/// sweeper.
pub struct PasteStore {
    pub content: ContentStore,
    pub meta: MetadataStore,
    /// The deletion key of each paste removed on request, so that a repeated
    /// removal with that key is recognised.
    pub removed: Table<String>,
}

impl View for PasteStore {
    type V = StoreView;

    open spec fn view(&self) -> StoreView {
        StoreView { content: self.content@, meta: self.meta@, removed: self.removed@ }
    }
}

impl PasteStore {
    pub open spec fn wf(&self) -> bool {
        self.content.wf() && self.meta.wf() && self.removed.wf()
    }

    /// The whole record of `id`, when both its row and its content are there.
    pub fn find_record(&self, id: &str) -> (r: Option<Paste>)
        requires
            self.wf(),
        ensures
            match r {
                Some(p) => {
                    &&& self.meta@.contains_key(id@)
                    &&& self.content@.contains_key(id@)
                    &&& p@ == (PasteView {
                        id: id@,
                        key: self.meta@[id@].key@,
                        ttl: self.meta@[id@].ttl,
                        created: self.meta@[id@].created,
                        paste: self.content@[id@].body@,
                    })
                },
                None => !self.meta@.contains_key(id@) || !self.content@.contains_key(id@),
            },
    {
        let meta = match self.meta.find_by_id(id) {
            Some(m) => m,
            None => return None,
        };
        let body = match self.content.get(id) {
            Some(b) => b,
            None => return None,
        };
        Some(Paste::new(id.to_owned(), meta.key.clone(), meta.ttl, meta.created, body))
    }

    pub fn new() -> (r: PasteStore)
        ensures
            r.wf(),
            r.content@ == Map::<Seq<char>, StoredContent>::empty(),
            r.meta@ == Map::<Seq<char>, PasteMeta>::empty(),
            r.removed@ == Map::<Seq<char>, String>::empty(),
    {
        PasteStore { content: ContentStore::new(), meta: MetadataStore::new(), removed: Table::new() }
    }
}

} // verus!
