//! Create, retrieve and delete pastes over the two stores.
use vstd::prelude::*;
use vstd::string::StringExecFns;
use vstd::utf8::encode_utf8;

use crate::clock::now_secs;
use crate::error::PasteError;
use crate::models::{is_live_at, PasteMeta, StoredContent};
use crate::paste_id::{generate_deletion_key, is_valid_id, is_valid_key, valid_id, PasteID};
use crate::store::{PasteStore, StoreView};
use crate::text::same_text;

verus! {

/// Time to live of a new paste: seven days, in seconds.
pub const DEFAULT_TTL: i32 = 604800;

/// Largest content accepted, in bytes: 4 MiB.
pub const MAX_PASTE_SIZE: usize = 4194304;

/// How often `create` draws a new identifier when the one drawn is taken.
pub const CREATE_ATTEMPTS: usize = 4;

/// Size of a text in bytes, as UTF-8.
pub open spec fn byte_len(s: Seq<char>) -> nat {
    encode_utf8(s).len()
}

/// No well-formed identifier is taken in either store, so that no drawn
/// identifier can collide.
pub open spec fn no_valid_id_taken(s: StoreView) -> bool {
    forall|k: Seq<char>|
        #![trigger s.meta.contains_key(k)]
        #![trigger s.content.contains_key(k)]
        s.meta.contains_key(k) || s.content.contains_key(k) ==> !is_valid_id(k)
}

/// The public link of the paste `id` under `base`.
pub open spec fn link_of(base: Seq<char>, id: Seq<char>) -> Seq<char> {
    base + "/"@ + id
}

/// The stores after `body` was stored under `id` at `now`, with deletion key
/// `key` and time to live `ttl`, or the error that stops it.
pub open spec fn create_spec(
    s: StoreView,
    body: String,
    id: Seq<char>,
    key: String,
    ttl: i32,
    now: i64,
) -> (StoreView, Result<(), PasteError>) {
    if byte_len(body@) > MAX_PASTE_SIZE {
        (s, Err(PasteError::PayloadTooLarge))
    } else if s.meta.contains_key(id) || s.content.contains_key(id) {
        (s, Err(PasteError::Conflict))
    } else {
        (
            StoreView {
                content: s.content.insert(id, StoredContent { body, stored_at: now }),
                meta: s.meta.insert(id, PasteMeta { key, ttl, created: now }),
                removed: s.removed,
            },
            Ok(()),
        )
    }
}

/// What a retrieval of `id` at time `now` gives: the content of a live paste,
/// else `NotFound`. A malformed identifier is turned away before any lookup.
pub open spec fn retrieve_spec(s: StoreView, id: Seq<char>, now: i64) -> Result<Seq<char>, PasteError> {
    if !is_valid_id(id) {
        Err(PasteError::NotFound)
    } else if !s.meta.contains_key(id) || !s.content.contains_key(id) {
        Err(PasteError::NotFound)
    } else if !is_live_at(s.meta[id], now) {
        Err(PasteError::NotFound)
    } else {
        Ok(s.content[id].body@)
    }
}

/// The stores after a removal of `id` authorised by `key`, and its result.
/// Removing a paste again with the key that removed it is a no-op, not an
/// error; an unknown identifier and a wrong key fail alike.
pub open spec fn delete_spec(s: StoreView, id: Seq<char>, key: Seq<char>) -> (StoreView, Result<(), PasteError>) {
    if !is_valid_id(id) {
        (s, Err(PasteError::NotFound))
    } else if s.meta.contains_key(id) {
        if s.meta[id].key@ != key {
            (s, Err(PasteError::Authorization))
        } else {
            (
                StoreView {
                    content: s.content.remove(id),
                    meta: s.meta.remove(id),
                    removed: s.removed.insert(id, s.meta[id].key),
                },
                Ok(()),
            )
        }
    } else if s.removed.contains_key(id) && s.removed[id]@ == key {
        (s, Ok(()))
    } else {
        (s, Err(PasteError::NotFound))
    }
}

/// The views of a retrieval's result.
pub open spec fn text_result(r: Result<String, PasteError>) -> Result<Seq<char>, PasteError> {
    match r {
        Ok(s) => Ok(s@),
        Err(e) => Err(e),
    }
}

/// What an upload hands back: the identifier, the deletion key, the time to
/// live in seconds and the public link.
pub struct Paste {
    pub id: String,
    pub key: String,
    pub ttl: u64,
    pub link: String,
}

/// The size of `s` in bytes.
pub fn content_size(s: &str) -> (n: usize)
    ensures
        n == byte_len(s@),
{
    s.as_bytes().len()
}

/// A removal request: the identifier of a paste and its deletion key.
pub struct PasteDel {
    pub paste_id: String,
    pub paste_key: String,
}

/// The confirmation shown after the paste `id` was removed.
pub open spec fn removed_message(id: Seq<char>) -> Seq<char> {
    "Paste "@ + id + " removed"@
}

/// Creates, retrieves and deletes pastes.
pub struct PasteService {
    ttl: i32,
    base_url: String,
}

impl PasteService {
    #[verifier::type_invariant]
    spec fn inv(&self) -> bool {
        self.ttl > 0
    }

    pub closed spec fn ttl_secs(&self) -> i32 {
        self.ttl
    }

    pub closed spec fn base(&self) -> Seq<char> {
        self.base_url@
    }

    /// A service whose links start with `base_url` and whose pastes live seven days.
    pub fn new(base_url: String) -> (r: PasteService)
        ensures
            r.ttl_secs() == DEFAULT_TTL,
            r.base() == base_url@,
    {
        PasteService { ttl: DEFAULT_TTL, base_url }
    }

    /// A service whose pastes live `ttl` seconds.
    pub fn with_ttl(base_url: String, ttl: i32) -> (r: PasteService)
        requires
            ttl > 0,
        ensures
            r.ttl_secs() == ttl,
            r.base() == base_url@,
    {
        PasteService { ttl, base_url }
    }

    pub fn ttl(&self) -> (r: i32)
        ensures
            r == self.ttl_secs(),
            r > 0,
    {
        proof {
            use_type_invariant(self);
        }
        self.ttl
    }

    /// The public link of the paste `id`.
    pub fn link(&self, id: &str) -> (r: String)
        ensures
            r@ == link_of(self.base(), id@),
    {
        self.base_url.clone().concat("/").concat(id)
    }

    /// Stores `body` under `id` with deletion key `key`, created at `now`.
    /// Content is written before metadata, so that an interruption between the
    /// two leaves an orphaned blob rather than a row without content.
    pub fn create_at(
        &self,
        store: &mut PasteStore,
        body: &String,
        id: String,
        key: String,
        now: i64,
    ) -> (r: Result<Paste, PasteError>)
        requires
            old(store).wf(),
        ensures
            final(store).wf(),
            final(store)@ == create_spec(old(store)@, *body, id@, key, self.ttl_secs(), now).0,
            r is Ok <==> create_spec(old(store)@, *body, id@, key, self.ttl_secs(), now).1 is Ok,
            r matches Err(e) ==> create_spec(old(store)@, *body, id@, key, self.ttl_secs(), now).1
                == Err::<(), PasteError>(e),
            r matches Ok(p) ==> {
                &&& p.id@ == id@
                &&& p.key@ == key@
                &&& p.ttl == self.ttl_secs() as u64
                &&& p.link@ == link_of(self.base(), id@)
            },
    {
        proof {
            use_type_invariant(self);
        }
        if content_size(body.as_str()) > MAX_PASTE_SIZE {
            return Err(PasteError::PayloadTooLarge);
        }
        if store.meta.find_by_id(id.as_str()).is_some() || store.content.contains(id.as_str()) {
            return Err(PasteError::Conflict);
        }
        let link = self.link(id.as_str());
        let receipt = Paste { id: id.clone(), key: key.clone(), ttl: self.ttl as u64, link };
        store.content.put(id.clone(), body.clone(), now);
        let row = PasteMeta { key, ttl: self.ttl, created: now };
        match store.meta.create(id, row) {
            Ok(()) => Ok(receipt),
            Err(e) => Err(e),
        }
    }

    /// Stores `body` under a fresh random identifier and deletion key, created
    /// now. A taken identifier is drawn again, a few times at most.
    pub fn create(&self, store: &mut PasteStore, body: &String) -> (r: Result<Paste, PasteError>)
        requires
            old(store).wf(),
        ensures
            final(store).wf(),
            byte_len(body@) > MAX_PASTE_SIZE ==> r == Err::<Paste, PasteError>(
                PasteError::PayloadTooLarge,
            ),
            byte_len(body@) <= MAX_PASTE_SIZE ==> r is Ok || r == Err::<Paste, PasteError>(
                PasteError::Conflict,
            ),
            byte_len(body@) <= MAX_PASTE_SIZE && no_valid_id_taken(old(store)@) ==> r is Ok,
            r is Err ==> final(store)@ == old(store)@,
            r matches Ok(p) ==> {
                &&& is_valid_id(p.id@)
                &&& is_valid_key(p.key@)
                &&& p.ttl == self.ttl_secs() as u64
                &&& p.link@ == link_of(self.base(), p.id@)
                &&& create_spec(
                    old(store)@,
                    *body,
                    p.id@,
                    final(store)@.meta[p.id@].key,
                    self.ttl_secs(),
                    final(store)@.meta[p.id@].created,
                ).1 is Ok
                &&& final(store)@ == create_spec(
                    old(store)@,
                    *body,
                    p.id@,
                    final(store)@.meta[p.id@].key,
                    self.ttl_secs(),
                    final(store)@.meta[p.id@].created,
                ).0
                &&& final(store)@.meta[p.id@].key@ == p.key@
            },
    {
        let mut attempt: usize = 1;
        loop
            invariant
                store.wf(),
                store@ == old(store)@,
                1 <= attempt <= CREATE_ATTEMPTS,
                byte_len(body@) <= MAX_PASTE_SIZE && no_valid_id_taken(old(store)@) ==> attempt == 1,
            decreases CREATE_ATTEMPTS - attempt,
        {
            let id = PasteID::new().id();
            let key = generate_deletion_key();
            let now = now_secs();
            let ghost drawn = id@;
            let r = self.create_at(store, body, id, key, now);
            match r {
                Err(PasteError::Conflict) => {
                    proof {
                        if byte_len(body@) <= MAX_PASTE_SIZE {
                            assert(old(store)@.meta.contains_key(drawn) || old(store)@.content.contains_key(drawn));
                            assert(is_valid_id(drawn));
                            assert(!no_valid_id_taken(old(store)@));
                        }
                    }
                    if attempt >= CREATE_ATTEMPTS {
                        return r;
                    }
                },
                _ => {
                    return r;
                },
            }
            attempt = attempt + 1;
        }
    }

    /// The content of the live paste `id` at time `now`.
    pub fn retrieve_at(&self, store: &PasteStore, id: &str, now: i64) -> (r: Result<String, PasteError>)
        requires
            store.wf(),
        ensures
            text_result(r) == retrieve_spec(store@, id@, now),
    {
        if !valid_id(id) {
            return Err(PasteError::NotFound);
        }
        let live = match store.meta.find_by_id(id) {
            Some(m) => (now as i128) < (m.created as i128) + (m.ttl as i128),
            None => return Err(PasteError::NotFound),
        };
        if !live {
            return Err(PasteError::NotFound);
        }
        match store.content.get(id) {
            Some(body) => Ok(body),
            None => Err(PasteError::NotFound),
        }
    }

    /// The content of the paste `id`, if it is live now.
    pub fn retrieve(&self, store: &PasteStore, id: &str) -> (r: Result<String, PasteError>)
        requires
            store.wf(),
        ensures
            exists|now: i64| text_result(r) == retrieve_spec(store@, id@, now),
            !is_valid_id(id@) || !store@.meta.contains_key(id@) || !store@.content.contains_key(id@)
                ==> r == Err::<String, PasteError>(PasteError::NotFound),
            r matches Ok(c) ==> c@ == store@.content[id@].body@,
            r matches Err(e) ==> e == PasteError::NotFound,
    {
        self.retrieve_at(store, id, now_secs())
    }

    /// Removes the paste `id` if `key` is its deletion key, and remembers the
    /// key so that the same removal repeated changes nothing and succeeds.
    /// The key is compared in time that does not depend on where it first differs.
    /// Content goes first, so that an interruption leaves a row without
    /// content, which the sweeper removes.
    pub fn delete(&self, store: &mut PasteStore, id: &str, key: &str) -> (r: Result<(), PasteError>)
        requires
            old(store).wf(),
        ensures
            final(store).wf(),
            (final(store)@, r) == delete_spec(old(store)@, id@, key@),
    {
        if !valid_id(id) {
            return Err(PasteError::NotFound);
        }
        let (authorised, stored_key) = match store.meta.find_by_id(id) {
            Some(m) => (same_text(m.key.as_str(), key), m.key.clone()),
            None => {
                let repeated = match store.removed.get(id) {
                    Some(k) => same_text(k.as_str(), key),
                    None => false,
                };
                if repeated {
                    return Ok(());
                }
                return Err(PasteError::NotFound);
            },
        };
        if !authorised {
            return Err(PasteError::Authorization);
        }
        store.content.delete(id);
        store.meta.delete_by_id(id);
        store.removed.insert(id.to_owned(), stored_key);
        Ok(())
    }

    /// Carries out a removal request; on success returns the confirmation.
    pub fn remove(&self, store: &mut PasteStore, form: &PasteDel) -> (r: Result<String, PasteError>)
        requires
            old(store).wf(),
        ensures
            final(store).wf(),
            final(store)@ == delete_spec(old(store)@, form.paste_id@, form.paste_key@).0,
            r matches Ok(m) ==> delete_spec(old(store)@, form.paste_id@, form.paste_key@).1 is Ok
                && m@ == removed_message(form.paste_id@),
            r matches Err(e) ==> delete_spec(old(store)@, form.paste_id@, form.paste_key@).1
                == Err::<(), PasteError>(e),
    {
        match self.delete(store, form.paste_id.as_str(), form.paste_key.as_str()) {
            Ok(()) => Ok(String::from_str("Paste ").concat(form.paste_id.as_str()).concat(" removed")),
            Err(e) => Err(e),
        }
    }
}

/// A paste created with a fresh, well-formed identifier is retrievable, with
/// exactly the content given, at any time from its creation until its time to
/// live has passed.
pub proof fn lemma_create_then_retrieve(
    s: StoreView,
    body: String,
    id: Seq<char>,
    key: String,
    ttl: i32,
    created: i64,
    now: i64,
)
    requires
        ttl > 0,
        byte_len(body@) <= MAX_PASTE_SIZE,
        is_valid_id(id),
        !s.meta.contains_key(id),
        !s.content.contains_key(id),
        created <= now < created + ttl,
    ensures
        create_spec(s, body, id, key, ttl, created).1 is Ok,
        retrieve_spec(create_spec(s, body, id, key, ttl, created).0, id, now) == Ok::<
            Seq<char>,
            PasteError,
        >(body@),
{
}

/// Content over the size ceiling is refused with `PayloadTooLarge`, and
/// neither store changes.
pub proof fn lemma_oversized_create_changes_nothing(
    s: StoreView,
    body: String,
    id: Seq<char>,
    key: String,
    ttl: i32,
    now: i64,
)
    requires
        byte_len(body@) > MAX_PASTE_SIZE,
    ensures
        create_spec(s, body, id, key, ttl, now) == (s, Err::<(), PasteError>(
            PasteError::PayloadTooLarge,
        )),
{
}

/// An identifier that has no row, because no creation stored one, is not found.
pub proof fn lemma_unknown_id_not_found(s: StoreView, id: Seq<char>, now: i64)
    requires
        !s.meta.contains_key(id),
    ensures
        retrieve_spec(s, id, now) == Err::<Seq<char>, PasteError>(PasteError::NotFound),
{
}

/// A removal with the right key succeeds, and the paste is not found after it.
pub proof fn lemma_delete_with_key_removes(s: StoreView, id: Seq<char>, key: Seq<char>, now: i64)
    requires
        is_valid_id(id),
        s.meta.contains_key(id),
        s.meta[id].key@ == key,
    ensures
        delete_spec(s, id, key).1 is Ok,
        retrieve_spec(delete_spec(s, id, key).0, id, now) == Err::<Seq<char>, PasteError>(
            PasteError::NotFound,
        ),
{
}

/// A removal with a wrong key fails with `Authorization` and changes nothing,
/// so the paste stays retrievable as before.
pub proof fn lemma_delete_with_wrong_key_keeps(s: StoreView, id: Seq<char>, key: Seq<char>, now: i64)
    requires
        is_valid_id(id),
        s.meta.contains_key(id),
        s.meta[id].key@ != key,
    ensures
        delete_spec(s, id, key) == (s, Err::<(), PasteError>(PasteError::Authorization)),
        retrieve_spec(delete_spec(s, id, key).0, id, now) == retrieve_spec(s, id, now),
{
}

/// Repeating a successful removal, with the same key, changes neither store
/// and succeeds again.
pub proof fn lemma_second_delete_changes_nothing(s: StoreView, id: Seq<char>, key: Seq<char>)
    requires
        delete_spec(s, id, key).1 is Ok,
    ensures
        delete_spec(delete_spec(s, id, key).0, id, key) == (
            delete_spec(s, id, key).0,
            Ok::<(), PasteError>(()),
        ),
{
}

} // verus!
