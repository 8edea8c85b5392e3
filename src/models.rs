//! The records kept for each paste.
use vstd::prelude::*;

verus! {

/// What a [`Paste`] holds, as mathematical values.
pub struct PasteView {
    pub id: Seq<char>,
    pub key: Seq<char>,
    pub ttl: i32,
    pub created: i64,
    pub paste: Seq<char>,
}

/// A whole paste: identifier, deletion key, time to live in seconds, creation
/// time in epoch seconds, and the content.
pub struct Paste {
    id: String,
    key: String,
    ttl: i32,
    created: i64,
    paste: String,
}

impl View for Paste {
    type V = PasteView;

    closed spec fn view(&self) -> PasteView {
        PasteView {
            id: self.id@,
            key: self.key@,
            ttl: self.ttl,
            created: self.created,
            paste: self.paste@,
        }
    }
}

impl Paste {
    pub fn new(id: String, key: String, ttl: i32, created: i64, paste: String) -> (r: Paste)
        requires
            ttl > 0,
        ensures
            r@ == (PasteView { id: id@, key: key@, ttl, created, paste: paste@ }),
    {
        Paste { id, key, ttl, created, paste }
    }

    pub fn get_id_cloned(&self) -> (r: String)
        ensures
            r@ == self@.id,
    {
        self.id.clone()
    }

    pub fn get_key_cloned(&self) -> (r: String)
        ensures
            r@ == self@.key,
    {
        self.key.clone()
    }

    pub fn get_ttl_u64(&self) -> (r: u64)
        ensures
            r == self@.ttl as u64,
    {
        self.ttl as u64
    }

    pub fn get_ttl_i64(&self) -> (r: i64)
        ensures
            r == self@.ttl as i64,
    {
        self.ttl as i64
    }

    pub fn get_created(&self) -> (r: i64)
        ensures
            r == self@.created,
    {
        self.created
    }

    pub fn get_paste_cloned(&self) -> (r: String)
        ensures
            r@ == self@.paste,
    {
        self.paste.clone()
    }
}

/// The bookkeeping row of a paste in the metadata store, keyed by its identifier.
pub struct PasteMeta {
    pub key: String,
    pub ttl: i32,
    pub created: i64,
}

/// A content blob in the content store, with the time it was written.
pub struct StoredContent {
    pub body: String,
    pub stored_at: i64,
}

/// The last second at which a paste created at `created` with time to live
/// `ttl` is still kept by the sweeper.
pub open spec fn expiry(created: i64, ttl: i32) -> int {
    created + ttl
}

/// The sweeper removes a paste once `now` is past its expiry.
pub open spec fn is_expired(m: PasteMeta, now: i64) -> bool {
    now > expiry(m.created, m.ttl)
}

/// A paste is served while `now` is before its expiry.
pub open spec fn is_live_at(m: PasteMeta, now: i64) -> bool {
    now < expiry(m.created, m.ttl)
}

} // verus!
