//! Starting a load: hashing the content, joining an existing load of identical
//! content, or reserving the hash for a new one.

use vstd::prelude::*;
use crate::vault::content::{AssetContent, hash_of, hashes_to};
use crate::vault::handles::{Asset, Handle};
use crate::vault::pipeline::LoadPipeline;

verus! {

/// The result of asking a vault to load some content.
pub struct LoadTicket<H> {
    /// The handle to give the caller.
    pub handle: H,
    /// The content hash the load is keyed by.
    pub hash: u64,
    /// Whether a new load was reserved, so that the caller must start fetching and
    /// decoding the content; otherwise an existing load was joined.
    pub started: bool,
}

impl<T: Asset, S, R> LoadPipeline<Handle<T>, S, R> {
    /// Loads `content`: the content is hashed, and an existing handle for that hash
    /// (resident, staged or pending) is returned as is; otherwise a handle made by
    /// `make_handle` is reserved as pending. Whatever hash comes out, the returned
    /// handle is the one the pipeline records for it.
    pub fn load<F: FnOnce(u64) -> Handle<T>>(&mut self, content: &AssetContent, make_handle: F) -> (r: LoadTicket<Handle<T>>)
        requires
            old(self).wf(),
            forall|h: u64| make_handle.requires((h,)),
        ensures
            final(self).wf(),
            r.started == !old(self)@.tracks(r.hash),
            !r.started ==> final(self)@ == old(self)@,
            r.started ==> make_handle.ensures((r.hash,), r.handle),
            final(self)@ == old(self)@.after_begin_load(r.hash, r.handle),
            final(self)@.handle_of(r.hash) == Some(r.handle),
            hashes_to(*content, r.hash),
            (forall|k: u64| #[trigger] old(self)@.tracks(k) ==> !hashes_to(*content, k)) ==> r.started,
    {
        let hash = hash_of(content);
        match self.find(hash) {
            Some(existing) => {
                proof { assert(old(self)@.tracks(hash)); }
                let handle = existing.clone();
                LoadTicket { handle, hash, started: false }
            },
            None => {
                let handle = make_handle(hash);
                self.begin_load(hash, handle.clone());
                LoadTicket { handle, hash, started: true }
            },
        }
    }
}

impl<T: Asset, S, R> LoadPipeline<Handle<T>, S, R> {
    /// A handle to `hash` if it is resident.
    pub fn resident_handle(&self, hash: u64) -> (r: Option<Handle<T>>)
        ensures
            match r {
                Some(h) => self@.resident.contains_key(hash) && h == self@.resident[hash].0,
                None => !self@.resident.contains_key(hash),
            },
    {
        match self.resident(hash) {
            Some(entry) => Some(entry.0.clone()),
            None => None,
        }
    }
}

} // verus!
