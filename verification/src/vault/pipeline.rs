//! The load pipeline shared by every asset vault.
//!
//! A hash's handle lives in exactly one of three stages at a time, moving left to
//! right: `pending` (content fetch/decode in flight) -> `staged` (decoded, not yet
//! uploaded) -> `resident` (uploaded and available to lookups).

use std::collections::HashMap;
use vstd::prelude::*;
use vstd::std_specs::iter::IteratorSpec;

verus! {

broadcast use vstd::std_specs::hash::group_hash_axioms;

/// The abstract state of a [`LoadPipeline`]: the three stage maps, keyed by content hash.
#[verifier::ext_equal]
pub struct PipelineView<H, S, R> {
    pub resident: Map<u64, (H, R)>,
    pub staged: Map<u64, (H, S)>,
    pub pending: Map<u64, H>,
}

impl<H, S, R> PipelineView<H, S, R> {
    /// No hash is in two stages at once.
    pub open spec fn stages_exclusive(self) -> bool {
        &&& forall|k: u64| #[trigger] self.resident.contains_key(k)
            ==> !self.staged.contains_key(k) && !self.pending.contains_key(k)
        &&& forall|k: u64| #[trigger] self.staged.contains_key(k) ==> !self.pending.contains_key(k)
    }

    /// The hash is known in some stage.
    pub open spec fn tracks(self, hash: u64) -> bool {
        self.resident.contains_key(hash) || self.staged.contains_key(hash) || self.pending.contains_key(hash)
    }

    /// The handle recorded for `hash`, looked up resident first, then staged, then pending.
    pub open spec fn handle_of(self, hash: u64) -> Option<H> {
        if self.resident.contains_key(hash) {
            Some(self.resident[hash].0)
        } else if self.staged.contains_key(hash) {
            Some(self.staged[hash].0)
        } else if self.pending.contains_key(hash) {
            Some(self.pending[hash])
        } else {
            None
        }
    }

    /// The state after asking to load `hash` with a freshly made `handle`: unchanged
    /// when the hash is already known, otherwise reserved as pending.
    pub open spec fn after_begin_load(self, hash: u64, handle: H) -> PipelineView<H, S, R> {
        if self.tracks(hash) {
            self
        } else {
            PipelineView { pending: self.pending.insert(hash, handle), ..self }
        }
    }

    /// The state after the fetch/decode of `hash` finished with `decoded` (`None`
    /// for a failure): a pending entry leaves `pending` and, on success, is staged.
    pub open spec fn after_finish_load(self, hash: u64, decoded: Option<S>) -> PipelineView<H, S, R> {
        if self.pending.contains_key(hash) {
            PipelineView {
                pending: self.pending.remove(hash),
                staged: match decoded {
                    Some(s) => self.staged.insert(hash, (self.pending[hash], s)),
                    None => self.staged,
                },
                ..self
            }
        } else {
            self
        }
    }
}

/// Loading content whose hash is already known starts nothing new: a second
/// request for the same hash leaves the pipeline as the first one left it, and
/// both requests see the handle recorded by the first.
pub proof fn lemma_load_deduplicates<H, S, R>(v: PipelineView<H, S, R>, hash: u64, first: H, second: H)
    ensures
        v.after_begin_load(hash, first).after_begin_load(hash, second) == v.after_begin_load(hash, first),
        v.after_begin_load(hash, first).handle_of(hash) == (if v.tracks(hash) {
            v.handle_of(hash)
        } else {
            Some(first)
        }),
        v.after_begin_load(hash, first).tracks(hash),
{
}

/// A hash keeps the handle it was reserved with while its load finishes: a
/// successful load moves the pending handle to staged, a failed one forgets it.
pub proof fn lemma_finish_load_keeps_handle<H, S, R>(v: PipelineView<H, S, R>, hash: u64, decoded: Option<S>)
    requires
        v.stages_exclusive(),
        v.pending.contains_key(hash),
    ensures
        decoded is Some ==> v.after_finish_load(hash, decoded).handle_of(hash) == v.handle_of(hash),
        decoded is None ==> !v.after_finish_load(hash, decoded).tracks(hash),
{
}

/// The three load stages of a vault, keyed by content hash. `H` is the handle kept
/// for a hash, `S` the decoded data waiting for upload, `R` what a resident entry holds.
pub struct LoadPipeline<H, S, R> {
    resident: HashMap<u64, (H, R)>,
    staged: HashMap<u64, (H, S)>,
    pending: HashMap<u64, H>,
}

impl<H, S, R> View for LoadPipeline<H, S, R> {
    type V = PipelineView<H, S, R>;

    closed spec fn view(&self) -> PipelineView<H, S, R> {
        PipelineView { resident: self.resident@, staged: self.staged@, pending: self.pending@ }
    }
}

impl<H, S, R> LoadPipeline<H, S, R> {
    /// Well-formedness: every hash is in at most one stage.
    pub open spec fn wf(&self) -> bool {
        self@.stages_exclusive()
    }

    /// An empty pipeline.
    pub fn new() -> (r: Self)
        ensures
            r.wf(),
            r@.resident == Map::<u64, (H, R)>::empty(),
            r@.staged == Map::<u64, (H, S)>::empty(),
            r@.pending == Map::<u64, H>::empty(),
    {
        LoadPipeline { resident: HashMap::new(), staged: HashMap::new(), pending: HashMap::new() }
    }

    /// The handle already recorded for `hash`, if any: the resident one, else the
    /// staged one, else the pending one.
    pub fn find(&self, hash: u64) -> (r: Option<&H>)
        ensures
            match r {
                Some(h) => self@.handle_of(hash) == Some(*h),
                None => self@.handle_of(hash) is None,
            },
    {
        if let Some(entry) = self.resident.get(&hash) {
            return Some(&entry.0);
        }
        if let Some(entry) = self.staged.get(&hash) {
            return Some(&entry.0);
        }
        self.pending.get(&hash)
    }

    /// Whether `hash` is in any stage.
    pub fn tracks(&self, hash: u64) -> (r: bool)
        ensures
            r == self@.tracks(hash),
    {
        self.resident.contains_key(&hash) || self.staged.contains_key(&hash) || self.pending.contains_key(&hash)
    }

    /// Reserves `hash` as pending with `handle`, unless the hash is already known.
    /// Returns whether it was reserved (the caller then starts the fetch/decode).
    pub fn begin_load(&mut self, hash: u64, handle: H) -> (r: bool)
        requires
            old(self).wf(),
        ensures
            final(self).wf(),
            r == !old(self)@.tracks(hash),
            final(self)@ == old(self)@.after_begin_load(hash, handle),
    {
        if self.tracks(hash) {
            return false;
        }
        self.pending.insert(hash, handle);
        true
    }

    /// Records the end of the fetch/decode of `hash`. A pending entry leaves
    /// `pending`; with `Some` decoded data it becomes staged, with `None` its handle
    /// is dropped. Returns whether `hash` was pending.
    pub fn finish_load(&mut self, hash: u64, decoded: Option<S>) -> (r: bool)
        requires
            old(self).wf(),
        ensures
            final(self).wf(),
            r == old(self)@.pending.contains_key(hash),
            final(self)@ == old(self)@.after_finish_load(hash, decoded),
    {
        let removed = self.pending.remove(&hash);
        match removed {
            None => {
                assert(self@.pending =~= old(self)@.pending);
                false
            },
            Some(handle) => {
                assert(handle == old(self)@.pending[hash]);
                assert(self@.pending =~= old(self)@.pending.remove(hash));
                match decoded {
                    Some(data) => {
                        self.staged.insert(hash, (handle, data));
                        assert(self@.staged =~= old(self)@.staged.insert(hash, (handle, data)));
                    },
                    None => {},
                }
                assert forall|k: u64| #[trigger] self@.resident.contains_key(k)
                    implies !self@.staged.contains_key(k) && !self@.pending.contains_key(k) by {
                    assert(old(self)@.resident.contains_key(k));
                }
                assert forall|k: u64| #[trigger] self@.staged.contains_key(k)
                    implies !self@.pending.contains_key(k) by {
                    if k != hash {
                        assert(old(self)@.staged.contains_key(k));
                    }
                }
                true
            },
        }
    }

    /// Every staged hash, once each, in no particular order.
    pub fn staged_hashes(&self) -> (r: Vec<u64>)
        ensures
            r@.to_set() == self@.staged.dom(),
            r@.no_duplicates(),
    {
        let mut out: Vec<u64> = Vec::new();
        let ghost keys = vstd::std_specs::hash::spec_keys_iter(&self.staged).remaining();
        for k in it: self.staged.keys()
            invariant
                it.seq() == keys,
                out@ == keys.take(it.index() as int).map_values(|p: &u64| *p),
        {
            proof {
                assert(keys.take(it.index() + 1) == keys.take(it.index() as int).push(keys[it.index() as int]));
            }
            out.push(*k);
        }
        proof {
            assert(keys.take(keys.len() as int) == keys);
            assert(out@ =~= keys.unref());
        }
        out
    }

    /// Removes and returns the staged entry for `hash`, if there is one.
    pub fn take_staged(&mut self, hash: u64) -> (r: Option<(H, S)>)
        requires
            old(self).wf(),
        ensures
            final(self).wf(),
            match r {
                Some(e) => old(self)@.staged.contains_key(hash) && e == old(self)@.staged[hash],
                None => !old(self)@.staged.contains_key(hash),
            },
            final(self)@ == (PipelineView { staged: old(self)@.staged.remove(hash), ..old(self)@ }),
    {
        let r = self.staged.remove(&hash);
        assert(self@.staged =~= old(self)@.staged.remove(hash));
        r
    }

    /// Makes `hash` resident with `handle` and `value`; the hash must not be in any stage.
    pub fn commit(&mut self, hash: u64, handle: H, value: R)
        requires
            old(self).wf(),
            !old(self)@.tracks(hash),
        ensures
            final(self).wf(),
            final(self)@ == (PipelineView { resident: old(self)@.resident.insert(hash, (handle, value)), ..old(self)@ }),
    {
        self.resident.insert(hash, (handle, value));
    }

    /// Stores `hash` as resident directly, replacing any resident entry for it; the
    /// hash must not be pending or staged.
    pub fn insert_resident(&mut self, hash: u64, handle: H, value: R)
        requires
            old(self).wf(),
            !old(self)@.pending.contains_key(hash),
            !old(self)@.staged.contains_key(hash),
        ensures
            final(self).wf(),
            final(self)@ == (PipelineView { resident: old(self)@.resident.insert(hash, (handle, value)), ..old(self)@ }),
    {
        self.resident.insert(hash, (handle, value));
    }

    /// The resident entry for `hash`, if any.
    pub fn resident(&self, hash: u64) -> (r: Option<&(H, R)>)
        ensures
            match r {
                Some(e) => self@.resident.contains_key(hash) && *e == self@.resident[hash],
                None => !self@.resident.contains_key(hash),
            },
    {
        self.resident.get(&hash)
    }

    /// Forgets `hash` as resident and as staged; a pending load is left running.
    pub fn unload(&mut self, hash: u64)
        requires
            old(self).wf(),
        ensures
            final(self).wf(),
            final(self)@ == (PipelineView {
                resident: old(self)@.resident.remove(hash),
                staged: old(self)@.staged.remove(hash),
                ..old(self)@
            }),
    {
        self.resident.remove(&hash);
        self.staged.remove(&hash);
    }

    /// Forgets `hash` in every stage and returns its resident entry, if it had one.
    pub fn remove(&mut self, hash: u64) -> (r: Option<(H, R)>)
        requires
            old(self).wf(),
        ensures
            final(self).wf(),
            !final(self)@.tracks(hash),
            match r {
                Some(e) => old(self)@.resident.contains_key(hash) && e == old(self)@.resident[hash],
                None => !old(self)@.resident.contains_key(hash),
            },
            final(self)@ == (PipelineView {
                resident: old(self)@.resident.remove(hash),
                staged: old(self)@.staged.remove(hash),
                pending: old(self)@.pending.remove(hash),
            }),
    {
        self.pending.remove(&hash);
        self.staged.remove(&hash);
        let r = self.resident.remove(&hash);
        assert(self@.staged =~= old(self)@.staged.remove(hash));
        assert(self@.pending =~= old(self)@.pending.remove(hash));
        assert(self@.resident =~= old(self)@.resident.remove(hash));
        r
    }

    /// Uploads every staged entry: for each staged hash, in no particular order,
    /// `make` turns its staged data into the resident value, and the hash becomes
    /// resident with its handle and that value. Returns the hashes in that order.
    pub fn commit_all_staged<F: Fn(&S) -> R>(&mut self, make: F) -> (r: Vec<u64>)
        requires
            old(self).wf(),
            forall|s: &S| make.requires((s,)),
        ensures
            final(self).wf(),
            r@.no_duplicates(),
            r@.to_set() == old(self)@.staged.dom(),
            final(self)@.staged == Map::<u64, (H, S)>::empty(),
            final(self)@.pending == old(self)@.pending,
            forall|k: u64| #[trigger] final(self)@.resident.contains_key(k)
                <==> old(self)@.resident.contains_key(k) || old(self)@.staged.contains_key(k),
            forall|k: u64| #[trigger] old(self)@.resident.contains_key(k)
                ==> final(self)@.resident[k] == old(self)@.resident[k],
            forall|k: u64| #[trigger] old(self)@.staged.contains_key(k) ==> ({
                let (handle, data) = old(self)@.staged[k];
                &&& final(self)@.resident[k].0 == handle
                &&& make.ensures((&data,), final(self)@.resident[k].1)
            }),
    {
        let ghost ov = self@;
        let keys = self.staged_hashes();
        let mut idx: usize = 0;
        while idx < keys.len()
            invariant
                self.wf(),
                ov == old(self)@,
                ov.stages_exclusive(),
                forall|s: &S| make.requires((s,)),
                keys@.no_duplicates(),
                keys@.to_set() == ov.staged.dom(),
                idx <= keys@.len(),
                forall|k: u64| #[trigger] self@.staged.contains_key(k)
                    <==> (ov.staged.contains_key(k) && !keys@.take(idx as int).contains(k)),
                forall|k: u64| #[trigger] self@.staged.contains_key(k) ==> self@.staged[k] == ov.staged[k],
                self@.pending == ov.pending,
                forall|k: u64| #[trigger] self@.resident.contains_key(k)
                    <==> ov.resident.contains_key(k) || (ov.staged.contains_key(k) && keys@.take(idx as int).contains(k)),
                forall|k: u64| #[trigger] ov.resident.contains_key(k) ==> self@.resident[k] == ov.resident[k],
                forall|k: u64| #[trigger] ov.staged.contains_key(k) && keys@.take(idx as int).contains(k) ==> ({
                    let (handle, data) = ov.staged[k];
                    &&& self@.resident[k].0 == handle
                    &&& make.ensures((&data,), self@.resident[k].1)
                }),
            decreases keys@.len() - idx,
        {
            let key = keys[idx];
            let ghost s0 = self@;
            let ghost prev = keys@.take(idx as int);
            let ghost next = keys@.take(idx + 1);
            proof {
                assert(next == prev.push(key));
                assert(keys@.to_set().contains(key));
                if prev.contains(key) {
                    let m = choose|m: int| 0 <= m < prev.len() && prev[m] == key;
                    assert(keys@[m] == keys@[idx as int]);
                }
                assert(s0.staged.contains_key(key));
                assert forall|k: u64| #[trigger] next.contains(k) <==> (prev.contains(k) || k == key) by {
                    if prev.contains(k) {
                        let m = choose|m: int| 0 <= m < prev.len() && prev[m] == k;
                        assert(next[m] == k);
                    }
                    if next.contains(k) {
                        let m = choose|m: int| 0 <= m < next.len() && next[m] == k;
                        if m < idx {
                            assert(prev[m] == k);
                        }
                    }
                    if k == key {
                        assert(next[idx as int] == key);
                    }
                }
            }
            let taken = self.take_staged(key);
            let (handle, data) = match taken {
                Some(entry) => entry,
                None => {
                    proof { assert(false); }
                    return keys;
                },
            };
            let value = make(&data);
            self.commit(key, handle, value);
            idx = idx + 1;
        }
        proof {
            assert(keys@.take(idx as int) =~= keys@);
            assert forall|k: u64| ov.staged.contains_key(k) implies keys@.contains(k) by {
                assert(keys@.to_set().contains(k));
            }
            assert(self@.staged =~= Map::<u64, (H, S)>::empty());
        }
        keys
    }

    /// Stores an already uploaded `value` under `hash` with `handle`: a load of
    /// `hash` still pending or staged is dropped, and the resident entry the new one
    /// replaces, if any, is returned.
    pub fn load_raw(&mut self, hash: u64, handle: H, value: R) -> (r: Option<(H, R)>)
        requires
            old(self).wf(),
        ensures
            final(self).wf(),
            match r {
                Some(e) => old(self)@.resident.contains_key(hash) && e == old(self)@.resident[hash],
                None => !old(self)@.resident.contains_key(hash),
            },
            final(self)@ == (PipelineView {
                resident: old(self)@.resident.insert(hash, (handle, value)),
                staged: old(self)@.staged.remove(hash),
                pending: old(self)@.pending.remove(hash),
            }),
            final(self)@.handle_of(hash) == Some(handle),
    {
        let replaced = self.remove(hash);
        self.insert_resident(hash, handle, value);
        proof {
            assert(self@.resident =~= old(self)@.resident.insert(hash, (handle, value)));
        }
        replaced
    }

    /// How many hashes are resident.
    pub fn resident_len(&self) -> (r: usize)
        ensures
            r == self@.resident.len(),
    {
        self.resident.len()
    }

    /// How many hashes are staged.
    pub fn staged_len(&self) -> (r: usize)
        ensures
            r == self@.staged.len(),
    {
        self.staged.len()
    }

    /// How many hashes are pending.
    pub fn pending_len(&self) -> (r: usize)
        ensures
            r == self@.pending.len(),
    {
        self.pending.len()
    }
}

} // verus!
