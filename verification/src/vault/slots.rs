//! A load pipeline whose resident assets live in an append-only array of slots,
//! as texture vaults keep them: a resident hash maps to its slot index.

use vstd::prelude::*;
use crate::vault::content::{AssetContent, hashes_to};
use crate::vault::handles::{Asset, Handle};
use crate::vault::load::LoadTicket;
use crate::vault::pipeline::{LoadPipeline, PipelineView};

verus! {

/// The abstract state of a [`SlotVault`].
#[verifier::ext_equal]
pub struct SlotsView<H, S, A> {
    pub pipeline: PipelineView<H, S, usize>,
    pub assets: Seq<A>,
}

impl<H, S, A> SlotsView<H, S, A> {
    /// The asset a resident `hash` refers to, if the hash is resident.
    pub open spec fn asset_of(self, hash: u64) -> Option<A> {
        if self.pipeline.resident.contains_key(hash) {
            Some(self.assets[self.pipeline.resident[hash].1 as int])
        } else {
            None
        }
    }
}

/// A load pipeline plus the array of uploaded assets its resident entries index.
pub struct SlotVault<H, S, A> {
    pipeline: LoadPipeline<H, S, usize>,
    assets: Vec<A>,
}

impl<H, S, A> View for SlotVault<H, S, A> {
    type V = SlotsView<H, S, A>;

    closed spec fn view(&self) -> SlotsView<H, S, A> {
        SlotsView { pipeline: self.pipeline@, assets: self.assets@ }
    }
}

impl<H, S, A> SlotVault<H, S, A> {
    /// Well-formedness: the stages are exclusive and every resident slot index
    /// names an uploaded asset.
    pub open spec fn wf(&self) -> bool {
        &&& self@.pipeline.stages_exclusive()
        &&& forall|k: u64| #[trigger] self@.pipeline.resident.contains_key(k)
            ==> self@.pipeline.resident[k].1 < self@.assets.len()
    }

    /// An empty vault.
    pub fn new() -> (r: Self)
        ensures
            r.wf(),
            r@.pipeline.resident == Map::<u64, (H, usize)>::empty(),
            r@.pipeline.staged == Map::<u64, (H, S)>::empty(),
            r@.pipeline.pending == Map::<u64, H>::empty(),
            r@.assets == Seq::<A>::empty(),
    {
        SlotVault { pipeline: LoadPipeline::new(), assets: Vec::new() }
    }

    /// The handle already recorded for `hash`, if any (resident, then staged, then pending).
    pub fn find(&self, hash: u64) -> (r: Option<&H>)
        ensures
            match r {
                Some(h) => self@.pipeline.handle_of(hash) == Some(*h),
                None => self@.pipeline.handle_of(hash) is None,
            },
    {
        self.pipeline.find(hash)
    }

    /// Whether `hash` is in any stage.
    pub fn tracks(&self, hash: u64) -> (r: bool)
        ensures
            r == self@.pipeline.tracks(hash),
    {
        self.pipeline.tracks(hash)
    }

    /// Reserves `hash` as pending with `handle` unless it is already known; returns
    /// whether it was reserved.
    pub fn begin_load(&mut self, hash: u64, handle: H) -> (r: bool)
        requires
            old(self).wf(),
        ensures
            final(self).wf(),
            r == !old(self)@.pipeline.tracks(hash),
            final(self)@.pipeline == old(self)@.pipeline.after_begin_load(hash, handle),
            final(self)@.assets == old(self)@.assets,
    {
        self.pipeline.begin_load(hash, handle)
    }

    /// Records the end of the fetch/decode of `hash` (see [`LoadPipeline::finish_load`]).
    pub fn finish_load(&mut self, hash: u64, decoded: Option<S>) -> (r: bool)
        requires
            old(self).wf(),
        ensures
            final(self).wf(),
            r == old(self)@.pipeline.pending.contains_key(hash),
            final(self)@.pipeline == old(self)@.pipeline.after_finish_load(hash, decoded),
            final(self)@.assets == old(self)@.assets,
    {
        self.pipeline.finish_load(hash, decoded)
    }

    /// Every staged hash, once each, in no particular order.
    pub fn staged_hashes(&self) -> (r: Vec<u64>)
        ensures
            r@.to_set() == self@.pipeline.staged.dom(),
            r@.no_duplicates(),
    {
        self.pipeline.staged_hashes()
    }

    /// Removes and returns the staged entry for `hash`, if there is one.
    pub fn take_staged(&mut self, hash: u64) -> (r: Option<(H, S)>)
        requires
            old(self).wf(),
        ensures
            final(self).wf(),
            match r {
                Some(e) => old(self)@.pipeline.staged.contains_key(hash) && e == old(self)@.pipeline.staged[hash],
                None => !old(self)@.pipeline.staged.contains_key(hash),
            },
            final(self)@.pipeline == (PipelineView { staged: old(self)@.pipeline.staged.remove(hash), ..old(self)@.pipeline }),
            final(self)@.assets == old(self)@.assets,
    {
        self.pipeline.take_staged(hash)
    }

    /// Appends `asset` as a new slot and makes `hash` resident at it; the hash must
    /// not be in any stage. Returns the slot index, which is the number of slots
    /// before the call.
    pub fn commit(&mut self, hash: u64, handle: H, asset: A) -> (r: usize)
        requires
            old(self).wf(),
            !old(self)@.pipeline.tracks(hash),
        ensures
            final(self).wf(),
            r == old(self)@.assets.len(),
            final(self)@.assets == old(self)@.assets.push(asset),
            final(self)@.pipeline == (PipelineView {
                resident: old(self)@.pipeline.resident.insert(hash, (handle, r)),
                ..old(self)@.pipeline
            }),
            final(self)@.asset_of(hash) == Some(asset),
    {
        let index = self.assets.len();
        self.assets.push(asset);
        self.pipeline.commit(hash, handle, index);
        index
    }

    /// The uploaded asset of a resident `hash`.
    pub fn get(&self, hash: u64) -> (r: Option<&A>)
        requires
            self.wf(),
        ensures
            match r {
                Some(a) => self@.asset_of(hash) == Some(*a),
                None => self@.asset_of(hash) is None,
            },
    {
        match self.pipeline.resident(hash) {
            Some(entry) => Some(&self.assets[entry.1]),
            None => None,
        }
    }

    /// The resident handle and slot index of `hash`, if it is resident.
    pub fn resident(&self, hash: u64) -> (r: Option<&(H, usize)>)
        ensures
            match r {
                Some(e) => self@.pipeline.resident.contains_key(hash) && *e == self@.pipeline.resident[hash],
                None => !self@.pipeline.resident.contains_key(hash),
            },
    {
        self.pipeline.resident(hash)
    }

    /// Forgets `hash` as resident and as staged; its slot stays occupied and a
    /// pending load is left running.
    pub fn unload(&mut self, hash: u64)
        requires
            old(self).wf(),
        ensures
            final(self).wf(),
            final(self)@.pipeline == (PipelineView {
                resident: old(self)@.pipeline.resident.remove(hash),
                staged: old(self)@.pipeline.staged.remove(hash),
                ..old(self)@.pipeline
            }),
            final(self)@.assets == old(self)@.assets,
    {
        self.pipeline.unload(hash)
    }

    /// Uploads every staged entry: for each staged hash, in no particular order,
    /// `make` turns its staged data and the slot index it gets into the asset, which
    /// takes the next slot, and the hash becomes resident there. Returns the hashes
    /// in the order they took their slots.
    pub fn commit_all_staged<F: Fn(&S, usize) -> A>(&mut self, make: F) -> (r: Vec<u64>)
        requires
            old(self).wf(),
            forall|s: &S, i: usize| make.requires((s, i)),
        ensures
            final(self).wf(),
            r@.no_duplicates(),
            r@.to_set() == old(self)@.pipeline.staged.dom(),
            final(self)@.pipeline.staged == Map::<u64, (H, S)>::empty(),
            final(self)@.pipeline.pending == old(self)@.pipeline.pending,
            final(self)@.assets.len() == old(self)@.assets.len() + r@.len(),
            forall|i: int| 0 <= i < old(self)@.assets.len() ==> #[trigger] final(self)@.assets[i] == old(self)@.assets[i],
            forall|t: int| 0 <= t < r@.len() ==> ({
                let (handle, data) = old(self)@.pipeline.staged[#[trigger] r@[t]];
                let index = old(self)@.assets.len() + t;
                &&& final(self)@.pipeline.resident.contains_key(r@[t])
                &&& final(self)@.pipeline.resident[r@[t]] == (handle, index as usize)
                &&& make.ensures((&data, index as usize), final(self)@.assets[index])
            }),
            forall|k: u64| #[trigger] old(self)@.pipeline.resident.contains_key(k)
                ==> final(self)@.pipeline.resident.contains_key(k)
                    && final(self)@.pipeline.resident[k] == old(self)@.pipeline.resident[k],
            forall|k: u64| #[trigger] final(self)@.pipeline.resident.contains_key(k) ==>
                old(self)@.pipeline.resident.contains_key(k) || old(self)@.pipeline.staged.contains_key(k),
    {
        let ghost ov = self@;
        let keys = self.staged_hashes();
        let mut idx: usize = 0;
        while idx < keys.len()
            invariant
                self.wf(),
                ov == old(self)@,
                forall|s: &S, i: usize| make.requires((s, i)),
                keys@.no_duplicates(),
                keys@.to_set() == ov.pipeline.staged.dom(),
                idx <= keys@.len(),
                forall|k: u64| #[trigger] self@.pipeline.staged.contains_key(k)
                    <==> (ov.pipeline.staged.contains_key(k) && !keys@.take(idx as int).contains(k)),
                forall|k: u64| #[trigger] self@.pipeline.staged.contains_key(k)
                    ==> self@.pipeline.staged[k] == ov.pipeline.staged[k],
                self@.pipeline.pending == ov.pipeline.pending,
                self@.assets.len() == ov.assets.len() + idx,
                forall|i: int| 0 <= i < ov.assets.len() ==> #[trigger] self@.assets[i] == ov.assets[i],
                forall|t: int| 0 <= t < idx ==> ({
                    let (handle, data) = ov.pipeline.staged[#[trigger] keys@[t]];
                    let index = ov.assets.len() + t;
                    &&& self@.pipeline.resident.contains_key(keys@[t])
                    &&& self@.pipeline.resident[keys@[t]] == (handle, index as usize)
                    &&& make.ensures((&data, index as usize), self@.assets[index])
                }),
                forall|k: u64| #[trigger] ov.pipeline.resident.contains_key(k)
                    ==> self@.pipeline.resident.contains_key(k)
                        && self@.pipeline.resident[k] == ov.pipeline.resident[k],
                forall|k: u64| #[trigger] self@.pipeline.resident.contains_key(k)
                    ==> ov.pipeline.resident.contains_key(k) || (ov.pipeline.staged.contains_key(k) && keys@.take(idx as int).contains(k)),
            decreases keys@.len() - idx,
        {
            let key = keys[idx];
            let ghost s0 = self@;
            let ghost prev = keys@.take(idx as int);
            let ghost next = keys@.take(idx + 1);
            proof {
                assert(next == prev.push(key));
                assert(keys@.to_set().contains(key));
                if prev.contains(key) {
                    let m = choose|m: int| 0 <= m < prev.len() && prev[m] == key;
                    assert(keys@[m] == keys@[idx as int]);
                }
                assert(s0.pipeline.staged.contains_key(key));
                assert forall|k: u64| prev.contains(k) implies next.contains(k) by {
                    let m = choose|m: int| 0 <= m < prev.len() && prev[m] == k;
                    assert(next[m] == k);
                }
                assert(next[idx as int] == key);
                assert forall|t: int| 0 <= t < idx implies #[trigger] keys@[t] != key by {
                    assert(keys@[t] == prev[t]);
                }
            }
            let taken = self.take_staged(key);
            let (handle, data) = match taken {
                Some(entry) => entry,
                None => {
                    proof { assert(false); }
                    return keys;
                },
            };
            let index = self.assets.len();
            let asset = make(&data, index);
            let ghost a = asset;
            self.commit(key, handle, asset);
            proof {
                assert(self@.assets[index as int] == a);
            }
            idx = idx + 1;
        }
        proof {
            assert(keys@.take(idx as int) =~= keys@);
            assert forall|k: u64| ov.pipeline.staged.contains_key(k) implies keys@.contains(k) by {
                assert(keys@.to_set().contains(k));
            }
            assert(self@.pipeline.staged =~= Map::<u64, (H, S)>::empty());
        }
        keys
    }

    /// How many slots have been filled.
    pub fn asset_count(&self) -> (r: usize)
        ensures
            r == self@.assets.len(),
    {
        self.assets.len()
    }

    /// How many hashes are resident.
    pub fn resident_len(&self) -> (r: usize)
        ensures
            r == self@.pipeline.resident.len(),
    {
        self.pipeline.resident_len()
    }

    /// How many hashes are staged.
    pub fn staged_len(&self) -> (r: usize)
        ensures
            r == self@.pipeline.staged.len(),
    {
        self.pipeline.staged_len()
    }

    /// How many hashes are pending.
    pub fn pending_len(&self) -> (r: usize)
        ensures
            r == self@.pipeline.pending.len(),
    {
        self.pipeline.pending_len()
    }
}

impl<T: Asset, S, A> SlotVault<Handle<T>, S, A> {
    /// Loads `content` into the pipeline (see [`LoadPipeline::load`]); the slots
    /// are left as they are.
    pub fn load<F: FnOnce(u64) -> Handle<T>>(&mut self, content: &AssetContent, make_handle: F) -> (r: LoadTicket<Handle<T>>)
        requires
            old(self).wf(),
            forall|h: u64| make_handle.requires((h,)),
        ensures
            final(self).wf(),
            r.started == !old(self)@.pipeline.tracks(r.hash),
            !r.started ==> final(self)@ == old(self)@,
            r.started ==> make_handle.ensures((r.hash,), r.handle),
            final(self)@.pipeline == old(self)@.pipeline.after_begin_load(r.hash, r.handle),
            final(self)@.pipeline.handle_of(r.hash) == Some(r.handle),
            final(self)@.assets == old(self)@.assets,
            hashes_to(*content, r.hash),
            (forall|k: u64| #[trigger] old(self)@.pipeline.tracks(k) ==> !hashes_to(*content, k)) ==> r.started,
    {
        self.pipeline.load(content, make_handle)
    }
}


} // verus!
