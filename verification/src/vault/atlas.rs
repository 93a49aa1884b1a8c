//! The bookkeeping of an atlas texture vault: textures are packed into one
//! ever-growing atlas page, and a loaded texture is identified by the pixel rect
//! it was given in that page.

use vstd::prelude::*;
use crate::packing::{PackerView, PlaceError, Rect, ShelfPacker, UVec2, after_requests, clamped, occupies, place_outcome, rects_disjoint, shelf_for};
use crate::vault::content::{AssetContent, hashes_to};
use crate::vault::handles::{Asset, Handle};
use crate::vault::load::LoadTicket;
use crate::vault::pipeline::PipelineView;
use crate::vault::slots::{SlotVault, SlotsView};

verus! {

/// A single texture placed into an atlas page.
#[derive(Clone, Copy, Debug, PartialEq, Eq, Structural)]
pub struct AtlasTextureAsset {
    pub offset_px: UVec2,
    pub size_px: UVec2,
}

impl AtlasTextureAsset {
    /// The pixel offset of the texture in the atlas page.
    pub fn offset_px(&self) -> (r: UVec2)
        ensures
            r == self.offset_px,
    {
        self.offset_px
    }

    /// The pixel size of the texture.
    pub fn size_px(&self) -> (r: UVec2)
        ensures
            r == self.size_px,
    {
        self.size_px
    }
}

/// The pixel rect of a placed texture.
pub open spec fn asset_rect(a: AtlasTextureAsset) -> Rect {
    Rect { x: a.offset_px.x as int, y: a.offset_px.y as int, w: a.size_px.x as int, h: a.size_px.y as int }
}

/// Textures never overlap: in a well-formed atlas vault, the rects of any two
/// uploaded textures share no pixel.
pub proof fn lemma_atlas_textures_disjoint<H, P>(state: AtlasVaultState<H, P>, i: int, j: int)
    requires
        state.wf(),
        0 <= i < state.vault_slots()@.assets.len(),
        0 <= j < state.vault_slots()@.assets.len(),
        i != j,
    ensures
        rects_disjoint(asset_rect(state.vault_slots()@.assets[i]), asset_rect(state.vault_slots()@.assets[j])),
{
}

/// What the renderer has to do on the GPU after a staged texture was placed.
pub struct AtlasUpload<P> {
    /// The decoded pixels, to be written at `offset` in the page.
    pub payload: P,
    /// Where the texture was placed.
    pub offset: UVec2,
    /// The texture's size in pixels.
    pub size: UVec2,
    /// The page's new size, when placing the texture grew it.
    pub grew: Option<UVec2>,
    /// The page's size after placement.
    pub page: UVec2,
    /// The slot the texture occupies.
    pub index: usize,
}

/// The page action [`page_action`] decides.
pub open spec fn page_action_after(page_exists: bool, grew: Option<UVec2>, page: UVec2) -> PageAction {
    if !page_exists {
        PageAction::Create(page)
    } else {
        match grew {
            Some(size) => PageAction::Grow(size),
            None => PageAction::Keep,
        }
    }
}

/// What one staged texture's turn in an atlas update gave: its hash, and either
/// the page action and upload of its placement or why it could not be placed.
pub type StagedOutcome<P> = (u64, Result<(PageAction, AtlasUpload<P>), PlaceError>);

/// Where a `size` texture goes when placed into a packer in state `v`: its offset,
/// the page's new size if placing it grew the page, and the page's size after; or
/// the error placing it gives.
pub open spec fn placement(v: PackerView, size: UVec2, max_dim: u32) -> Result<(UVec2, Option<UVec2>, UVec2), PlaceError> {
    if size.x > max_dim || size.y > max_dim {
        Err(PlaceError::ExceedsMaxDimension { width: size.x, height: size.y, max_dim })
    } else {
        let (next, placed) = place_outcome(v, size.x as nat, size.y as nat, max_dim as nat);
        let s = shelf_for(clamped(v, max_dim as nat), size.x as nat);
        if placed {
            Ok((
                UVec2 { x: s.cursor_x as u32, y: s.shelf_y as u32 },
                if next.width == s.width && next.height == s.height {
                    None
                } else {
                    Some(UVec2 { x: next.width as u32, y: next.height as u32 })
                },
                UVec2 { x: next.width as u32, y: next.height as u32 },
            ))
        } else {
            Err(PlaceError::PageFull { width: size.x, height: size.y, max_dim })
        }
    }
}

/// The placement requests the outcomes stand for, in order: each staged
/// texture's size with `max_dim`.
pub open spec fn requests_of<H, P>(
    staged: Map<u64, (H, (P, UVec2))>,
    outs: Seq<StagedOutcome<P>>,
    max_dim: u32,
) -> Seq<(nat, nat, nat)> {
    outs.map_values(|o: StagedOutcome<P>| (staged[o.0].1.1.x as nat, staged[o.0].1.1.y as nat, max_dim as nat))
}

/// How many of the outcomes are placements.
pub open spec fn placed_count<P>(outs: Seq<StagedOutcome<P>>) -> nat
    decreases outs.len(),
{
    if outs.len() == 0 {
        0
    } else {
        placed_count(outs.drop_last()) + if outs.last().1 is Ok { 1nat } else { 0nat }
    }
}

/// The hashes of the outcomes, in order.
pub open spec fn outcome_hashes<P>(outs: Seq<StagedOutcome<P>>) -> Seq<u64> {
    outs.map_values(|o: StagedOutcome<P>| o.0)
}

/// Outcome `t` of an update that started from slots `before` and packer state
/// `page`, and left the slots `after`: its texture was staged, and it was placed
/// exactly where the packer, in the state the earlier outcomes left it, places it
/// (taking the next slot and becoming resident there), or it failed with the
/// packer's error and is no longer tracked.
pub open spec fn outcome_follows_packer<H, P>(
    before: SlotsView<H, (P, UVec2), AtlasTextureAsset>,
    page: PackerView,
    after: SlotsView<H, (P, UVec2), AtlasTextureAsset>,
    outs: Seq<StagedOutcome<P>>,
    t: int,
    max_dim: u32,
    page_exists: bool,
) -> bool {
    let (hash, out) = outs[t];
    let (handle, (payload, size)) = before.pipeline.staged[hash];
    let earlier = outs.take(t);
    let v = after_requests(page, requests_of(before.pipeline.staged, earlier, max_dim));
    &&& before.pipeline.staged.contains_key(hash)
    &&& match placement(v, size, max_dim) {
        Ok((offset, grew, new_page)) => out matches Ok((action, u)) && {
            &&& u.payload == payload
            &&& u.offset == offset
            &&& u.size == size
            &&& u.grew == grew
            &&& u.page == new_page
            &&& u.index == before.assets.len() + placed_count(earlier)
            &&& action == page_action_after(page_exists || placed_count(earlier) > 0, grew, new_page)
            &&& after.assets[u.index as int] == (AtlasTextureAsset { offset_px: offset, size_px: size })
            &&& after.pipeline.resident.contains_key(hash)
            &&& after.pipeline.resident[hash] == (handle, u.index)
        },
        Err(e) => out == Err::<(PageAction, AtlasUpload<P>), PlaceError>(e) && !after.pipeline.tracks(hash),
    }
}

/// What to do with the atlas page texture on the GPU after a placement.
#[derive(Clone, Copy, Debug, PartialEq, Eq, Structural)]
pub enum PageAction {
    /// No page exists yet: create one of this size; there is nothing to copy.
    Create(UVec2),
    /// The page grew: create one of this size and copy the old page's content into it.
    Grow(UVec2),
    /// Keep the current page.
    Keep,
}

/// Decides what happens to the page texture after a placement into a page of
/// size `page`: the first placement creates the page at its current (possibly
/// already grown) size; a later placement that grew the page moves the content
/// to a page of the grown size; otherwise the page is kept.
pub fn page_action(page_exists: bool, grew: Option<UVec2>, page: UVec2) -> (r: PageAction)
    ensures
        !page_exists ==> r == PageAction::Create(page),
        page_exists ==> r == (match grew {
            Some(size) => PageAction::Grow(size),
            None => PageAction::Keep,
        }),
{
    if !page_exists {
        PageAction::Create(page)
    } else {
        match grew {
            Some(size) => PageAction::Grow(size),
            None => PageAction::Keep,
        }
    }
}

/// The state of an atlas texture vault: its load pipeline (staged entries carry
/// the decoded pixels and their size) and the shelf packer of its page.
pub struct AtlasVaultState<H, P> {
    slots: SlotVault<H, (P, UVec2), AtlasTextureAsset>,
    packer: ShelfPacker,
}

/// Starting size (both dimensions) of a vault's atlas page, before any growth.
pub const INITIAL_ATLAS_SIZE: u32 = 1024;

impl<H, P> AtlasVaultState<H, P> {
    pub closed spec fn vault_slots(&self) -> SlotVault<H, (P, UVec2), AtlasTextureAsset> {
        self.slots
    }

    pub closed spec fn packer_view(&self) -> PackerView {
        self.packer@
    }

    /// Well-formedness: the slots are well-formed, and the textures' rects lie in
    /// the part of the page the packer has handed out and never overlap.
    pub open spec fn wf(&self) -> bool {
        &&& self.vault_slots().wf()
        &&& forall|i: int| 0 <= i < self.vault_slots()@.assets.len()
            ==> occupies(self.packer_view(), #[trigger] asset_rect(self.vault_slots()@.assets[i]))
        &&& forall|i: int, j: int| 0 <= i < self.vault_slots()@.assets.len() && 0 <= j < self.vault_slots()@.assets.len() && i != j
            ==> rects_disjoint(asset_rect(#[trigger] self.vault_slots()@.assets[i]), asset_rect(#[trigger] self.vault_slots()@.assets[j]))
    }

    /// An empty vault whose page starts at `INITIAL_ATLAS_SIZE` on each side.
    pub fn new() -> (r: Self)
        ensures
            r.wf(),
            r.vault_slots()@.pipeline.resident == Map::<u64, (H, usize)>::empty(),
            r.vault_slots()@.pipeline.staged == Map::<u64, (H, (P, UVec2))>::empty(),
            r.vault_slots()@.pipeline.pending == Map::<u64, H>::empty(),
            r.vault_slots()@.assets == Seq::<AtlasTextureAsset>::empty(),
            r.packer_view() == (PackerView {
                width: INITIAL_ATLAS_SIZE as nat,
                height: INITIAL_ATLAS_SIZE as nat,
                shelf_y: 0,
                shelf_height: 0,
                cursor_x: 0,
            }),
    {
        AtlasVaultState { slots: SlotVault::new(), packer: ShelfPacker::new(INITIAL_ATLAS_SIZE, INITIAL_ATLAS_SIZE) }
    }

    /// The vault's load pipeline and slots.
    pub fn slots(&self) -> (r: &SlotVault<H, (P, UVec2), AtlasTextureAsset>)
        ensures
            *r == self.vault_slots(),
    {
        &self.slots
    }

    /// Reserves `hash` as pending with `handle` unless it is already known (see
    /// [`SlotVault::begin_load`]).
    pub fn begin_load(&mut self, hash: u64, handle: H) -> (r: bool)
        requires
            old(self).wf(),
        ensures
            final(self).wf(),
            r == !old(self).vault_slots()@.pipeline.tracks(hash),
            final(self).vault_slots()@.pipeline == old(self).vault_slots()@.pipeline.after_begin_load(hash, handle),
            final(self).vault_slots()@.assets == old(self).vault_slots()@.assets,
            final(self).packer_view() == old(self).packer_view(),
    {
        self.slots.begin_load(hash, handle)
    }

    /// Records the end of the fetch/decode of `hash`: with `Some((pixels, size))`
    /// the texture is staged (see [`SlotVault::finish_load`]).
    pub fn finish_load(&mut self, hash: u64, decoded: Option<(P, UVec2)>) -> (r: bool)
        requires
            old(self).wf(),
        ensures
            final(self).wf(),
            r == old(self).vault_slots()@.pipeline.pending.contains_key(hash),
            final(self).vault_slots()@.pipeline == old(self).vault_slots()@.pipeline.after_finish_load(hash, decoded),
            final(self).vault_slots()@.assets == old(self).vault_slots()@.assets,
            final(self).packer_view() == old(self).packer_view(),
    {
        self.slots.finish_load(hash, decoded)
    }

    /// Forgets `hash` as resident and as staged; its rect in the page stays taken.
    pub fn unload(&mut self, hash: u64)
        requires
            old(self).wf(),
        ensures
            final(self).wf(),
            final(self).vault_slots()@.pipeline == (PipelineView {
                resident: old(self).vault_slots()@.pipeline.resident.remove(hash),
                staged: old(self).vault_slots()@.pipeline.staged.remove(hash),
                ..old(self).vault_slots()@.pipeline
            }),
            final(self).vault_slots()@.assets == old(self).vault_slots()@.assets,
            final(self).packer_view() == old(self).packer_view(),
    {
        self.slots.unload(hash)
    }

    /// The current size of the atlas page.
    pub fn page_size(&self) -> (r: UVec2)
        ensures
            r.x == self.packer_view().width,
            r.y == self.packer_view().height,
    {
        UVec2 { x: self.packer.width(), y: self.packer.height() }
    }

    /// Moves the staged texture `hash` into the atlas: it is taken out of the
    /// staged stage and placed in the page. On success the texture gets the next
    /// slot and `hash` becomes resident at it; when placement fails the staged
    /// entry is dropped. Returns `None` if `hash` was not staged.
    pub fn upload_staged(&mut self, hash: u64, max_dim: u32) -> (r: Option<Result<AtlasUpload<P>, PlaceError>>)
        requires
            old(self).wf(),
        ensures
            final(self).wf(),
            !old(self).vault_slots()@.pipeline.staged.contains_key(hash) ==> {
                &&& r is None
                &&& final(self).vault_slots()@ == old(self).vault_slots()@
                &&& final(self).packer_view() == old(self).packer_view()
            },
            old(self).vault_slots()@.pipeline.staged.contains_key(hash) ==> ({
                let (handle, (payload, size)) = old(self).vault_slots()@.pipeline.staged[hash];
                let v = old(self).packer_view();
                let too_large = size.x > max_dim || size.y > max_dim;
                let (next, placed) = place_outcome(v, size.x as nat, size.y as nat, max_dim as nat);
                let s = shelf_for(clamped(v, max_dim as nat), size.x as nat);
                let taken = PipelineView { staged: old(self).vault_slots()@.pipeline.staged.remove(hash), ..old(self).vault_slots()@.pipeline };
                &&& r is Some
                &&& too_large ==> {
                    &&& r == Some(Err::<AtlasUpload<P>, PlaceError>(PlaceError::ExceedsMaxDimension {
                        width: size.x, height: size.y, max_dim }))
                    &&& final(self).packer_view() == v
                    &&& final(self).vault_slots()@.pipeline == taken
                    &&& final(self).vault_slots()@.assets == old(self).vault_slots()@.assets
                }
                &&& !too_large && !placed ==> {
                    &&& r == Some(Err::<AtlasUpload<P>, PlaceError>(PlaceError::PageFull {
                        width: size.x, height: size.y, max_dim }))
                    &&& final(self).packer_view() == next
                    &&& final(self).vault_slots()@.pipeline == taken
                    &&& final(self).vault_slots()@.assets == old(self).vault_slots()@.assets
                }
                &&& !too_large && placed ==> {
                    let index = old(self).vault_slots()@.assets.len();
                    let offset = UVec2 { x: s.cursor_x as u32, y: s.shelf_y as u32 };
                    let asset = AtlasTextureAsset { offset_px: offset, size_px: size };
                    &&& final(self).packer_view() == next
                    &&& final(self).vault_slots()@.assets == old(self).vault_slots()@.assets.push(asset)
                    &&& final(self).vault_slots()@.pipeline == (PipelineView {
                        resident: taken.resident.insert(hash, (handle, index as usize)),
                        ..taken
                    })
                    &&& r matches Some(Ok(u)) && {
                        &&& u.payload == payload
                        &&& u.offset == offset
                        &&& u.size == size
                        &&& u.index == index
                        &&& u.page.x == next.width && u.page.y == next.height
                        &&& u.grew == (if next.width == s.width && next.height == s.height {
                            None
                        } else {
                            Some(UVec2 { x: next.width as u32, y: next.height as u32 })
                        })
                    }
                }
            }),
    {
        let taken = self.slots.take_staged(hash);
        let (handle, (payload, size)) = match taken {
            None => {
                assert(self.slots@.pipeline.staged =~= old(self).slots@.pipeline.staged);
                assert(self.slots@ =~= old(self).slots@);
                return None;
            },
            Some(entry) => entry,
        };
        match self.packer.place(size.x, size.y, max_dim) {
            Err(e) => Some(Err(e)),
            Ok((offset, grew)) => {
                let index = self.slots.commit(hash, handle, AtlasTextureAsset { offset_px: offset, size_px: size });
                let page = UVec2 { x: self.packer.width(), y: self.packer.height() };
                Some(Ok(AtlasUpload { payload, offset, size, grew, page, index }))
            },
        }
    }
}

impl<H, P> AtlasVaultState<H, P> {
    /// Places every staged texture into the page, one after another in no
    /// particular order, and returns what each one's turn gave, in that order.
    /// Each texture is placed exactly as the packer places it in its turn; placed
    /// textures take consecutive new slots and become resident, and a texture the
    /// packer refuses is dropped with the packer's error. Each upload carries its
    /// page action: the first upload creates the page unless `page_exists`, and
    /// later ones grow or keep it. The page ends as the packer leaves it after all
    /// the requests.
    pub fn upload_all_staged(&mut self, max_dim: u32, page_exists: bool) -> (r: Vec<StagedOutcome<P>>)
        requires
            old(self).wf(),
        ensures
            final(self).wf(),
            outcome_hashes(r@).no_duplicates(),
            outcome_hashes(r@).to_set() == old(self).vault_slots()@.pipeline.staged.dom(),
            forall|t: int| 0 <= t < r@.len() ==> #[trigger] outcome_follows_packer(
                old(self).vault_slots()@, old(self).packer_view(), final(self).vault_slots()@, r@, t, max_dim, page_exists),
            final(self).packer_view() == after_requests(
                old(self).packer_view(), requests_of(old(self).vault_slots()@.pipeline.staged, r@, max_dim)),
            final(self).vault_slots()@.pipeline.staged == Map::<u64, (H, (P, UVec2))>::empty(),
            final(self).vault_slots()@.pipeline.pending == old(self).vault_slots()@.pipeline.pending,
            final(self).vault_slots()@.assets.len() == old(self).vault_slots()@.assets.len() + placed_count(r@),
            forall|i: int| 0 <= i < old(self).vault_slots()@.assets.len()
                ==> #[trigger] final(self).vault_slots()@.assets[i] == old(self).vault_slots()@.assets[i],
            forall|k: u64| #[trigger] old(self).vault_slots()@.pipeline.resident.contains_key(k)
                ==> final(self).vault_slots()@.pipeline.resident.contains_key(k)
                    && final(self).vault_slots()@.pipeline.resident[k] == old(self).vault_slots()@.pipeline.resident[k],
            forall|k: u64| #[trigger] final(self).vault_slots()@.pipeline.resident.contains_key(k) ==>
                old(self).vault_slots()@.pipeline.resident.contains_key(k)
                    || old(self).vault_slots()@.pipeline.staged.contains_key(k),
    {
        let ghost ov = self.slots@;
        let ghost opk = self.packer@;
        let keys = self.slots.staged_hashes();
        let mut outs: Vec<StagedOutcome<P>> = Vec::new();
        let mut exists = page_exists;
        let mut idx: usize = 0;
        while idx < keys.len()
            invariant
                self.wf(),
                ov == old(self).vault_slots()@,
                opk == old(self).packer_view(),
                keys@.no_duplicates(),
                keys@.to_set() == ov.pipeline.staged.dom(),
                idx <= keys@.len(),
                outs@.len() == idx,
                outcome_hashes(outs@) == keys@.take(idx as int),
                exists == (page_exists || placed_count(outs@) > 0),
                forall|k: u64| #[trigger] self.slots@.pipeline.staged.contains_key(k)
                    <==> (ov.pipeline.staged.contains_key(k) && !keys@.take(idx as int).contains(k)),
                forall|k: u64| #[trigger] self.slots@.pipeline.staged.contains_key(k)
                    ==> self.slots@.pipeline.staged[k] == ov.pipeline.staged[k],
                self.slots@.pipeline.pending == ov.pipeline.pending,
                self.packer@ == after_requests(opk, requests_of(ov.pipeline.staged, outs@, max_dim)),
                self.slots@.assets.len() == ov.assets.len() + placed_count(outs@),
                forall|i: int| 0 <= i < ov.assets.len() ==> #[trigger] self.slots@.assets[i] == ov.assets[i],
                forall|k: u64| #[trigger] ov.pipeline.resident.contains_key(k)
                    ==> self.slots@.pipeline.resident.contains_key(k)
                        && self.slots@.pipeline.resident[k] == ov.pipeline.resident[k],
                forall|k: u64| #[trigger] self.slots@.pipeline.resident.contains_key(k)
                    ==> ov.pipeline.resident.contains_key(k) || (ov.pipeline.staged.contains_key(k) && keys@.take(idx as int).contains(k)),
                forall|t: int| 0 <= t < outs@.len() ==> #[trigger] outcome_follows_packer(
                    ov, opk, self.slots@, outs@, t, max_dim, page_exists),
            decreases keys@.len() - idx,
        {
            let key = keys[idx];
            let ghost s0 = self.slots@;
            let ghost o0 = outs@;
            let ghost prev = keys@.take(idx as int);
            let ghost next = keys@.take(idx + 1);
            proof {
                assert(next == prev.push(key));
                assert(keys@.to_set().contains(key));
                if prev.contains(key) {
                    let m = choose|m: int| 0 <= m < prev.len() && prev[m] == key;
                    assert(keys@[m] == keys@[idx as int]);
                }
                assert(s0.pipeline.staged.contains_key(key));
                assert forall|k: u64| prev.contains(k) implies next.contains(k) by {
                    let m = choose|m: int| 0 <= m < prev.len() && prev[m] == k;
                    assert(next[m] == k);
                }
                assert(next[idx as int] == key);
                assert forall|t: int| 0 <= t < o0.len() implies #[trigger] o0[t].0 != key by {
                    assert(outcome_hashes(o0)[t] == prev[t]);
                }
            }
            let result = self.upload_staged(key, max_dim);
            let outcome: Result<(PageAction, AtlasUpload<P>), PlaceError> = match result {
                Some(Ok(u)) => {
                    let action = page_action(exists, u.grew, u.page);
                    exists = true;
                    Ok((action, u))
                },
                Some(Err(e)) => Err(e),
                None => {
                    proof { assert(false); }
                    Err(PlaceError::PageFull { width: 0, height: 0, max_dim })
                },
            };
            outs.push((key, outcome));
            proof {
                let o1 = outs@;
                let st = ov.pipeline.staged;
                let size = st[key].1.1;
                let req = (size.x as nat, size.y as nat, max_dim as nat);
                assert(o1.drop_last() =~= o0);
                assert(o1.take(idx as int) =~= o0);
                assert(requests_of(st, o1, max_dim) =~= requests_of(st, o0, max_dim).push(req));
                assert(requests_of(st, o1, max_dim).drop_last() =~= requests_of(st, o0, max_dim));
                assert(outcome_hashes(o1) =~= next);
                assert forall|t: int| 0 <= t < o0.len() implies #[trigger] o1.take(t) =~= o0.take(t) by {}
                assert forall|t: int| 0 <= t < o1.len() implies #[trigger] outcome_follows_packer(
                    ov, opk, self.slots@, o1, t, max_dim, page_exists) by {
                    if t < o0.len() {
                        assert(o1[t] == o0[t]);
                        assert(o1.take(t) =~= o0.take(t));
                        assert(outcome_follows_packer(ov, opk, s0, o0, t, max_dim, page_exists));
                    } else {
                        assert(o1[t] == (key, outcome));
                    }
                }
            }
            idx = idx + 1;
        }
        proof {
            assert(keys@.take(idx as int) =~= keys@);
            assert forall|k: u64| ov.pipeline.staged.contains_key(k) implies keys@.contains(k) by {
                assert(keys@.to_set().contains(k));
            }
            assert(self.slots@.pipeline.staged =~= Map::<u64, (H, (P, UVec2))>::empty());
        }
        outs
    }
}

impl<T: Asset, P> AtlasVaultState<Handle<T>, P> {
    /// Loads `content` (see [`LoadPipeline::load`](crate::vault::pipeline::LoadPipeline::load));
    /// the slots and the page are left as they are.
    pub fn load<F: FnOnce(u64) -> Handle<T>>(&mut self, content: &AssetContent, make_handle: F) -> (r: LoadTicket<Handle<T>>)
        requires
            old(self).wf(),
            forall|h: u64| make_handle.requires((h,)),
        ensures
            final(self).wf(),
            r.started == !old(self).vault_slots()@.pipeline.tracks(r.hash),
            !r.started ==> final(self).vault_slots()@ == old(self).vault_slots()@,
            r.started ==> make_handle.ensures((r.hash,), r.handle),
            final(self).vault_slots()@.pipeline == old(self).vault_slots()@.pipeline.after_begin_load(r.hash, r.handle),
            final(self).vault_slots()@.pipeline.handle_of(r.hash) == Some(r.handle),
            final(self).vault_slots()@.assets == old(self).vault_slots()@.assets,
            final(self).packer_view() == old(self).packer_view(),
            hashes_to(*content, r.hash),
            (forall|k: u64| #[trigger] old(self).vault_slots()@.pipeline.tracks(k) ==> !hashes_to(*content, k)) ==> r.started,
    {
        self.slots.load(content, make_handle)
    }
}

} // verus!
