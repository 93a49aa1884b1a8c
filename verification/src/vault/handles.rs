//! Assets, the vaults that store them, and the reference-counted handles that
//! keep a loaded asset alive.

use std::marker::PhantomData;
use std::sync::Arc;
use vstd::prelude::*;
use crate::vault::content::AssetContent;

verus! {

/// A type of asset that can be loaded into and unloaded from an [`AssetVault`].
///
/// Implementors define how many outstanding [`Handle`]s are needed to keep the
/// asset alive (`unload_threshold`) and what happens when that threshold is
/// crossed (`unload`).
pub trait Asset: Sized + 'static {
    type Vault;
    type HandleTracker;

    fn unload_threshold() -> usize;

    fn unload(tracker: &Self::HandleTracker);
}

/// A store that owns and manages the lifecycle of a single [`Asset`] type.
///
/// A vault deduplicates loads of identical content and hands out reference-counted
/// [`Handle`]s; assets are unloaded once their handle count drops to or below
/// [`Asset::unload_threshold`].
pub trait AssetVault: Sized + 'static {
    type Asset: Asset;
    type LoadType;
    type LoadResult;
    type LoadError;
    type Lookup;
    type LookupResult;

    /// Returns the loaded asset data for `handle`, if it is currently loaded.
    fn get(&self, handle: &Self::Lookup) -> Option<Self::LookupResult>;

    /// Loads (or looks up an existing handle for) the asset described by `content`.
    fn load(&self, content: AssetContent, ty: Self::LoadType) -> Result<Self::LoadResult, Self::LoadError>;
}

/// The data tracked by a [`Handle`]: the vault-defined [`Asset::HandleTracker`]
/// used to locate and unload the asset, plus a marker tying the handle to its
/// asset type.
pub struct HandleInner<T: Asset> {
    pub inner: T::HandleTracker,
    pub _phantom: PhantomData<T>,
}

/// A cheap-to-clone, reference-counted handle to an asset loaded in its
/// [`AssetVault`].
///
/// Cloning a handle increments its reference count; releasing a clone with
/// [`Handle::release`] while no more than [`Asset::unload_threshold`] clones remain
/// (the released one included) triggers [`Asset::unload`] for the underlying asset.
pub struct Handle<T: Asset>(pub Arc<HandleInner<T>>);

/// `Arc::clone`: another pointer to the same allocation, so the clone holds the
/// same value.
#[verifier::external_body]
fn arc_clone<V>(a: &Arc<V>) -> (r: Arc<V>)
    ensures
        r == *a,
{
    Arc::clone(a)
}

/// `Arc::strong_count`: how many strong pointers to the allocation exist right
/// now. Nothing is stated of the number, which depends on every clone alive in
/// the process.
#[verifier::external_body]
fn arc_strong_count<V>(a: &Arc<V>) -> usize {
    Arc::strong_count(a)
}

/// Whether dropping a handle while `remaining` handles exist (the dropped one
/// included) unloads its asset: it does once no more than `threshold` remain.
pub fn releases_asset(remaining: usize, threshold: usize) -> (r: bool)
    ensures
        r == (remaining <= threshold),
{
    remaining <= threshold
}

impl<T: Asset> Handle<T> {
    /// A new handle, the first for the asset that `inner` tracks.
    pub fn new(inner: T::HandleTracker) -> (r: Self)
        ensures
            r.0.inner == inner,
    {
        Handle(Arc::new(HandleInner { inner, _phantom: PhantomData }))
    }

    /// The tracker the handle was made with.
    pub fn inner(&self) -> (r: &T::HandleTracker)
        ensures
            *r == self.0.inner,
    {
        &self.0.inner
    }

    /// Drops this handle and, when no more than [`Asset::unload_threshold`]
    /// handles remain (this one included), unloads its asset. Returns whether it
    /// unloaded: exactly when the strong count it read for the handle is at most
    /// the threshold the asset type gave, in which case `Asset::unload` was called
    /// with the handle's tracker.
    pub fn release(self) -> (unloaded: bool)
        ensures
            exists|remaining: usize, threshold: usize|
                #[trigger] count_read(self, remaining) && #[trigger] threshold_read::<T>(threshold)
                    && unloaded == (remaining <= threshold),
            unloaded ==> call_ensures(T::unload, (&self.0.inner,), ()),
    {
        let read_count = arc_strong_count::<HandleInner<T>>;
        let remaining = read_count(&self.0);
        let read_threshold = T::unload_threshold;
        let threshold = read_threshold();
        let unloaded = releases_asset(remaining, threshold);
        proof {
            assert(count_read(self, remaining));
            assert(threshold_read::<T>(threshold));
        }
        if unloaded {
            let unload = T::unload;
            unload(&self.0.inner);
        }
        unloaded
    }
}

/// `n` is a strong count `Arc::strong_count` can read for the handle's allocation.
pub closed spec fn count_read<T: Asset>(handle: Handle<T>, n: usize) -> bool {
    call_ensures(arc_strong_count::<HandleInner<T>>, (&handle.0,), n)
}

/// `t` is a threshold `T::unload_threshold` can return.
pub open spec fn threshold_read<T: Asset>(t: usize) -> bool {
    call_ensures(T::unload_threshold, (), t)
}

impl<T: Asset> Clone for Handle<T> {
    fn clone(&self) -> (r: Self)
        ensures
            r == *self,
    {
        Handle(arc_clone(&self.0))
    }
}

} // verus!
