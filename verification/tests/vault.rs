use std::sync::atomic::{AtomicUsize, Ordering};
use std::sync::Arc;

use gearbox::{
    check_bindable, needs_bind_group_rebuild, releases_asset, Asset, AssetContent, AtlasVaultState, BindError,
    Handle, LoadPipeline, PageAction, PlaceError, SlotVault, UVec2, INITIAL_ATLAS_SIZE,
};

#[test]
fn pipeline_moves_a_hash_through_the_stages() {
    let mut p: LoadPipeline<u32, &str, usize> = LoadPipeline::new();
    assert!(p.begin_load(7, 100));
    assert_eq!(p.find(7), Some(&100));
    assert_eq!((p.pending_len(), p.staged_len(), p.resident_len()), (1, 0, 0));

    assert!(p.finish_load(7, Some("decoded")));
    assert_eq!((p.pending_len(), p.staged_len(), p.resident_len()), (0, 1, 0));
    assert_eq!(p.staged_hashes(), vec![7]);

    let (handle, data) = p.take_staged(7).unwrap();
    assert_eq!((handle, data), (100, "decoded"));
    assert!(!p.tracks(7));
    p.commit(7, handle, 3);
    assert_eq!(p.resident(7), Some(&(100, 3)));
    assert_eq!(p.find(7), Some(&100));
}

#[test]
fn pipeline_deduplicates_loads_of_a_known_hash() {
    let mut p: LoadPipeline<u32, &str, usize> = LoadPipeline::new();
    assert!(p.begin_load(1, 10));
    // a second load before the first finished joins it
    assert!(!p.begin_load(1, 11));
    assert_eq!(p.find(1), Some(&10));
    assert_eq!(p.pending_len(), 1);
    // still joined once staged
    p.finish_load(1, Some("x"));
    assert!(!p.begin_load(1, 12));
    assert_eq!(p.find(1), Some(&10));
    assert_eq!(p.pending_len() + p.staged_len(), 1);
}

#[test]
fn pipeline_forgets_a_failed_load() {
    let mut p: LoadPipeline<u32, &str, usize> = LoadPipeline::new();
    p.begin_load(5, 50);
    assert!(p.finish_load(5, None));
    assert!(!p.tracks(5));
    assert!(p.find(5).is_none());
    // finishing a load that is not pending changes nothing
    assert!(!p.finish_load(5, Some("late")));
    assert_eq!(p.staged_len(), 0);
}

#[test]
fn pipeline_unload_keeps_a_pending_load_but_remove_does_not() {
    let mut p: LoadPipeline<u32, &str, usize> = LoadPipeline::new();
    p.begin_load(1, 10);
    p.begin_load(2, 20);
    p.finish_load(2, Some("two"));
    p.unload(1);
    p.unload(2);
    assert!(p.tracks(1));
    assert!(!p.tracks(2));
    p.insert_resident(3, 30, 0);
    assert_eq!(p.remove(3), Some((30, 0)));
    assert_eq!(p.remove(1), None);
    assert!(!p.tracks(1) && !p.tracks(3));
}

#[test]
fn slots_hand_out_consecutive_indices() {
    let mut v: SlotVault<u32, &str, char> = SlotVault::new();
    for (hash, handle) in [(11u64, 1u32), (22, 2), (33, 3)] {
        v.begin_load(hash, handle);
        v.finish_load(hash, Some("px"));
    }
    let mut keys = v.staged_hashes();
    keys.sort();
    assert_eq!(keys, vec![11, 22, 33]);
    let (h, _) = v.take_staged(22).unwrap();
    assert_eq!(v.commit(22, h, 'b'), 0);
    let (h, _) = v.take_staged(11).unwrap();
    assert_eq!(v.commit(11, h, 'a'), 1);
    assert_eq!(v.get(22), Some(&'b'));
    assert_eq!(v.get(11), Some(&'a'));
    assert_eq!(v.get(33), None);
    assert_eq!(v.resident(11), Some(&(1, 1)));
    v.unload(22);
    assert_eq!(v.get(22), None);
    assert_eq!(v.asset_count(), 2);
}

#[test]
fn atlas_uploads_place_staged_textures_into_the_page() {
    let mut atlas: AtlasVaultState<u32, Vec<u8>> = AtlasVaultState::new();
    assert_eq!(atlas.page_size(), UVec2::new(INITIAL_ATLAS_SIZE, INITIAL_ATLAS_SIZE));
    atlas.begin_load(9, 90);
    atlas.finish_load(9, Some((vec![1, 2, 3, 4], UVec2::new(600, 10))));
    atlas.begin_load(8, 80);
    atlas.finish_load(8, Some((vec![5, 6, 7, 8], UVec2::new(600, 20))));

    let up = atlas.upload_staged(9, 8192).unwrap().unwrap();
    assert_eq!((up.offset, up.size, up.grew, up.index), (UVec2::new(0, 0), UVec2::new(600, 10), None, 0));
    assert_eq!(up.payload, vec![1, 2, 3, 4]);
    let up = atlas.upload_staged(8, 8192).unwrap().unwrap();
    assert_eq!((up.offset, up.index), (UVec2::new(0, 10), 1));
    assert_eq!(up.page, UVec2::new(1024, 1024));

    let asset = atlas.slots().get(8).unwrap();
    assert_eq!((asset.offset_px(), asset.size_px()), (UVec2::new(0, 10), UVec2::new(600, 20)));
    assert!(atlas.upload_staged(8, 8192).is_none());
}

#[test]
fn atlas_drops_a_texture_that_cannot_be_placed() {
    let mut atlas: AtlasVaultState<u32, Vec<u8>> = AtlasVaultState::new();
    atlas.begin_load(1, 10);
    atlas.finish_load(1, Some((vec![], UVec2::new(9000, 4))));
    let r = atlas.upload_staged(1, 8192).unwrap();
    assert!(matches!(r, Err(PlaceError::ExceedsMaxDimension { width: 9000, height: 4, max_dim: 8192 })));
    assert!(!atlas.slots().tracks(1));
    assert_eq!(atlas.slots().asset_count(), 0);
}

#[test]
fn atlas_upload_reports_growth() {
    let mut atlas: AtlasVaultState<u32, Vec<u8>> = AtlasVaultState::new();
    atlas.begin_load(1, 10);
    atlas.finish_load(1, Some((vec![], UVec2::new(1500, 4))));
    let up = atlas.upload_staged(1, 8192).unwrap().unwrap();
    assert_eq!(up.grew, Some(UVec2::new(2048, 2048)));
    assert_eq!(up.page, UVec2::new(2048, 2048));
    assert_eq!(atlas.page_size(), UVec2::new(2048, 2048));
}

#[test]
fn binding_rules() {
    assert_eq!(check_bindable(0, true), Err(BindError::NoLoadedTextures));
    assert_eq!(check_bindable(2, false), Err(BindError::MissingBindGroup));
    assert_eq!(check_bindable(2, true), Ok(()));
    assert!(needs_bind_group_rebuild(true, true, 1));
    assert!(needs_bind_group_rebuild(false, false, 1));
    assert!(!needs_bind_group_rebuild(false, true, 1));
    assert!(!needs_bind_group_rebuild(true, false, 0));
}

static UNLOADS: AtomicUsize = AtomicUsize::new(0);

struct TestAsset;

impl Asset for TestAsset {
    type Vault = ();
    type HandleTracker = u64;

    fn unload_threshold() -> usize {
        1
    }

    fn unload(tracker: &u64) {
        UNLOADS.fetch_add(*tracker as usize, Ordering::SeqCst);
    }
}

#[test]
fn handles_unload_once_the_threshold_is_reached() {
    assert!(releases_asset(2, 2));
    assert!(!releases_asset(3, 2));
    let first: Handle<TestAsset> = Handle::new(1000);
    assert_eq!(*first.inner(), 1000);
    let second = first.clone();
    assert!(Arc::ptr_eq(&first.0, &second.0));
    let before = UNLOADS.load(Ordering::SeqCst);
    second.release();
    assert_eq!(UNLOADS.load(Ordering::SeqCst), before);
    first.release();
    assert_eq!(UNLOADS.load(Ordering::SeqCst), before + 1000);
}

#[test]
fn loading_identical_content_joins_the_first_load() {
    let mut v: SlotVault<Handle<TestAsset>, Vec<u8>, u8> = SlotVault::new();
    let first = v.load(&AssetContent::Content("hello".to_string()), |hash| Handle::new(hash));
    assert!(first.started);
    assert_eq!(*first.handle.inner(), first.hash);
    let second = v.load(&AssetContent::Content("hello".to_string()), |_| Handle::new(0));
    assert!(!second.started);
    assert_eq!(second.hash, first.hash);
    assert!(Arc::ptr_eq(&first.handle.0, &second.handle.0));
    assert_eq!(v.pending_len(), 1);
    let other = v.load(&AssetContent::Binary(Box::new([1, 2, 3])), |hash| Handle::new(hash));
    assert!(other.started);
    assert_ne!(other.hash, first.hash);
    assert_eq!(v.pending_len(), 2);
}

#[test]
fn mesh_pipeline_load_and_lookup() {
    let mut p: LoadPipeline<Handle<TestAsset>, Vec<u32>, &str> = LoadPipeline::new();
    let t = p.load(&AssetContent::Url("http://example.invalid/m.obj".to_string()), |hash| Handle::new(hash));
    assert!(t.started);
    assert!(p.finish_load(t.hash, Some(vec![0, 1, 2])));
    let (handle, data) = p.take_staged(t.hash).unwrap();
    assert_eq!(data, vec![0, 1, 2]);
    p.commit(t.hash, handle, "mesh");
    assert_eq!(p.resident(t.hash).map(|e| e.1), Some("mesh"));
    let again = p.load(&AssetContent::Url("http://example.invalid/m.obj".to_string()), |_| Handle::new(0));
    assert!(!again.started);
    assert_eq!(*again.handle.inner(), t.hash);
}

#[test]
fn atlas_textures_never_overlap() {
    let mut atlas: AtlasVaultState<u32, Vec<u8>> = AtlasVaultState::new();
    let sizes = [(300u32, 200u32), (800, 100), (1024, 64), (50, 900), (700, 700), (20, 20), (1500, 30)];
    for (i, (w, h)) in sizes.iter().enumerate() {
        atlas.begin_load(i as u64, i as u32);
        atlas.finish_load(i as u64, Some((vec![], UVec2::new(*w, *h))));
        assert!(atlas.upload_staged(i as u64, 4096).unwrap().is_ok());
    }
    let rects: Vec<_> = (0..sizes.len() as u64)
        .map(|i| {
            let a = atlas.slots().get(i).unwrap();
            (a.offset_px(), a.size_px())
        })
        .collect();
    let page = atlas.page_size();
    for (i, (o, s)) in rects.iter().enumerate() {
        assert!(o.x + s.x <= page.x && o.y + s.y <= page.y);
        for (p, t) in &rects[i + 1..] {
            assert!(o.x + s.x <= p.x || p.x + t.x <= o.x || o.y + s.y <= p.y || p.y + t.y <= o.y);
        }
    }
}

#[test]
fn atlas_update_places_every_staged_texture_into_consecutive_slots() {
    let mut atlas: AtlasVaultState<u32, Vec<u8>> = AtlasVaultState::new();
    for (hash, handle, w) in [(1u64, 10u32, 100u32), (2, 20, 200), (3, 30, 9000), (4, 40, 1500)] {
        atlas.begin_load(hash, handle);
        atlas.finish_load(hash, Some((vec![hash as u8], UVec2::new(w, 8))));
    }
    let outcomes = atlas.upload_all_staged(8192, false);
    assert_eq!(atlas.slots().staged_len(), 0);
    assert_eq!(outcomes.len(), 4);
    let mut slot = 0;
    let mut rects: Vec<(UVec2, UVec2)> = Vec::new();
    let mut hashes: Vec<u64> = Vec::new();
    for (hash, outcome) in &outcomes {
        hashes.push(*hash);
        match outcome {
            Err(e) => {
                assert_eq!(*hash, 3);
                assert!(matches!(e, PlaceError::ExceedsMaxDimension { width: 9000, height: 8, max_dim: 8192 }));
                assert!(!atlas.slots().tracks(3));
            },
            Ok((action, upload)) => {
                assert_ne!(*hash, 3);
                assert_eq!(upload.index, slot);
                assert_eq!(upload.payload, vec![*hash as u8]);
                assert!(upload.offset.x + upload.size.x <= upload.page.x);
                assert!(upload.offset.y + upload.size.y <= upload.page.y);
                rects.push((upload.offset, upload.size));
                let (handle, index) = *atlas.slots().resident(*hash).unwrap();
                assert_eq!((handle, index), (*hash as u32 * 10, slot));
                let asset = atlas.slots().get(*hash).unwrap();
                assert_eq!((asset.offset_px(), asset.size_px()), (upload.offset, upload.size));
                if slot == 0 {
                    assert_eq!(*action, PageAction::Create(upload.page));
                } else {
                    assert_ne!(*action, PageAction::Create(upload.page));
                }
                slot += 1;
            },
        }
    }
    hashes.sort();
    assert_eq!(hashes, vec![1, 2, 3, 4]);
    for i in 0..rects.len() {
        for j in i + 1..rects.len() {
            let ((a, sa), (b, sb)) = (rects[i], rects[j]);
            assert!(a.x + sa.x <= b.x || b.x + sb.x <= a.x || a.y + sa.y <= b.y || b.y + sb.y <= a.y);
        }
    }
    assert_eq!(slot, 3);
    assert_eq!(atlas.page_size(), UVec2::new(2048, 2048));
    assert!(atlas.upload_all_staged(8192, true).is_empty());
}

#[test]
fn atlas_update_with_an_existing_page_grows_or_keeps_it() {
    let mut atlas: AtlasVaultState<u32, Vec<u8>> = AtlasVaultState::new();
    atlas.begin_load(1, 10);
    atlas.finish_load(1, Some((vec![], UVec2::new(1500, 4))));
    let outcomes = atlas.upload_all_staged(8192, true);
    assert_eq!(outcomes.len(), 1);
    let (action, _) = outcomes[0].1.as_ref().ok().unwrap();
    assert_eq!(*action, PageAction::Grow(UVec2::new(2048, 2048)));
}

#[test]
fn pipeline_load_raw_replaces_every_stage_of_the_hash() {
    let mut p: LoadPipeline<u32, &str, &str> = LoadPipeline::new();
    p.begin_load(5, 50);
    assert_eq!(p.load_raw(5, 51, "raw"), None);
    assert_eq!((p.pending_len(), p.staged_len()), (0, 0));
    assert_eq!(p.resident(5), Some(&(51, "raw")));
    assert_eq!(p.load_raw(5, 52, "again"), Some((51, "raw")));
    assert_eq!(p.find(5), Some(&52));
}

#[test]
fn slots_commit_all_staged_fills_consecutive_slots() {
    let mut v: SlotVault<u32, &str, (usize, String)> = SlotVault::new();
    v.begin_load(1, 10);
    v.finish_load(1, Some("one"));
    v.begin_load(2, 20);
    v.finish_load(2, Some("two"));
    v.begin_load(3, 30);
    let order = v.commit_all_staged(|data: &&str, index: usize| (index, data.to_string()));
    assert_eq!(order.len(), 2);
    assert_eq!(v.staged_len(), 0);
    assert_eq!(v.pending_len(), 1);
    for (slot, hash) in order.iter().enumerate() {
        assert_eq!(v.resident(*hash), Some(&(*hash as u32 * 10, slot)));
        let expected = if *hash == 1 { "one" } else { "two" };
        assert_eq!(v.get(*hash), Some(&(slot, expected.to_string())));
    }
    assert!(v.commit_all_staged(|_: &&str, index: usize| (index, String::new())).is_empty());
}

#[test]
fn pipeline_commit_all_staged_makes_every_staged_hash_resident() {
    let mut p: LoadPipeline<u32, u32, u32> = LoadPipeline::new();
    p.begin_load(1, 10);
    p.finish_load(1, Some(5));
    p.begin_load(2, 20);
    p.finish_load(2, Some(7));
    p.insert_resident(9, 90, 1);
    let mut order = p.commit_all_staged(|data: &u32| data * 100);
    order.sort();
    assert_eq!(order, vec![1, 2]);
    assert_eq!(p.staged_len(), 0);
    assert_eq!(p.resident(1), Some(&(10, 500)));
    assert_eq!(p.resident(2), Some(&(20, 700)));
    assert_eq!(p.resident(9), Some(&(90, 1)));
}
