use std::sync::Arc;

use ruffle_seer::core_seer::{
    AssetArenaPolicy, BitmapCachePolicy, BitmapCacheSweepReport, BitmapDecodeStrategy,
    BitmapResidencyPolicy, BitmapSweepReport, CoreSeerHost, DefaultCoreSeerHost, SweepReport,
    TexturePoolPolicy,
};
use ruffle_seer::character::CompressedBitmap;
use ruffle_seer::frame_counter::{bump_frame_counter, current_frame_counter, FrameCounter};
use ruffle_seer::host_slot::{host, install, HostSlot};
use ruffle_seer::seer::{DefaultSeerHost, SeerHost, TextureSource, SOURCE_COUNT};
use ruffle_seer::time::Duration;

const SOURCES: [TextureSource; SOURCE_COUNT] = [
    TextureSource::Bitmap,
    TextureSource::BitmapCache,
    TextureSource::FilterPool,
    TextureSource::Context3D,
    TextureSource::PixelBender,
    TextureSource::Other,
];

struct Skipping;

impl SeerHost for Skipping {
    fn skip_unmultiply_on_capture(&self) -> bool {
        true
    }
}

#[test]
fn sources_have_stable_indices_and_tags() {
    let tags = ["bitmap", "cache", "pool", "ctx3d", "pb", "other"];
    for (i, source) in SOURCES.iter().enumerate() {
        assert_eq!(source.index(), i);
        assert_eq!(source.short(), tags[i]);
    }
}

#[test]
fn the_first_host_stays() {
    let mut slot: HostSlot<Arc<dyn SeerHost>> = HostSlot::new();
    assert!(host(&slot).is_none());
    assert!(install(&mut slot, Arc::new(Skipping)).is_ok());
    let rejected = install(&mut slot, Arc::new(DefaultSeerHost));
    assert!(matches!(rejected, Err(h) if !h.skip_unmultiply_on_capture()));
    assert!(host(&slot).unwrap().skip_unmultiply_on_capture());
}

#[test]
fn the_default_hosts_change_nothing() {
    assert!(!DefaultSeerHost.skip_unmultiply_on_capture());
    let core: &dyn CoreSeerHost<u8, u8, ()> = &DefaultCoreSeerHost;
    assert!(core.asset_arena_policy().is_none());
    core.park_warm_bytes("a", &[1]);
    assert!(core.take_warm_bytes("a").is_none());
    assert!(core.bitmap_residency_policy().is_none());
    let bitmap = CompressedBitmap::Jpeg { data: vec![], alpha: None, width: 1, height: 1 };
    assert!(core.submit_async_decode(bitmap).is_none());
    assert!(core.try_take_decoded_bitmap(1).is_none());
    assert!(core.placeholder_bitmap(&mut ()).is_none());
    assert!(core.texture_pool_policy().is_none());
    assert!(core.bitmap_cache_policy().is_none());
}

#[test]
fn frames_count_up_from_zero() {
    let mut counter = FrameCounter::new();
    assert_eq!(current_frame_counter(&counter), 0);
    assert_eq!(bump_frame_counter(&mut counter), 1);
    assert_eq!(bump_frame_counter(&mut counter), 2);
    assert_eq!(current_frame_counter(&counter), 2);
}

#[test]
fn policies_have_their_defaults() {
    let arena = AssetArenaPolicy::default();
    assert_eq!(arena.idle_threshold, Duration::from_secs(30));
    assert!(arena.never_evict_with_audio && arena.never_evict_root);
    let residency = BitmapResidencyPolicy::default();
    assert_eq!(residency.idle_threshold, Duration::from_secs(10));
    assert_eq!(residency.decode_strategy, BitmapDecodeStrategy::Async);
    let pool = TexturePoolPolicy::default();
    assert_eq!((pool.max_per_pool, pool.idle_frames, pool.purge_frames), (4, 60, 600));
    let cache = BitmapCachePolicy::default();
    assert_eq!((cache.idle_frames, cache.min_bytes_to_evict), (300, 262144));
}

#[test]
fn reports_start_at_nothing() {
    let sweep = SweepReport::default();
    assert_eq!((sweep.removed, sweep.freed_bitmap_bytes), (0, 0));
    let cache = BitmapCacheSweepReport::default();
    assert_eq!((cache.evicted, cache.freed_bytes, cache.kept, cache.total_realised), (0, 0, 0, 0));
    let bitmaps = BitmapSweepReport::default();
    assert_eq!((bitmaps.evicted_chars, bitmaps.evicted_data, bitmaps.skipped_dirty), (0, 0, 0));
    let pools = ruffle_seer::core_seer::TexturePoolSweepReport::default();
    assert_eq!((pools.keys_swept, pools.dropped_entries, pools.purged_keys), (0, 0, 0));
}
