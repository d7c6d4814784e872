//! What the player tells its host, and what the host decides for it.

use std::sync::Arc;

use vstd::prelude::*;

pub use crate::frame_counter::{bump_frame_counter, current_frame_counter, FrameCounter};
pub use crate::host_slot::{host, install, HostSlot};

use crate::character::{BitmapHandle, CompressedBitmap};
use crate::time::Duration;

verus! {

/// What a sweep of idle libraries did.
#[derive(Debug, Clone, Copy)]
pub struct SweepReport {
    /// Libraries that were removed.
    pub removed: usize,
    /// The GPU bytes that their bitmaps held when they were removed.
    pub freed_bitmap_bytes: u64,
}

impl Default for SweepReport {
    fn default() -> (report: Self)
        ensures
            report.removed == 0,
            report.freed_bitmap_bytes == 0,
    {
        SweepReport { removed: 0, freed_bitmap_bytes: 0 }
    }
}

/// When a library may be evicted.
#[derive(Debug, Clone, Copy)]
pub struct AssetArenaPolicy {
    /// No character of the library was looked up for this long.
    pub idle_threshold: Duration,
    /// A library with a sound stays: dropping it would cut the sound off.
    pub never_evict_with_audio: bool,
    /// The library of the root movie stays.
    pub never_evict_root: bool,
}

impl Default for AssetArenaPolicy {
    fn default() -> (policy: Self)
        ensures
            policy.idle_threshold.nanos == 30_000_000_000,
            policy.never_evict_with_audio,
            policy.never_evict_root,
    {
        AssetArenaPolicy {
            idle_threshold: Duration::from_secs(30),
            never_evict_with_audio: true,
            never_evict_root: true,
        }
    }
}

/// How an evicted bitmap is decoded when it is sampled again.
#[derive(Debug, Clone, Copy, PartialEq, Eq, Structural)]
pub enum BitmapDecodeStrategy {
    /// At once, on the render thread.
    Sync,
    /// In the background, with a transparent placeholder meanwhile.
    Async,
}

impl Default for BitmapDecodeStrategy {
    fn default() -> (strategy: Self)
        ensures
            strategy is Async,
    {
        BitmapDecodeStrategy::Async
    }
}

/// When the GPU handle of a bitmap may be let go.
#[derive(Debug, Clone, Copy)]
pub struct BitmapResidencyPolicy {
    /// The bitmap was not sampled for this long.
    pub idle_threshold: Duration,
    /// How it is decoded when it is sampled again.
    pub decode_strategy: BitmapDecodeStrategy,
}

impl Default for BitmapResidencyPolicy {
    fn default() -> (policy: Self)
        ensures
            policy.idle_threshold.nanos == 10_000_000_000,
            policy.decode_strategy is Async,
    {
        BitmapResidencyPolicy {
            idle_threshold: Duration::from_secs(10),
            decode_strategy: BitmapDecodeStrategy::default(),
        }
    }
}

/// When pooled textures may be let go.
#[derive(Debug, Clone, Copy)]
pub struct TexturePoolPolicy {
    /// Each keyed pool holds at most this many.
    pub max_per_pool: usize,
    /// A texture that did not come back for this many frames goes.
    pub idle_frames: u64,
    /// A keyed pool from which nothing was taken for this many frames goes.
    pub purge_frames: u64,
}

impl Default for TexturePoolPolicy {
    fn default() -> (policy: Self)
        ensures
            policy.max_per_pool == 4,
            policy.idle_frames == 60,
            policy.purge_frames == 600,
    {
        TexturePoolPolicy { max_per_pool: 4, idle_frames: 60, purge_frames: 600 }
    }
}

/// What a sweep of the texture pools did.
#[derive(Debug, Clone, Copy)]
pub struct TexturePoolSweepReport {
    /// Keyed pools of which at least one texture was dropped.
    pub keys_swept: usize,
    /// Textures that were dropped, over all keys.
    pub dropped_entries: usize,
    /// Keyed pools that were removed whole.
    pub purged_keys: usize,
    /// The bytes that were freed.
    pub freed_bytes: u64,
}

impl Default for TexturePoolSweepReport {
    fn default() -> (report: Self)
        ensures
            report.keys_swept == 0,
            report.dropped_entries == 0,
            report.purged_keys == 0,
            report.freed_bytes == 0,
    {
        TexturePoolSweepReport { keys_swept: 0, dropped_entries: 0, purged_keys: 0, freed_bytes: 0 }
    }
}

/// When the render target of a display object that is cached as a bitmap may be
/// let go.
#[derive(Debug, Clone, Copy)]
pub struct BitmapCachePolicy {
    /// It was not drawn for this many frames.
    pub idle_frames: u64,
    /// It holds at least this many bytes.
    pub min_bytes_to_evict: u64,
}

impl Default for BitmapCachePolicy {
    fn default() -> (policy: Self)
        ensures
            policy.idle_frames == 300,
            policy.min_bytes_to_evict == 256 * 1024,
    {
        BitmapCachePolicy { idle_frames: 300, min_bytes_to_evict: 256 * 1024 }
    }
}

/// What a sweep of cached render targets did.
#[derive(Debug, Clone, Copy)]
pub struct BitmapCacheSweepReport {
    /// Render targets that were let go.
    pub evicted: usize,
    /// The bytes that they held, at four for each pixel.
    pub freed_bytes: u64,
    /// Render targets that were drawn lately, or are too small to bother.
    pub kept: usize,
    /// Render targets that the sweep looked at.
    pub total_realised: usize,
}

impl Default for BitmapCacheSweepReport {
    fn default() -> (report: Self)
        ensures
            report.evicted == 0,
            report.freed_bytes == 0,
            report.kept == 0,
            report.total_realised == 0,
    {
        BitmapCacheSweepReport { evicted: 0, freed_bytes: 0, kept: 0, total_realised: 0 }
    }
}

/// What a sweep of idle bitmaps did, for the bitmaps of libraries and for those
/// that scripts made.
#[derive(Debug, Clone, Copy)]
pub struct BitmapSweepReport {
    /// Library bitmaps whose handle was let go.
    pub evicted_chars: usize,
    /// Script bitmaps whose handle was let go.
    pub evicted_data: usize,
    /// The bytes that the evicted library bitmaps held.
    pub freed_char_bytes: u64,
    /// The bytes that the evicted script bitmaps held.
    pub freed_data_bytes: u64,
    /// Realised library bitmaps that were sampled lately.
    pub kept_chars: usize,
    /// Realised script bitmaps that were sampled lately.
    pub kept_data: usize,
    /// Realised library bitmaps that the sweep looked at.
    pub total_chars_realised: usize,
    /// Realised script bitmaps that the sweep looked at.
    pub total_data_realised: usize,
    /// Script bitmaps that were passed over because they were not clean.
    pub skipped_dirty: usize,
}

impl Default for BitmapSweepReport {
    fn default() -> (report: Self)
        ensures
            report.evicted_chars == 0,
            report.evicted_data == 0,
            report.freed_char_bytes == 0,
            report.freed_data_bytes == 0,
            report.kept_chars == 0,
            report.kept_data == 0,
            report.total_chars_realised == 0,
            report.total_data_realised == 0,
            report.skipped_dirty == 0,
    {
        BitmapSweepReport {
            evicted_chars: 0,
            evicted_data: 0,
            freed_char_bytes: 0,
            freed_data_bytes: 0,
            kept_chars: 0,
            kept_data: 0,
            total_chars_realised: 0,
            total_data_realised: 0,
            skipped_dirty: 0,
        }
    }
}

/// What a library holds in memory, by the layer that holds it.
#[derive(Debug, Clone)]
pub struct LibraryEntry {
    /// The URL of the movie, if it is known.
    pub url: Option<String>,
    /// The bytes of realised bitmaps, on the GPU.
    pub bitmap_bytes: u64,
    /// The bytes of compressed bitmaps, realised or not.
    pub compressed_bitmap_bytes: u64,
    /// The bytes of the movie itself.
    pub swf_data_bytes: u64,
    /// All characters.
    pub character_count: usize,
    /// Graphics and morph shapes.
    pub shape_count: usize,
    /// Movie clips.
    pub sprite_count: usize,
    /// Fonts.
    pub font_count: usize,
    /// Texts and edit texts.
    pub text_count: usize,
    /// Sounds.
    pub sound_count: usize,
    /// The time since a character was last looked up.
    pub idle_for: Duration,
    /// References to the movie other than that of the library itself.
    pub external_refs: usize,
}

/// The host of a player. Each method that a host does not write itself keeps the
/// behaviour of a player without a host. `Bitmap` is a decoded bitmap, `H` what a
/// bitmap handle points to, and `Backend` the renderer.
pub trait CoreSeerHost<Bitmap, H, Backend>: Send + Sync + 'static {
    /// When idle libraries may be evicted; never, where there is no policy.
    fn asset_arena_policy(&self) -> (policy: Option<AssetArenaPolicy>)
        default_ensures
            policy is None,
    {
        None
    }

    /// Takes note of the bytes of an evicted movie, so that it need not be fetched
    /// again.
    fn park_warm_bytes(&self, _url: &str, _bytes: &[u8]) {
    }

    /// The bytes of a movie that was parked.
    fn take_warm_bytes(&self, _url: &str) -> (bytes: Option<Arc<[u8]>>)
        default_ensures
            bytes is None,
    {
        None
    }

    /// When the handles of idle bitmaps may be let go; never, where there is no
    /// policy.
    fn bitmap_residency_policy(&self) -> (policy: Option<BitmapResidencyPolicy>)
        default_ensures
            policy is None,
    {
        None
    }

    /// Starts to decode a bitmap in the background, and names the request. Where
    /// there is no request, the bitmap is to be decoded at once.
    fn submit_async_decode(&self, _compressed: CompressedBitmap) -> (request: Option<u64>)
        default_ensures
            request is None,
    {
        None
    }

    /// The bitmap of a request, once.
    fn try_take_decoded_bitmap(&self, _id: u64) -> (bitmap: Option<Bitmap>)
        default_ensures
            bitmap is None,
    {
        None
    }

    /// The transparent bitmap that stands for one that is still being decoded.
    fn placeholder_bitmap(&self, _backend: &mut Backend) -> (handle: Option<BitmapHandle<H>>)
        default_ensures
            handle is None,
    {
        None
    }

    /// When pooled textures may be let go; never, where there is no policy.
    fn texture_pool_policy(&self) -> (policy: Option<TexturePoolPolicy>)
        default_ensures
            policy is None,
    {
        None
    }

    /// When cached render targets may be let go; never, where there is no policy.
    fn bitmap_cache_policy(&self) -> (policy: Option<BitmapCachePolicy>)
        default_ensures
            policy is None,
    {
        None
    }
}

/// A host that keeps every default.
#[derive(Debug)]
pub struct DefaultCoreSeerHost;

impl<Bitmap, H, Backend> CoreSeerHost<Bitmap, H, Backend> for DefaultCoreSeerHost {

}

} // verus!
