use std::sync::Arc;

use ruffle_seer::seer::{CensusEvent, TextureSource};
use ruffle_seer::slots::TexturePoolSweepPolicy;
use ruffle_seer::texture_pool::{footprint, PoolIds, TextureEntry, TextureKey, TexturePool};

type Pool = TexturePool<u32, &'static str, (u32, u32)>;

const RGBA: wgpu::TextureFormat = wgpu::TextureFormat::Rgba8Unorm;

const POLICY: TexturePoolSweepPolicy =
    TexturePoolSweepPolicy { max_per_pool: 2, idle_frames: 60, purge_frames: 600 };

fn new_pool() -> Pool {
    Pool::new(&mut PoolIds::new())
}

fn size(width: u32, height: u32) -> wgpu::Extent3d {
    wgpu::Extent3d { width, height, depth_or_array_layers: 1 }
}

fn registered(bytes: u64) -> CensusEvent {
    CensusEvent::Registered { source: TextureSource::FilterPool, bytes }
}

fn dropped(bytes: u64) -> CensusEvent {
    CensusEvent::Dropped { source: TextureSource::FilterPool, bytes }
}

fn get(
    pool: &mut Pool,
    name: u32,
    width: u32,
    frame: u64,
    census: &mut Vec<CensusEvent>,
) -> TextureEntry<u32, &'static str> {
    pool.get_texture(
        &name,
        size(width, 10),
        wgpu::TextureUsages::RENDER_ATTACHMENT,
        RGBA,
        1,
        frame,
        &|name: &u32, _: &TextureKey| (*name, "view"),
        census,
    )
}

fn live(census: &[CensusEvent]) -> i128 {
    census
        .iter()
        .map(|event| match event {
            CensusEvent::Registered { bytes, .. } => *bytes as i128,
            CensusEvent::Dropped { bytes, .. } => -(*bytes as i128),
        })
        .sum()
}

#[test]
fn bytes_are_texels_by_block_by_samples() {
    assert_eq!(footprint(size(10, 20), Some(4), 1), Some(800));
    assert_eq!(footprint(size(10, 20), Some(16), 4), Some(12800));
    assert_eq!(footprint(size(10, 20), None, 2), Some(1600));
    assert_eq!(footprint(size(0, 20), Some(4), 1), Some(0));
    assert_eq!(footprint(size(u32::MAX, u32::MAX), Some(1), 1), Some(18446744065119617025));
    assert_eq!(footprint(size(u32::MAX, u32::MAX), Some(2), 1), None);
    assert_eq!(footprint(size(u32::MAX, u32::MAX), Some(2), 0), None);
    assert_eq!(footprint(size(u32::MAX, u32::MAX), Some(1), 2), None);
}

#[test]
fn formats_give_the_bytes_of_a_block() {
    let formats = [
        (wgpu::TextureFormat::R8Unorm, 1u64),
        (wgpu::TextureFormat::Depth16Unorm, 2),
        (wgpu::TextureFormat::Bgra8Unorm, 4),
        (wgpu::TextureFormat::Rgba16Float, 8),
        (wgpu::TextureFormat::Rgba32Float, 16),
        (wgpu::TextureFormat::Depth24Plus, 4),
        (wgpu::TextureFormat::Depth24PlusStencil8, 4),
        (wgpu::TextureFormat::Depth32FloatStencil8, 4),
        (wgpu::TextureFormat::NV12, 4),
        (wgpu::TextureFormat::P010, 4),
    ];
    for (format, block) in formats {
        let mut pool = new_pool();
        let mut census = Vec::new();
        let _entry = pool.get_texture(
            &1,
            size(3, 5),
            wgpu::TextureUsages::RENDER_ATTACHMENT,
            format,
            4,
            0,
            &|name: &u32, _: &TextureKey| (*name, "view"),
            &mut census,
        );
        assert_eq!(census, vec![registered(60 * block)]);
    }
}

#[test]
fn the_constructor_sees_the_key() {
    let mut pool = new_pool();
    let mut census = Vec::new();
    let entry = pool.get_texture(
        &(),
        size(30, 40),
        wgpu::TextureUsages::COPY_SRC,
        RGBA,
        2,
        5,
        &|_: &(), key: &TextureKey| {
            assert_eq!(key.1, wgpu::TextureUsages::COPY_SRC);
            assert_eq!(key.2, RGBA);
            (key.0.width * key.0.height * key.3, "made")
        },
        &mut census,
    );
    assert_eq!((entry.0, entry.1), (2400, "made"));
    assert_eq!(census, vec![registered(9600)]);
}

#[test]
fn a_texture_too_large_to_count_is_not_made() {
    let mut pool = new_pool();
    let mut census = Vec::new();
    let huge = size(u32::MAX, u32::MAX);
    let usage = wgpu::TextureUsages::RENDER_ATTACHMENT;
    let create = |_: &(), _: &TextureKey| (1, "view");
    assert!(pool.try_get_texture(&(), huge, usage, RGBA, 1, 0, &create, &mut census).is_none());
    assert!(census.is_empty());
    let small = pool.try_get_texture(&(), size(1, 1), usage, RGBA, 1, 0, &create, &mut census);
    assert_eq!(small.unwrap().0, 1);
    assert_eq!(census, vec![registered(4)]);
}

#[test]
fn what_is_put_back_is_taken_next_for_the_same_key_only() {
    let mut pool = new_pool();
    let mut census = Vec::new();
    let entry = get(&mut pool, 1, 10, 1, &mut census);
    pool.put_back(entry, 2, &mut census);
    let other = get(&mut pool, 2, 11, 3, &mut census);
    assert_eq!(other.0, 2);
    let again = get(&mut pool, 3, 10, 3, &mut census);
    assert_eq!(again.0, 1);
    let fresh = get(&mut pool, 4, 10, 3, &mut census);
    assert_eq!(fresh.0, 4);
    assert_eq!(census, vec![registered(400), registered(440), registered(400)]);
}

#[test]
fn usage_format_and_samples_tell_keys_apart() {
    let mut pool = new_pool();
    let mut census = Vec::new();
    let base = wgpu::TextureUsages::RENDER_ATTACHMENT;
    let create = |name: &u32, _: &TextureKey| (*name, "view");
    let first = pool.get_texture(&1, size(4, 4), base, RGBA, 1, 0, &create, &mut census);
    pool.put_back(first, 0, &mut census);
    let wider = base | wgpu::TextureUsages::COPY_SRC;
    let usage = pool.get_texture(&2, size(4, 4), wider, RGBA, 1, 0, &create, &mut census);
    let bgra = wgpu::TextureFormat::Bgra8Unorm;
    let format = pool.get_texture(&3, size(4, 4), base, bgra, 1, 0, &create, &mut census);
    let samples = pool.get_texture(&4, size(4, 4), base, RGBA, 4, 0, &create, &mut census);
    let mut deep = size(4, 4);
    deep.depth_or_array_layers = 2;
    let depth = pool.get_texture(&5, deep, base, RGBA, 1, 0, &create, &mut census);
    let same = pool.get_texture(&6, size(4, 4), base, RGBA, 1, 0, &create, &mut census);
    assert_eq!((usage.0, format.0, samples.0, depth.0, same.0), (2, 3, 4, 5, 1));
}

#[test]
fn a_sweep_drops_idle_and_excess_textures() {
    let mut pool = new_pool();
    let mut census = Vec::new();
    let entries: Vec<_> = (0..4).map(|name| get(&mut pool, name, 10, 100, &mut census)).collect();
    let small = get(&mut pool, 9, 5, 100, &mut census);
    for (entry, frame) in entries.into_iter().zip([101, 170, 150, 160]) {
        pool.put_back(entry, frame, &mut census);
    }
    pool.put_back(small, 170, &mut census);

    let report = pool.sweep(170, POLICY, &mut census);
    assert_eq!(report.keys_swept, 1);
    assert_eq!(report.dropped_entries, 2);
    assert_eq!(report.purged_keys, 0);
    assert_eq!(report.freed_bytes, 800);
    assert_eq!(&census[5..], &[dropped(400), dropped(400)]);
    assert_eq!(live(&census), 1000);

    let again = pool.sweep(170, POLICY, &mut census);
    assert_eq!((again.keys_swept, again.dropped_entries, again.freed_bytes), (0, 0, 0));
    assert_eq!(census.len(), 7);

    let mut left = vec![
        get(&mut pool, 50, 10, 171, &mut census).0,
        get(&mut pool, 51, 10, 171, &mut census).0,
        get(&mut pool, 52, 10, 171, &mut census).0,
    ];
    left.sort();
    assert_eq!(left, vec![1, 3, 52]);
}

#[test]
fn a_long_idle_pool_is_purged_whole() {
    let mut pool = new_pool();
    let mut census = Vec::new();
    let held = get(&mut pool, 1, 10, 0, &mut census);
    let rests = get(&mut pool, 2, 10, 0, &mut census);
    pool.put_back(rests, 599, &mut census);

    let early = pool.sweep(599, POLICY, &mut census);
    assert_eq!(early.purged_keys, 0);
    let report = pool.sweep(600, POLICY, &mut census);
    assert_eq!(report.purged_keys, 1);
    assert_eq!(report.keys_swept, 1);
    assert_eq!(report.dropped_entries, 1);
    assert_eq!(report.freed_bytes, 400);

    let newer = get(&mut pool, 3, 10, 601, &mut census);
    assert_eq!(newer.0, 3);
    pool.put_back(held, 602, &mut census);
    assert_eq!(get(&mut pool, 4, 10, 603, &mut census).0, 4);
    assert_eq!(
        census,
        vec![
            registered(400),
            registered(400),
            dropped(400),
            registered(400),
            dropped(400),
            registered(400),
        ]
    );
}

#[test]
fn a_texture_without_bytes_is_counted_too() {
    let mut pool = new_pool();
    let mut census = Vec::new();
    let entry = get(&mut pool, 1, 0, 0, &mut census);
    pool.put_back(entry, 0, &mut census);
    let report = pool.sweep(600, POLICY, &mut census);
    assert_eq!((report.dropped_entries, report.freed_bytes), (1, 0));
    assert_eq!(census, vec![registered(0), dropped(0)]);

    let held = get(&mut pool, 2, 0, 600, &mut census);
    pool.reset(&mut census);
    pool.put_back(held, 601, &mut census);
    assert_eq!(&census[2..], &[registered(0), dropped(0)]);
}

#[test]
fn a_checked_sweep_does_the_same() {
    let mut pool = new_pool();
    let mut census = Vec::new();
    for width in [10, 20] {
        let entry = get(&mut pool, width, width, 0, &mut census);
        pool.put_back(entry, 0, &mut census);
    }
    let report = pool.try_sweep(60, POLICY, &mut census).unwrap();
    assert_eq!((report.keys_swept, report.dropped_entries, report.purged_keys), (2, 2, 0));
    assert_eq!(report.freed_bytes, 1200);
    assert_eq!(live(&census), 0);
}

#[test]
fn starting_over_counts_everything_out() {
    let mut pool = new_pool();
    let mut census = Vec::new();
    let held = get(&mut pool, 1, 10, 0, &mut census);
    for width in [20, 30] {
        let entry = get(&mut pool, width, width, 0, &mut census);
        pool.put_back(entry, 0, &mut census);
    }
    let globals = pool.get_globals(&(), 6, 7, &|_: &(), w: u32, h: u32| (w, h));
    pool.reset(&mut census);
    assert_eq!(live(&census), 400);
    let anew = pool.get_globals(&(), 6, 7, &|_: &(), w: u32, h: u32| (w, h));
    assert!(!Arc::ptr_eq(&globals, &anew));
    let _newer = get(&mut pool, 2, 10, 1, &mut census);
    pool.put_back(held, 1, &mut census);
    assert_eq!(live(&census), 400);
    assert_eq!(get(&mut pool, 3, 10, 1, &mut census).0, 3);
}

#[test]
fn the_globals_of_a_viewport_are_made_once() {
    let mut pool = new_pool();
    let first = pool.get_globals(&1u32, 800, 600, &|n: &u32, w: u32, _h: u32| (*n, w));
    let again = pool.get_globals(&2u32, 800, 600, &|n: &u32, w: u32, _h: u32| (*n, w));
    let other = pool.get_globals(&3u32, 600, 800, &|n: &u32, w: u32, _h: u32| (*n, w));
    assert_eq!(*first, (1, 800));
    assert!(Arc::ptr_eq(&first, &again));
    assert_eq!(*other, (3, 600));
}

#[test]
fn every_texture_is_counted_in_and_out_once() {
    let mut pool = new_pool();
    let mut census = Vec::new();
    let small: Vec<_> = (0..3).map(|name| get(&mut pool, name, 10, 0, &mut census)).collect();
    let large = get(&mut pool, 9, 20, 0, &mut census);
    let mut frame = 1;
    for entry in small {
        pool.put_back(entry, frame, &mut census);
        frame += 1;
    }
    let reused = get(&mut pool, 50, 10, 4, &mut census);
    pool.put_back(reused, 5, &mut census);
    pool.sweep(5, POLICY, &mut census);
    pool.reset(&mut census);
    pool.put_back(large, 6, &mut census);
    for (bytes, times) in [(400, 3), (800, 1)] {
        assert_eq!(census.iter().filter(|event| **event == registered(bytes)).count(), times);
        assert_eq!(census.iter().filter(|event| **event == dropped(bytes)).count(), times);
    }
    assert_eq!(census.len(), 8);
}

#[test]
fn an_empty_pool_is_purged_without_being_swept() {
    let mut pool = new_pool();
    let mut census = Vec::new();
    let held = get(&mut pool, 1, 10, 0, &mut census);
    let report = pool.sweep(600, POLICY, &mut census);
    assert_eq!((report.keys_swept, report.dropped_entries, report.purged_keys), (0, 0, 1));
    pool.put_back(held, 601, &mut census);
    assert_eq!(live(&census), 0);
}

#[test]
fn new_pools_take_no_texture_of_old_ones() {
    let mut ids = PoolIds::new();
    let mut pool = Pool::new(&mut ids);
    let mut census = Vec::new();
    let held = get(&mut pool, 1, 10, 0, &mut census);
    pool.reset(&mut census);

    pool = Pool::new(&mut ids);
    assert_eq!(ids.given(), 2);
    let own = get(&mut pool, 2, 10, 0, &mut census);
    pool.put_back(held, 1, &mut census);
    assert_eq!(census, vec![registered(400), registered(400), dropped(400)]);
    assert_eq!(get(&mut pool, 3, 10, 1, &mut census).0, 3);
    pool.put_back(own, 2, &mut census);
    assert_eq!(get(&mut pool, 4, 10, 3, &mut census).0, 2);
}

#[test]
fn a_texture_that_leaves_its_entry_is_counted_out_by_its_token() {
    let mut pool = new_pool();
    let mut census = Vec::new();
    let (name, view, token) = get(&mut pool, 7, 10, 0, &mut census).into_item();
    assert_eq!((name, view), (7, "view"));
    token.retire(&mut census);
    assert_eq!(census, vec![registered(400), dropped(400)]);
}

#[test]
fn globals_stay_through_takes_returns_and_sweeps() {
    let mut pool = new_pool();
    let mut census = Vec::new();
    let create = |n: &u32, w: u32, _h: u32| (*n, w);
    let first = pool.get_globals(&1u32, 800, 600, &create);
    let entry = get(&mut pool, 1, 10, 0, &mut census);
    pool.put_back(entry, 1, &mut census);
    pool.get_globals(&2u32, 640, 480, &create);
    pool.sweep(700, POLICY, &mut census);
    assert!(Arc::ptr_eq(&first, &pool.get_globals(&3u32, 800, 600, &create)));
}
