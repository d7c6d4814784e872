use ruffle_seer::buffer_pool::{AlwaysCompatible, BufferDescription, BufferPool};
use ruffle_seer::slots::{FrameStamp, TexturePoolSweepPolicy};

/// A buffer of at least some length; a longer one costs what it is too long.
#[derive(Debug, PartialEq)]
struct AtLeast(u64);

impl BufferDescription for AtLeast {
    type Cost = u64;

    fn cost(&self, other: &Self) -> Option<u64> {
        self.cost_to_use(other)
    }

    fn cost_to_use(&self, other: &Self) -> Option<u64> {
        if other.0 >= self.0 {
            Some(other.0 - self.0)
        } else {
            None
        }
    }
}

fn policy(max_per_pool: usize, idle_frames: u64) -> TexturePoolSweepPolicy {
    TexturePoolSweepPolicy { max_per_pool, idle_frames, purge_frames: u64::MAX }
}

#[test]
fn a_pool_without_items_constructs() {
    let mut pool = BufferPool::new(|c: &u32, _: &AlwaysCompatible| *c + 1, 7u64);
    let entry = pool.take(&4, AlwaysCompatible, 3);
    assert_eq!(*entry, 5);
    assert_eq!(entry.home(), 7);
    assert_eq!(pool.last_taken(), 3);
}

#[test]
fn what_is_put_back_is_taken_again() {
    let mut pool = BufferPool::new(|c: &u32, _: &AlwaysCompatible| *c, ());
    let entry = pool.take(&4, AlwaysCompatible, 1);
    pool.put_back(entry, 2);
    assert_eq!(pool.len(), 1);
    assert_eq!(*pool.take(&9, AlwaysCompatible, 3), 4);
    assert_eq!(pool.len(), 0);
    assert_eq!(*pool.take(&9, AlwaysCompatible, 3), 9);
}

#[test]
fn the_cheapest_item_is_taken() {
    let mut pool = BufferPool::new(|c: &u32, _: &AtLeast| *c, ());
    for (item, length) in [(1u32, 40u64), (2, 10), (3, 20), (4, 20), (5, 30)] {
        let entry = pool.adopt(item, AtLeast(length));
        pool.put_back(entry, 0);
    }
    assert_eq!(*pool.take(&99, AtLeast(15), 1), 3);
    assert!(pool.take_available(&AtLeast(41), 1).is_none());
    assert_eq!(*pool.take(&99, AtLeast(41), 1), 99);
    let entry = pool.take_available(&AtLeast(25), 1).unwrap();
    assert_eq!(entry.into_item(), 5);
    assert_eq!(pool.into_items(), vec![1, 2, 4]);
}

#[test]
fn the_last_item_fills_the_gap() {
    let mut pool = BufferPool::new(|c: &u32, _: &AtLeast| *c, ());
    for (item, length) in [(1u32, 10u64), (2, 20), (3, 30), (4, 40)] {
        let entry = pool.adopt(item, AtLeast(length));
        pool.put_back(entry, 0);
    }
    assert_eq!(*pool.take(&99, AtLeast(20), 1), 2);
    assert_eq!(pool.into_items(), vec![1, 4, 3]);
}

#[test]
fn idle_items_go_at_the_very_frame() {
    let mut pool = BufferPool::new(|c: &u32, _: &AlwaysCompatible| *c, ());
    for (item, frame) in [(1u32, 10u64), (2, 11), (3, 25)] {
        let entry = pool.adopt(item, AlwaysCompatible);
        pool.put_back(entry, frame);
    }
    let mut dropped = Vec::new();
    assert_eq!(pool.count_dropped(20, &policy(4, 10)), 1);
    assert_eq!(pool.sweep(20, &policy(4, 10), &mut dropped), (1, 0));
    assert_eq!(dropped, vec![1]);
    assert_eq!(pool.sweep(20, &policy(4, 10), &mut dropped), (0, 0));
    assert_eq!(pool.into_items(), vec![2, 3]);
}

#[test]
fn over_the_cap_the_oldest_go() {
    let mut pool = BufferPool::new(|c: &u32, _: &AlwaysCompatible| *c, ());
    for (item, frame) in [(1u32, 5u64), (2, 1), (3, 3), (4, 1), (5, 4)] {
        let entry = pool.adopt(item, AlwaysCompatible);
        pool.put_back(entry, frame);
    }
    let mut dropped = Vec::new();
    assert_eq!(pool.count_dropped(5, &policy(2, 100)), 3);
    assert_eq!(pool.sweep(5, &policy(2, 100), &mut dropped), (3, 0));
    assert_eq!(dropped, vec![2, 4, 3]);
    assert_eq!(pool.into_items(), vec![1, 5]);
}

#[test]
fn a_cap_of_nothing_empties_the_pool() {
    let mut pool = BufferPool::new(|c: &u32, _: &AlwaysCompatible| *c, ());
    for item in [1u32, 2] {
        let entry = pool.adopt(item, AlwaysCompatible);
        pool.put_back(entry, 0);
    }
    let mut dropped = Vec::new();
    assert_eq!(pool.sweep(0, &policy(0, 1), &mut dropped), (2, 0));
    assert_eq!(pool.len(), 0);
}

#[test]
fn a_fresh_stamp_is_zero() {
    assert_eq!(FrameStamp::default().0, 0);
}

/// Buffers of any other kind can be used, at the cost of their number.
struct Kind(u8);

impl BufferDescription for Kind {
    type Cost = u8;

    fn cost(&self, other: &Self) -> Option<u8> {
        self.cost_to_use(other)
    }

    fn cost_to_use(&self, other: &Self) -> Option<u8> {
        Some(other.0)
    }
}

#[test]
fn costs_of_other_widths_are_compared_too() {
    let mut pool = BufferPool::new(|c: &u32, _: &Kind| *c, ());
    for (item, kind) in [(1u32, 200u8), (2, 7), (3, 255)] {
        let entry = pool.adopt(item, Kind(kind));
        pool.put_back(entry, 0);
    }
    assert_eq!(*pool.take(&99, Kind(0), 1), 2);
}

/// Buffers that are told apart by a signed cost and then by another.
struct Ranked(i8, u16);

impl BufferDescription for Ranked {
    type Cost = (i8, u16);

    fn cost(&self, other: &Self) -> Option<(i8, u16)> {
        self.cost_to_use(other)
    }

    fn cost_to_use(&self, other: &Self) -> Option<(i8, u16)> {
        Some((other.0, other.1))
    }
}

#[test]
fn the_first_of_two_costs_counts_more() {
    let mut pool = BufferPool::new(|c: &u32, _: &Ranked| *c, ());
    for (item, first, second) in [(1u32, 1i8, 0u16), (2, -3, 9), (3, -3, 4), (4, -2, 0)] {
        let entry = pool.adopt(item, Ranked(first, second));
        pool.put_back(entry, 0);
    }
    let taken: Vec<u32> = (0..4).map(|_| *pool.take(&99, Ranked(0, 0), 1)).collect();
    assert_eq!(taken, vec![3, 2, 4, 1]);
}
