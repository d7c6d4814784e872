use std::sync::Arc;

use ruffle_seer::character::{
    BitmapCharacter, BitmapClass, BitmapFormat, BitmapHandle, BitmapSize, CompressedBitmap,
    DecodeRequest, DefineBitsLossless, HandleAction, HandleEvent,
};
use ruffle_seer::core_seer::{BitmapDecodeStrategy, BitmapResidencyPolicy};
use ruffle_seer::time::{Duration, Instant};

type Action = HandleAction<&'static str, u8, &'static str>;

type Event = HandleEvent<&'static str, u8, &'static str>;

fn jpeg() -> CompressedBitmap {
    CompressedBitmap::Jpeg {
        data: vec![1, 2, 3, 4, 5],
        alpha: Some(vec![6, 7]),
        width: 3,
        height: 7,
    }
}

fn lossless() -> CompressedBitmap {
    CompressedBitmap::Lossless(DefineBitsLossless {
        version: 1,
        id: 8,
        format: BitmapFormat::ColorMap8 { num_colors: 4 },
        width: 640,
        height: 480,
        data: vec![9; 11],
    })
}

fn at(nanos: u128) -> Instant {
    Instant { nanos }
}

fn handle(n: u8) -> BitmapHandle<u8> {
    BitmapHandle(Arc::new(n))
}

fn policy(decode_strategy: BitmapDecodeStrategy) -> Option<BitmapResidencyPolicy> {
    Some(BitmapResidencyPolicy { idle_threshold: Duration::from_secs(10), decode_strategy })
}

fn background() -> Option<BitmapResidencyPolicy> {
    policy(BitmapDecodeStrategy::Async)
}

/// A bitmap that was realised and evicted.
fn evicted() -> BitmapCharacter<u8, u32> {
    let mut character = BitmapCharacter::new(jpeg());
    realise(&mut character, 1);
    assert!(character.evict_gpu());
    character
}

fn realise(character: &mut BitmapCharacter<u8, u32>, n: u8) {
    let action: Action = character.bitmap_handle(Event::Registered(Ok(handle(n))));
    assert!(matches!(action, HandleAction::Done(Ok(_))));
}

#[test]
fn source_bytes_count_the_alpha_plane() {
    assert_eq!(jpeg().source_bytes(), 7);
    let opaque =
        CompressedBitmap::Jpeg { data: vec![1, 2, 3], alpha: None, width: 1, height: 1 };
    assert_eq!(opaque.source_bytes(), 3);
    assert_eq!(lossless().source_bytes(), 11);
}

#[test]
fn the_size_is_that_of_the_decoded_bitmap() {
    assert_eq!(jpeg().size(), BitmapSize { width: 3, height: 7 });
    assert_eq!(lossless().size(), BitmapSize { width: 640, height: 480 });
}

#[test]
fn each_kind_goes_to_its_decoder() {
    match jpeg().decode() {
        DecodeRequest::Jpeg { data, alpha } => {
            assert_eq!(data, &[1, 2, 3, 4, 5]);
            assert_eq!(alpha, Some(&[6u8, 7][..]));
        }
        DecodeRequest::Lossless(_) => panic!("a JPEG is not lossless"),
    }
    match lossless().decode() {
        DecodeRequest::Lossless(define) => {
            assert_eq!(define.id, 8);
            assert_eq!(define.format, BitmapFormat::ColorMap8 { num_colors: 4 });
        }
        DecodeRequest::Jpeg { .. } => panic!("a lossless bitmap is no JPEG"),
    }
}

#[test]
fn a_sampled_bitmap_is_decoded_once() {
    let mut character: BitmapCharacter<u8, u32> = BitmapCharacter::new(jpeg());
    assert!(!character.is_realised());
    assert_eq!(character.last_sampled(), None);
    assert_eq!(character.realised_bytes(), None);

    let action: Action = character.bitmap_handle(Event::Sampled(at(10), None));
    assert!(matches!(action, HandleAction::Decode));
    assert_eq!(character.last_sampled(), Some(at(10)));
    let action: Action = character.bitmap_handle(Event::Decoded(Ok("pixels")));
    assert!(matches!(action, HandleAction::Register("pixels")));
    let action: Action = character.bitmap_handle(Event::Registered(Ok(handle(1))));
    assert!(matches!(action, HandleAction::Done(Ok(h)) if *h.0 == 1));
    assert!(character.is_realised());
    assert_eq!(character.realised_bytes(), Some(84));

    let action: Action = character.bitmap_handle(Event::Sampled(at(20), None));
    assert!(matches!(action, HandleAction::Done(Ok(h)) if *h.0 == 1));
    assert_eq!(character.last_sampled(), Some(at(20)));
}

#[test]
fn the_first_of_two_handles_stays() {
    let mut character: BitmapCharacter<u8, u32> = BitmapCharacter::new(jpeg());
    realise(&mut character, 1);
    let action: Action = character.bitmap_handle(Event::Registered(Ok(handle(2))));
    assert!(matches!(action, HandleAction::Done(Ok(h)) if *h.0 == 1));
}

#[test]
fn a_failed_sample_is_noted_and_tried_again() {
    let mut character: BitmapCharacter<u8, u32> = BitmapCharacter::new(jpeg());
    let _: Action = character.bitmap_handle(Event::Sampled(at(10), None));
    let action: Action = character.bitmap_handle(Event::Decoded(Err("broken")));
    assert!(matches!(action, HandleAction::Done(Err("broken"))));
    let action: Action = character.bitmap_handle(Event::Registered(Err("full")));
    assert!(matches!(action, HandleAction::Done(Err("full"))));
    assert!(!character.is_realised());
    assert_eq!(character.last_sampled(), Some(at(10)));
    let action: Action = character.bitmap_handle(Event::Sampled(at(11), None));
    assert!(matches!(action, HandleAction::Decode));
}

#[test]
fn eviction_keeps_the_source_and_the_last_sample() {
    let mut character: BitmapCharacter<u8, u32> = BitmapCharacter::new(lossless());
    assert!(!character.evict_gpu());
    let _: Action = character.bitmap_handle(Event::Sampled(at(10), None));
    realise(&mut character, 3);
    assert_eq!(character.realised_bytes(), Some(640 * 480 * 4));
    assert!(character.evict_gpu());
    assert!(!character.evict_gpu());
    assert!(!character.is_realised());
    assert_eq!(character.last_sampled(), Some(at(10)));
    assert_eq!(character.compressed_source_bytes(), 11);
    assert_eq!(character.compressed().size(), BitmapSize { width: 640, height: 480 });
    let action: Action = character.bitmap_handle(Event::Sampled(at(12), None));
    assert!(matches!(action, HandleAction::Decode));
}

#[test]
fn the_class_is_what_was_set() {
    let mut character: BitmapCharacter<u8, u32> = BitmapCharacter::new(jpeg());
    assert!(matches!(character.avm2_class(), BitmapClass::NoSubclass));
    character.set_avm2_class(BitmapClass::Subclass(4));
    assert!(matches!(character.avm2_class(), BitmapClass::Subclass(4)));
}

#[test]
fn a_placeholder_stands_for_a_bitmap_that_is_being_decoded() {
    let mut character = evicted();
    let action: Action = character.bitmap_handle(Event::Sampled(at(1), background()));
    assert!(matches!(action, HandleAction::Submit));
    let action: Action = character.bitmap_handle(Event::Submitted(Some(42)));
    assert!(matches!(action, HandleAction::AskPlaceholder));
    let action: Action = character.bitmap_handle(Event::Placeholder(Some(handle(9))));
    assert!(matches!(action, HandleAction::Done(Ok(h)) if *h.0 == 9));
    assert!(!character.is_realised());

    let action: Action = character.bitmap_handle(Event::Sampled(at(2), background()));
    assert!(matches!(action, HandleAction::Poll(42)));
    let action: Action = character.bitmap_handle(Event::Polled(None));
    assert!(matches!(action, HandleAction::AskPlaceholder));
    let action: Action = character.bitmap_handle(Event::Placeholder(Some(handle(9))));
    assert!(matches!(action, HandleAction::Done(Ok(h)) if *h.0 == 9));

    let action: Action = character.bitmap_handle(Event::Sampled(at(3), background()));
    assert!(matches!(action, HandleAction::Poll(42)));
    let action: Action = character.bitmap_handle(Event::Polled(Some("pixels")));
    assert!(matches!(action, HandleAction::Register("pixels")));
    let action: Action = character.bitmap_handle(Event::Registered(Ok(handle(2))));
    assert!(matches!(action, HandleAction::Done(Ok(h)) if *h.0 == 2));
    let action: Action = character.bitmap_handle(Event::Sampled(at(4), background()));
    assert!(matches!(action, HandleAction::Done(Ok(h)) if *h.0 == 2));
    assert_eq!(character.last_sampled(), Some(at(4)));
}

#[test]
fn a_bitmap_that_was_never_realised_is_decoded_at_once() {
    let mut character: BitmapCharacter<u8, u32> = BitmapCharacter::new(jpeg());
    let action: Action = character.bitmap_handle(Event::Sampled(at(1), background()));
    assert!(matches!(action, HandleAction::Decode));
}

#[test]
fn without_request_or_placeholder_a_bitmap_is_decoded_at_once() {
    let mut character = evicted();
    let sync = policy(BitmapDecodeStrategy::Sync);
    let action: Action = character.bitmap_handle(Event::Sampled(at(1), sync));
    assert!(matches!(action, HandleAction::Decode));
    let action: Action = character.bitmap_handle(Event::Sampled(at(1), None));
    assert!(matches!(action, HandleAction::Decode));

    let action: Action = character.bitmap_handle(Event::Sampled(at(2), background()));
    assert!(matches!(action, HandleAction::Submit));
    let action: Action = character.bitmap_handle(Event::Submitted(None));
    assert!(matches!(action, HandleAction::Decode));

    let _: Action = character.bitmap_handle(Event::Submitted(Some(42)));
    let action: Action = character.bitmap_handle(Event::Placeholder(None));
    assert!(matches!(action, HandleAction::Decode));
    let action: Action = character.bitmap_handle(Event::Sampled(at(3), background()));
    assert!(matches!(action, HandleAction::Submit));
}

#[test]
fn an_eviction_gives_a_request_up() {
    let mut character = evicted();
    let _: Action = character.bitmap_handle(Event::Sampled(at(1), background()));
    let _: Action = character.bitmap_handle(Event::Submitted(Some(42)));
    assert!(!character.evict_gpu());
    let action: Action = character.bitmap_handle(Event::Sampled(at(2), background()));
    assert!(matches!(action, HandleAction::Decode));
}
