//! Bitmaps that are kept compressed, and the GPU handles that are made of them
//! on demand.

use std::sync::Arc;

use vstd::prelude::*;

use crate::core_seer::{BitmapDecodeStrategy, BitmapResidencyPolicy};
use crate::time::Instant;

verus! {

/// A character of a library. `Object` stands for the object that it is.
#[derive(Debug, Clone, Copy)]
pub enum Character<Object> {
    EditText(Object),
    Graphic(Object),
    MovieClip(Object),
    Bitmap(Object),
    Avm1Button(Object),
    Avm2Button(Object),
    Font(Object),
    MorphShape(Object),
    Text(Object),
    Sound(Object),
    Video(Object),
    BinaryData(Object),
}

/// A handle of a bitmap that the renderer holds.
#[derive(Debug)]
pub struct BitmapHandle<H>(pub Arc<H>);

impl<H> BitmapHandle<H> {
    /// Another handle of the same bitmap.
    pub fn share(&self) -> (handle: Self)
        ensures
            handle == *self,
    {
        BitmapHandle(self.0.clone())
    }
}

/// The GPU residency of a bitmap: its handle while it is realised, when it was
/// last sampled, and how it is to be realised anew.
#[derive(Debug)]
pub struct BitmapResidency<H> {
    pub handle: Option<BitmapHandle<H>>,
    pub last_sampled: Option<Instant>,
    /// The request by which the host decodes the bitmap in the background.
    pub pending: Option<u64>,
    /// The bitmap was realised and then let go, so that the residency policy says
    /// how it is decoded. One that was never realised is decoded at once, and so is
    /// one whose request was given up.
    pub evicted: bool,
}

impl<H> Default for BitmapResidency<H> {
    fn default() -> (residency: Self)
        ensures
            residency.handle is None,
            residency.last_sampled is None,
            residency.pending is None,
            !residency.evicted,
    {
        BitmapResidency { handle: None, last_sampled: None, pending: None, evicted: false }
    }
}

/// The script class of a bitmap.
#[derive(Debug, Clone, Copy)]
pub enum BitmapClass<Class> {
    /// No class was set for the bitmap.
    NoSubclass,
    /// The class that was set for it.
    Subclass(Class),
}

/// How the pixels of a lossless bitmap are stored.
#[derive(Debug, Clone, Copy, PartialEq, Eq, Structural)]
pub enum BitmapFormat {
    ColorMap8 { num_colors: u8 },
    Rgb15,
    Rgb32,
}

/// A lossless bitmap, still compressed.
#[derive(Debug, Clone)]
pub struct DefineBitsLossless {
    pub version: u8,
    pub id: u16,
    pub format: BitmapFormat,
    pub width: u16,
    pub height: u16,
    pub data: Vec<u8>,
}

/// The size of a bitmap in pixels.
#[derive(Debug, Clone, Copy, PartialEq, Eq, Structural)]
pub struct BitmapSize {
    pub width: u32,
    pub height: u32,
}

/// A bitmap of a movie, compressed, with the size that it has when decoded. It is
/// not decoded before it is needed: a movie can hold thousands of bitmaps that
/// are small only as long as they stay compressed.
#[derive(Debug, Clone)]
pub enum CompressedBitmap {
    Jpeg { data: Vec<u8>, alpha: Option<Vec<u8>>, width: u32, height: u32 },
    Lossless(DefineBitsLossless),
}

/// What a decoder is asked to decode.
#[derive(Debug)]
pub enum DecodeRequest<'a> {
    /// A JPEG image and, apart from it, its alpha plane.
    Jpeg { data: &'a [u8], alpha: Option<&'a [u8]> },
    /// A lossless image.
    Lossless(&'a DefineBitsLossless),
}

impl CompressedBitmap {
    /// The bytes of the alpha plane.
    pub open spec fn alpha_len(self) -> nat {
        match self {
            CompressedBitmap::Jpeg { alpha: Some(alpha), .. } => alpha@.len(),
            _ => 0,
        }
    }

    /// The bytes of the compressed image, its alpha plane included.
    pub open spec fn source_len(self) -> nat {
        match self {
            CompressedBitmap::Jpeg { data, .. } => data@.len() + self.alpha_len(),
            CompressedBitmap::Lossless(define) => define.data@.len(),
        }
    }

    /// The size of the decoded bitmap.
    pub open spec fn decoded_size(self) -> BitmapSize {
        match self {
            CompressedBitmap::Jpeg { width, height, .. } => BitmapSize { width, height },
            CompressedBitmap::Lossless(define) => BitmapSize {
                width: define.width as u32,
                height: define.height as u32,
            },
        }
    }

    /// The bytes of the decoded bitmap, at four for each pixel.
    pub open spec fn decoded_len(self) -> int {
        self.decoded_size().width * self.decoded_size().height * 4
    }

    /// The bytes that the compressed image holds in memory.
    pub fn source_bytes(&self) -> (bytes: u64)
        requires
            self.source_len() <= usize::MAX,
        ensures
            bytes == self.source_len(),
    {
        match self {
            CompressedBitmap::Jpeg { data, alpha, .. } => {
                let alpha_len: usize = match alpha {
                    Some(alpha) => alpha.len(),
                    None => 0,
                };
                (data.len() + alpha_len) as u64
            },
            CompressedBitmap::Lossless(define) => define.data.len() as u64,
        }
    }

    /// The size of the decoded bitmap.
    pub fn size(&self) -> (size: BitmapSize)
        ensures
            size == self.decoded_size(),
    {
        match self {
            CompressedBitmap::Jpeg { width, height, .. } => BitmapSize {
                width: *width,
                height: *height,
            },
            CompressedBitmap::Lossless(define) => BitmapSize {
                width: define.width as u32,
                height: define.height as u32,
            },
        }
    }

    /// What a decoder has to decode, and which decoder it is for.
    pub fn decode(&self) -> (request: DecodeRequest<'_>)
        ensures
            match *self {
                CompressedBitmap::Jpeg { data, alpha, .. } => {
                    &&& request matches DecodeRequest::Jpeg { data: image, alpha: plane }
                    &&& image@ == data@
                    &&& match alpha {
                        Some(alpha) => plane matches Some(plane) && plane@ == alpha@,
                        None => plane is None,
                    }
                },
                CompressedBitmap::Lossless(define) => {
                    &&& request matches DecodeRequest::Lossless(image)
                    &&& *image == define
                },
            },
    {
        match self {
            CompressedBitmap::Jpeg { data, alpha, .. } => {
                let plane = match alpha {
                    Some(alpha) => Some(alpha.as_slice()),
                    None => None,
                };
                DecodeRequest::Jpeg { data: data.as_slice(), alpha: plane }
            },
            CompressedBitmap::Lossless(define) => DecodeRequest::Lossless(define),
        }
    }
}

/// What happens on the way to the handle of a bitmap.
#[derive(Debug)]
pub enum HandleEvent<Bitmap, H, E> {
    /// The bitmap is sampled, at this time and under this policy of the host.
    Sampled(Instant, Option<BitmapResidencyPolicy>),
    /// The host was asked to decode in the background, and named the request if it
    /// will.
    Submitted(Option<u64>),
    /// The host was asked for the bitmap of the request, and gave it if it was done.
    Polled(Option<Bitmap>),
    /// The host was asked for its placeholder, and gave it if it has one.
    Placeholder(Option<BitmapHandle<H>>),
    /// The decoder came to an end.
    Decoded(Result<Bitmap, E>),
    /// The renderer came to an end with the decoded bitmap.
    Registered(Result<BitmapHandle<H>, E>),
}

/// What is to be done next on the way to the handle of a bitmap.
#[derive(Debug)]
pub enum HandleAction<Bitmap, H, E> {
    /// Ask the host to decode the compressed bitmap in the background.
    Submit,
    /// Ask the host for the bitmap of this request.
    Poll(u64),
    /// Ask the host for its placeholder.
    AskPlaceholder,
    /// Decode the compressed bitmap at once.
    Decode,
    /// Register the decoded bitmap with the renderer.
    Register(Bitmap),
    /// Hand this out.
    Done(Result<BitmapHandle<H>, E>),
}

/// Whether an evicted bitmap is decoded in the background under the policy.
pub open spec fn in_background(policy: Option<BitmapResidencyPolicy>) -> bool {
    policy matches Some(policy) && policy.decode_strategy is Async
}

/// What is to be done for a sample: nothing where the bitmap is realised, else to
/// look for the bitmap of the request where there is one, else to decode, in the
/// background where the bitmap was evicted and the policy says so.
pub open spec fn on_sample<Bitmap, H, E>(
    residency: BitmapResidency<H>,
    policy: Option<BitmapResidencyPolicy>,
) -> HandleAction<Bitmap, H, E> {
    match (residency.handle, residency.pending) {
        (Some(handle), _) => HandleAction::Done(Ok(handle)),
        (None, Some(id)) => HandleAction::Poll(id),
        (None, None) => if residency.evicted && in_background(policy) {
            HandleAction::Submit
        } else {
            HandleAction::Decode
        },
    }
}

/// The residency of a bitmap that has the handle.
pub open spec fn realised_with<H>(
    residency: BitmapResidency<H>,
    handle: BitmapHandle<H>,
) -> BitmapResidency<H> {
    BitmapResidency {
        handle: Some(handle),
        last_sampled: residency.last_sampled,
        pending: None,
        evicted: false,
    }
}

/// What an event does to the residency of a bitmap, and what is to be done then.
pub open spec fn handle_step<Bitmap, H, E>(
    residency: BitmapResidency<H>,
    event: HandleEvent<Bitmap, H, E>,
) -> (BitmapResidency<H>, HandleAction<Bitmap, H, E>) {
    match event {
        HandleEvent::Sampled(now, policy) => (
            BitmapResidency { last_sampled: Some(now), ..residency },
            on_sample(residency, policy),
        ),
        HandleEvent::Submitted(Some(id)) => (
            BitmapResidency { pending: Some(id), ..residency },
            HandleAction::AskPlaceholder,
        ),
        HandleEvent::Submitted(None) => (residency, HandleAction::Decode),
        HandleEvent::Polled(Some(bitmap)) => (
            BitmapResidency { pending: None, ..residency },
            HandleAction::Register(bitmap),
        ),
        HandleEvent::Polled(None) => (residency, HandleAction::AskPlaceholder),
        HandleEvent::Placeholder(Some(placeholder)) => (
            residency,
            HandleAction::Done(Ok(placeholder)),
        ),
        HandleEvent::Placeholder(None) => (
            BitmapResidency { pending: None, ..residency },
            HandleAction::Decode,
        ),
        HandleEvent::Decoded(Ok(bitmap)) => (residency, HandleAction::Register(bitmap)),
        HandleEvent::Decoded(Err(error)) => (residency, HandleAction::Done(Err(error))),
        HandleEvent::Registered(Ok(fresh)) => match residency.handle {
            Some(handle) => (residency, HandleAction::Done(Ok(handle))),
            None => (realised_with(residency, fresh), HandleAction::Done(Ok(fresh))),
        },
        HandleEvent::Registered(Err(error)) => (residency, HandleAction::Done(Err(error))),
    }
}

/// The residency of a bitmap once it was evicted: its handle is gone, and the time
/// of the last sample stays. Where it was not realised, a request that is under way
/// is given up.
pub open spec fn evicted<H>(residency: BitmapResidency<H>) -> BitmapResidency<H> {
    BitmapResidency {
        handle: None,
        last_sampled: residency.last_sampled,
        pending: None,
        evicted: if residency.handle is Some {
            true
        } else {
            residency.evicted && residency.pending is None
        },
    }
}

/// A bitmap of a library: the compressed image, and its GPU residency, which
/// comes and goes.
#[derive(Debug)]
pub struct BitmapCharacter<H, Class> {
    compressed: CompressedBitmap,
    residency: BitmapResidency<H>,
    avm2_class: BitmapClass<Class>,
}

impl<H, Class> BitmapCharacter<H, Class> {
    pub closed spec fn source(&self) -> CompressedBitmap {
        self.compressed
    }

    pub closed spec fn residency(&self) -> BitmapResidency<H> {
        self.residency
    }

    pub closed spec fn class(&self) -> BitmapClass<Class> {
        self.avm2_class
    }

    /// A bitmap that is not realised and was never sampled.
    pub fn new(compressed: CompressedBitmap) -> (character: Self)
        ensures
            character.source() == compressed,
            character.residency().handle is None,
            character.residency().last_sampled is None,
            character.residency().pending is None,
            !character.residency().evicted,
            character.class() is NoSubclass,
    {
        BitmapCharacter {
            compressed,
            residency: BitmapResidency::default(),
            avm2_class: BitmapClass::NoSubclass,
        }
    }

    /// The compressed image.
    pub fn compressed(&self) -> (compressed: &CompressedBitmap)
        ensures
            *compressed == self.source(),
    {
        &self.compressed
    }

    /// The script class of the bitmap.
    pub fn avm2_class(&self) -> (class: BitmapClass<Class>) where Class: Copy
        ensures
            class == self.class(),
    {
        self.avm2_class
    }

    /// Sets the script class of the bitmap.
    pub fn set_avm2_class(&mut self, bitmap_class: BitmapClass<Class>)
        ensures
            final(self).class() == bitmap_class,
            final(self).source() == old(self).source(),
            final(self).residency() == old(self).residency(),
    {
        self.avm2_class = bitmap_class;
    }

    /// One step on the way to the handle of the bitmap. A sample that finds the
    /// bitmap realised has its handle at once. A bitmap that was evicted under a
    /// policy of background decoding is decoded by the host: until that is done,
    /// every sample looks for it and has the placeholder of the host. Any other
    /// sample, and one for which the host takes no request or has no placeholder, has
    /// the image decoded and registered at once. Where another sample has realised
    /// the bitmap in the meantime, that handle is used and the new one is let go.
    /// Every sample is noted, also one that fails later.
    pub fn bitmap_handle<Bitmap, E>(&mut self, event: HandleEvent<Bitmap, H, E>) -> (action:
        HandleAction<Bitmap, H, E>)
        ensures
            (final(self).residency(), action) == handle_step(old(self).residency(), event),
            final(self).source() == old(self).source(),
            final(self).class() == old(self).class(),
    {
        match event {
            HandleEvent::Sampled(now, policy) => {
                self.residency.last_sampled = Some(now);
                if let Some(handle) = &self.residency.handle {
                    return HandleAction::Done(Ok(handle.share()));
                }
                if let Some(id) = self.residency.pending {
                    return HandleAction::Poll(id);
                }
                let background = match policy {
                    Some(policy) => match policy.decode_strategy {
                        BitmapDecodeStrategy::Async => true,
                        BitmapDecodeStrategy::Sync => false,
                    },
                    None => false,
                };
                if self.residency.evicted && background {
                    HandleAction::Submit
                } else {
                    HandleAction::Decode
                }
            },
            HandleEvent::Submitted(Some(id)) => {
                self.residency.pending = Some(id);
                HandleAction::AskPlaceholder
            },
            HandleEvent::Submitted(None) => HandleAction::Decode,
            HandleEvent::Polled(Some(bitmap)) => {
                self.residency.pending = None;
                HandleAction::Register(bitmap)
            },
            HandleEvent::Polled(None) => HandleAction::AskPlaceholder,
            HandleEvent::Placeholder(Some(placeholder)) => HandleAction::Done(Ok(placeholder)),
            HandleEvent::Placeholder(None) => {
                self.residency.pending = None;
                HandleAction::Decode
            },
            HandleEvent::Decoded(Ok(bitmap)) => HandleAction::Register(bitmap),
            HandleEvent::Decoded(Err(error)) => HandleAction::Done(Err(error)),
            HandleEvent::Registered(Ok(fresh)) => {
                if let Some(handle) = &self.residency.handle {
                    return HandleAction::Done(Ok(handle.share()));
                }
                self.residency.handle = Some(fresh.share());
                self.residency.pending = None;
                self.residency.evicted = false;
                HandleAction::Done(Ok(fresh))
            },
            HandleEvent::Registered(Err(error)) => HandleAction::Done(Err(error)),
        }
    }

    /// The bytes that the realised bitmap holds on the GPU, if it is realised.
    pub fn realised_bytes(&self) -> (bytes: Option<u64>)
        requires
            self.residency().handle is Some ==> self.source().decoded_len() <= u64::MAX,
        ensures
            match bytes {
                Some(bytes) => realised_len(self.residency(), self.source()) == Some(bytes as int),
                None => realised_len(self.residency(), self.source()) is None,
            },
            match bytes {
                Some(bytes) => self.residency().handle is Some && bytes
                    == self.source().decoded_len(),
                None => self.residency().handle is None,
            },
    {
        if self.residency.handle.is_some() {
            let size = self.compressed.size();
            assert(size.width * size.height <= u32::MAX * u32::MAX) by (nonlinear_arith)
                requires
                    size.width <= u32::MAX,
                    size.height <= u32::MAX,
            ;
            Some(size.width as u64 * size.height as u64 * 4)
        } else {
            None
        }
    }

    /// Whether the bitmap is realised.
    pub fn is_realised(&self) -> (realised: bool)
        ensures
            realised == (self.residency().handle is Some),
    {
        self.residency.handle.is_some()
    }

    /// When the bitmap was last sampled.
    pub fn last_sampled(&self) -> (at: Option<Instant>)
        ensures
            at == self.residency().last_sampled,
    {
        self.residency.last_sampled
    }

    /// Lets the GPU handle go. Returns whether there was one. The compressed image
    /// stays, and so does the time of the last sample. A request that is under way is
    /// given up, and the next sample decodes at once.
    pub fn evict_gpu(&mut self) -> (had_handle: bool)
        ensures
            was_evicted(old(self).residency(), final(self).residency(), had_handle),
            had_handle == (old(self).residency().handle is Some),
            final(self).residency() == evicted(old(self).residency()),
            final(self).source() == old(self).source(),
            final(self).class() == old(self).class(),
    {
        if self.residency.handle.is_some() {
            self.residency.handle = None;
            self.residency.pending = None;
            self.residency.evicted = true;
            true
        } else {
            if self.residency.pending.is_some() {
                self.residency.pending = None;
                self.residency.evicted = false;
            }
            false
        }
    }

    /// The bytes that the compressed image holds in memory, whether the bitmap is
    /// realised or not.
    pub fn compressed_source_bytes(&self) -> (bytes: u64)
        requires
            self.source().source_len() <= usize::MAX,
        ensures
            bytes == self.source().source_len(),
    {
        self.compressed.source_bytes()
    }
}

/// A bitmap that is decoded at once is registered and has the handle that the
/// renderer gave from then on: the next sample decodes nothing.
pub proof fn law_a_realised_bitmap_is_decoded_once<Bitmap, H, E>(
    residency: BitmapResidency<H>,
    policy: Option<BitmapResidencyPolicy>,
    first: Instant,
    second: Instant,
    bitmap: Bitmap,
    handle: BitmapHandle<H>,
)
    requires
        residency.handle is None,
        residency.pending is None,
        !residency.evicted || !in_background(policy),
    ensures
        ({
            let (sampled, decode) = handle_step::<Bitmap, H, E>(
                residency,
                HandleEvent::Sampled(first, policy),
            );
            let (decoded, register) = handle_step::<Bitmap, H, E>(
                sampled,
                HandleEvent::Decoded(Ok(bitmap)),
            );
            let (realised, done) = handle_step::<Bitmap, H, E>(
                decoded,
                HandleEvent::Registered(Ok(handle)),
            );
            let (again, cached) = handle_step::<Bitmap, H, E>(
                realised,
                HandleEvent::Sampled(second, policy),
            );
            &&& decode == HandleAction::<Bitmap, H, E>::Decode
            &&& register == HandleAction::<Bitmap, H, E>::Register(bitmap)
            &&& done == HandleAction::<Bitmap, H, E>::Done(Ok(handle))
            &&& cached == HandleAction::<Bitmap, H, E>::Done(Ok(handle))
            &&& realised.last_sampled == Some(first)
            &&& again.last_sampled == Some(second)
        }),
{
}

/// While an evicted bitmap is decoded in the background, samples have the
/// placeholder of the host and nothing is decoded at once: the first submits the
/// request, and every later one looks for its bitmap.
pub proof fn law_a_placeholder_stands_for_a_pending_bitmap<Bitmap, H, E>(
    residency: BitmapResidency<H>,
    policy: Option<BitmapResidencyPolicy>,
    first: Instant,
    second: Instant,
    id: u64,
    placeholder: BitmapHandle<H>,
)
    requires
        residency.handle is Some,
        in_background(policy),
    ensures
        ({
            let (sampled, submit) = handle_step::<Bitmap, H, E>(
                evicted(residency),
                HandleEvent::Sampled(first, policy),
            );
            let (submitted, ask) = handle_step::<Bitmap, H, E>(
                sampled,
                HandleEvent::Submitted(Some(id)),
            );
            let (missed, done) = handle_step::<Bitmap, H, E>(
                submitted,
                HandleEvent::Placeholder(Some(placeholder)),
            );
            let (resampled, poll) = handle_step::<Bitmap, H, E>(
                missed,
                HandleEvent::Sampled(second, policy),
            );
            let (polled, ask_again) = handle_step::<Bitmap, H, E>(
                resampled,
                HandleEvent::Polled(None),
            );
            let (missed_again, done_again) = handle_step::<Bitmap, H, E>(
                polled,
                HandleEvent::Placeholder(Some(placeholder)),
            );
            &&& submit == HandleAction::<Bitmap, H, E>::Submit
            &&& ask == HandleAction::<Bitmap, H, E>::AskPlaceholder
            &&& done == HandleAction::<Bitmap, H, E>::Done(Ok(placeholder))
            &&& missed.pending == Some(id)
            &&& missed.handle is None
            &&& poll == HandleAction::<Bitmap, H, E>::Poll(id)
            &&& ask_again == HandleAction::<Bitmap, H, E>::AskPlaceholder
            &&& done_again == HandleAction::<Bitmap, H, E>::Done(Ok(placeholder))
            &&& missed_again.pending == Some(id)
            &&& missed_again.handle is None
            &&& missed_again.last_sampled == Some(second)
        }),
{
}

/// A bitmap that was decoded in the background is registered by the first sample
/// that finds it, and has its handle from then on.
pub proof fn law_a_pending_bitmap_is_picked_up<Bitmap, H, E>(
    residency: BitmapResidency<H>,
    policy: Option<BitmapResidencyPolicy>,
    first: Instant,
    second: Instant,
    id: u64,
    bitmap: Bitmap,
    handle: BitmapHandle<H>,
)
    requires
        residency.handle is None,
        residency.pending == Some(id),
    ensures
        ({
            let (sampled, poll) = handle_step::<Bitmap, H, E>(
                residency,
                HandleEvent::Sampled(first, policy),
            );
            let (polled, register) = handle_step::<Bitmap, H, E>(
                sampled,
                HandleEvent::Polled(Some(bitmap)),
            );
            let (realised, done) = handle_step::<Bitmap, H, E>(
                polled,
                HandleEvent::Registered(Ok(handle)),
            );
            let (_, cached) = handle_step::<Bitmap, H, E>(
                realised,
                HandleEvent::Sampled(second, policy),
            );
            &&& poll == HandleAction::<Bitmap, H, E>::Poll(id)
            &&& register == HandleAction::<Bitmap, H, E>::Register(bitmap)
            &&& done == HandleAction::<Bitmap, H, E>::Done(Ok(handle))
            &&& realised.pending is None
            &&& cached == HandleAction::<Bitmap, H, E>::Done(Ok(handle))
        }),
{
}

/// Where the host takes no request or has no placeholder, the bitmap is decoded at
/// once, and no request is left under way.
pub proof fn law_without_a_host_bitmaps_are_decoded_at_once<Bitmap, H, E>(
    residency: BitmapResidency<H>,
    policy: Option<BitmapResidencyPolicy>,
    now: Instant,
)
    requires
        residency.handle is None,
    ensures
        residency.pending is None && !in_background(policy) ==> handle_step::<Bitmap, H, E>(
            residency,
            HandleEvent::Sampled(now, policy),
        ).1 == HandleAction::<Bitmap, H, E>::Decode,
        handle_step::<Bitmap, H, E>(residency, HandleEvent::Submitted(None)) == (
            residency,
            HandleAction::<Bitmap, H, E>::Decode,
        ),
        handle_step::<Bitmap, H, E>(residency, HandleEvent::Placeholder(None)).0.pending is None,
        handle_step::<Bitmap, H, E>(residency, HandleEvent::Placeholder(None)).1
            == HandleAction::<Bitmap, H, E>::Decode,
{
}

/// A request that never comes to an end is given up by an eviction: the next sample
/// decodes at once, whatever the policy.
pub proof fn law_a_given_up_request_is_decoded_at_once<Bitmap, H, E>(
    residency: BitmapResidency<H>,
    policy: Option<BitmapResidencyPolicy>,
    now: Instant,
)
    requires
        residency.handle is None,
        residency.pending is Some,
    ensures
        evicted(residency).pending is None,
        handle_step::<Bitmap, H, E>(evicted(residency), HandleEvent::Sampled(now, policy)).1
            == HandleAction::<Bitmap, H, E>::Decode,
{
}

/// Of two samples that run into each other, the one that is registered first
/// decides: both hand out its handle.
pub proof fn law_the_first_handle_stays<Bitmap, H, E>(
    residency: BitmapResidency<H>,
    earlier: BitmapHandle<H>,
    later: BitmapHandle<H>,
)
    requires
        residency.handle is None,
    ensures
        ({
            let (one, first) = handle_step::<Bitmap, H, E>(
                residency,
                HandleEvent::Registered(Ok(earlier)),
            );
            let (two, second) = handle_step::<Bitmap, H, E>(
                one,
                HandleEvent::Registered(Ok(later)),
            );
            &&& first == HandleAction::<Bitmap, H, E>::Done(Ok(earlier))
            &&& second == HandleAction::<Bitmap, H, E>::Done(Ok(earlier))
            &&& two == one
        }),
{
}

/// A bitmap whose decoding or registration fails stays as it was, but for the
/// time of the sample, and the next sample tries again in the same way.
pub proof fn law_a_failed_sample_is_tried_again<Bitmap, H, E>(
    residency: BitmapResidency<H>,
    policy: Option<BitmapResidencyPolicy>,
    now: Instant,
    later: Instant,
    failure: HandleEvent<Bitmap, H, E>,
    error: E,
)
    requires
        residency.handle is None,
        residency.pending is None,
        failure == HandleEvent::<Bitmap, H, E>::Decoded(Err(error)) || failure == HandleEvent::<
            Bitmap,
            H,
            E,
        >::Registered(Err(error)),
    ensures
        ({
            let (sampled, first) = handle_step::<Bitmap, H, E>(
                residency,
                HandleEvent::Sampled(now, policy),
            );
            let (failed, done) = handle_step(sampled, failure);
            let (_, retry) = handle_step::<Bitmap, H, E>(
                failed,
                HandleEvent::Sampled(later, policy),
            );
            &&& done == HandleAction::<Bitmap, H, E>::Done(Err(error))
            &&& failed == (BitmapResidency { last_sampled: Some(now), ..residency })
            &&& retry == first
            &&& retry == HandleAction::<Bitmap, H, E>::Decode || retry == HandleAction::<
                Bitmap,
                H,
                E,
            >::Submit
        }),
{
}

/// An evicted bitmap keeps the time of its last sample, is decoded anew by the
/// next one, in the background where the policy says so, and has nothing left to
/// evict.
pub proof fn law_an_evicted_bitmap_is_decoded_again<Bitmap, H, E>(
    residency: BitmapResidency<H>,
    policy: Option<BitmapResidencyPolicy>,
    now: Instant,
)
    ensures
        evicted(residency).last_sampled == residency.last_sampled,
        residency.handle is Some ==> handle_step::<Bitmap, H, E>(
            evicted(residency),
            HandleEvent::Sampled(now, policy),
        ).1 == if in_background(policy) {
            HandleAction::<Bitmap, H, E>::Submit
        } else {
            HandleAction::<Bitmap, H, E>::Decode
        },
        evicted(evicted(residency)) == evicted(residency),
{
}

/// A sample of a realised bitmap hands out its handle and changes nothing but the time of
/// the last sample: the bitmap is realised with the same handle afterwards.
pub proof fn law_a_sample_leaves_a_realised_bitmap_as_it_is<Bitmap, H, E>(
    residency: BitmapResidency<H>,
    handle: BitmapHandle<H>,
    now: Instant,
    policy: Option<BitmapResidencyPolicy>,
)
    requires
        residency.handle == Some(handle),
    ensures
        ({
            let (after, action) = handle_step::<Bitmap, H, E>(
                residency,
                HandleEvent::Sampled(now, policy),
            );
            &&& action == HandleAction::<Bitmap, H, E>::Done(Ok(handle))
            &&& after.handle == Some(handle)
            &&& after.last_sampled == Some(now)
            &&& after.pending == residency.pending
            &&& after.evicted == residency.evicted
        }),
{
}

/// A realised bitmap stays realised with its first handle as long as it is not evicted,
/// whatever happens and however often: every sample hands that handle out, and none
/// decodes.
pub proof fn law_a_realised_bitmap_stays_realised<Bitmap, H, E>(
    states: Seq<BitmapResidency<H>>,
    events: Seq<HandleEvent<Bitmap, H, E>>,
    actions: Seq<HandleAction<Bitmap, H, E>>,
    handle: BitmapHandle<H>,
)
    requires
        states.len() == events.len() + 1,
        actions.len() == events.len(),
        states[0].handle == Some(handle),
        forall|i: int|
            0 <= i < events.len() ==> (states[i + 1], actions[i]) == handle_step(
                states[i],
                #[trigger] events[i],
            ),
    ensures
        forall|i: int| 0 <= i < states.len() ==> (#[trigger] states[i]).handle == Some(handle),
        forall|i: int|
            0 <= i < events.len() && events[i] is Sampled ==> #[trigger] actions[i]
                == HandleAction::<Bitmap, H, E>::Done(Ok(handle)),
    decreases events.len(),
{
    if events.len() > 0 {
        let n = events.len() - 1;
        let fewer_states = states.drop_last();
        let fewer_events = events.drop_last();
        let fewer_actions = actions.drop_last();
        assert forall|i: int| 0 <= i < fewer_events.len() implies (
            fewer_states[i + 1],
            fewer_actions[i],
        ) == handle_step(fewer_states[i], #[trigger] fewer_events[i]) by {
            assert(events[i] == fewer_events[i]);
        }
        law_a_realised_bitmap_stays_realised(fewer_states, fewer_events, fewer_actions, handle);
        assert(fewer_states[n].handle == Some(handle));
        assert((states[n + 1], actions[n]) == handle_step(states[n], events[n]));
        assert forall|i: int| 0 <= i < states.len() implies (#[trigger] states[i]).handle == Some(
            handle,
        ) by {
            if i <= n {
                assert(fewer_states[i] == states[i]);
            }
        }
        assert forall|i: int| 0 <= i < events.len() && events[i] is Sampled implies
            #[trigger] actions[i] == HandleAction::<Bitmap, H, E>::Done(Ok(handle)) by {
            if i < n {
                assert(fewer_actions[i] == actions[i]);
                assert(fewer_events[i] == events[i]);
            }
        }
    }
}

/// A bitmap is realised by a registration that succeeds, with the handle that it gave, and
/// by nothing else. It is then neither under way nor evicted.
pub proof fn law_only_a_registration_realises<Bitmap, H, E>(
    residency: BitmapResidency<H>,
    event: HandleEvent<Bitmap, H, E>,
)
    requires
        residency.handle is None,
    ensures
        ({
            let (after, action) = handle_step(residency, event);
            match event {
                HandleEvent::Registered(Ok(fresh)) => {
                    &&& after.handle == Some(fresh)
                    &&& after.pending is None
                    &&& !after.evicted
                    &&& action == HandleAction::<Bitmap, H, E>::Done(Ok(fresh))
                },
                _ => after.handle is None && after.evicted == residency.evicted,
            }
        }),
{
}

/// The time of the last sample is that of the last sample: every sample moves it, whatever
/// comes of it, and nothing else does.
pub proof fn law_every_sample_is_noted<Bitmap, H, E>(
    residency: BitmapResidency<H>,
    event: HandleEvent<Bitmap, H, E>,
)
    ensures
        handle_step(residency, event).0.last_sampled == match event {
            HandleEvent::Sampled(now, _) => Some(now),
            _ => residency.last_sampled,
        },
        evicted(residency).last_sampled == residency.last_sampled,
{
}

/// What a sample of a bitmap that is not realised leads to. It looks for the bitmap of the
/// request that is under way. Where none is, an evicted bitmap is decoded in the
/// background exactly where there is a policy that says so, and any other at once.
pub proof fn law_a_sample_asks_for_what_is_missing<Bitmap, H, E>(
    residency: BitmapResidency<H>,
    now: Instant,
    policy: Option<BitmapResidencyPolicy>,
)
    requires
        residency.handle is None,
    ensures
        ({
            let (after, action) = handle_step::<Bitmap, H, E>(
                residency,
                HandleEvent::Sampled(now, policy),
            );
            &&& after.pending == residency.pending
            &&& residency.pending is Some <==> action is Poll
            &&& residency.pending matches Some(id) ==> action == HandleAction::<
                Bitmap,
                H,
                E,
            >::Poll(id)
            &&& action is Submit <==> residency.pending is None && residency.evicted
                && policy is Some && policy->Some_0.decode_strategy
                == BitmapDecodeStrategy::Async
            &&& action is Decode <==> residency.pending is None && (!residency.evicted
                || policy is None || policy->Some_0.decode_strategy == BitmapDecodeStrategy::Sync)
        }),
{
}

/// A request is under way from when the host took it until its bitmap came or there was no
/// placeholder for it. Meanwhile the placeholder is handed out.
pub proof fn law_a_request_is_under_way_until_it_is_answered<Bitmap, H, E>(
    residency: BitmapResidency<H>,
    id: u64,
    bitmap: Bitmap,
    placeholder: BitmapHandle<H>,
)
    ensures
        ({
            let (after, action) = handle_step::<Bitmap, H, E>(
                residency,
                HandleEvent::Submitted(Some(id)),
            );
            after.pending == Some(id) && action is AskPlaceholder
        }),
        ({
            let (after, action) = handle_step::<Bitmap, H, E>(residency, HandleEvent::Polled(None));
            after.pending == residency.pending && action is AskPlaceholder
        }),
        ({
            let (after, action) = handle_step::<Bitmap, H, E>(
                residency,
                HandleEvent::Placeholder(Some(placeholder)),
            );
            after.pending == residency.pending && action == HandleAction::<Bitmap, H, E>::Done(
                Ok(placeholder),
            )
        }),
        ({
            let (after, action) = handle_step::<Bitmap, H, E>(
                residency,
                HandleEvent::Polled(Some(bitmap)),
            );
            after.pending is None && action == HandleAction::<Bitmap, H, E>::Register(bitmap)
        }),
        ({
            let (after, action) = handle_step::<Bitmap, H, E>(
                residency,
                HandleEvent::Placeholder(None),
            );
            after.pending is None && action is Decode
        }),
        ({
            let (after, action) = handle_step::<Bitmap, H, E>(
                residency,
                HandleEvent::Submitted(None),
            );
            after.pending == residency.pending && action is Decode
        }),
{
}

/// What is decoded is registered, and what fails is handed out as it failed; neither
/// changes the residency.
pub proof fn law_decoding_leaves_the_residency_as_it_is<Bitmap, H, E>(
    residency: BitmapResidency<H>,
    bitmap: Bitmap,
    error: E,
)
    ensures
        handle_step::<Bitmap, H, E>(residency, HandleEvent::Decoded(Ok(bitmap))) == (
            residency,
            HandleAction::<Bitmap, H, E>::Register(bitmap),
        ),
        handle_step::<Bitmap, H, E>(residency, HandleEvent::Decoded(Err(error))) == (
            residency,
            HandleAction::<Bitmap, H, E>::Done(Err(error)),
        ),
        handle_step::<Bitmap, H, E>(residency, HandleEvent::Registered(Err(error))) == (
            residency,
            HandleAction::<Bitmap, H, E>::Done(Err(error)),
        ),
{
}

/// After an eviction a bitmap is not realised and no request is under way. It counts as
/// evicted where it was realised, and where it was evicted before and no request was given
/// up.
pub proof fn law_an_eviction_leaves_nothing_on_the_gpu<H>(residency: BitmapResidency<H>)
    ensures
        evicted(residency).handle is None,
        evicted(residency).pending is None,
        residency.handle is Some ==> evicted(residency).evicted,
        residency.handle is None && residency.pending is Some ==> !evicted(residency).evicted,
        residency.handle is None && residency.pending is None ==> evicted(residency).evicted
            == residency.evicted,
{
}

/// A decoded bitmap has the sides that its image was declared with, and four bytes for each
/// pixel: as many more as it has more columns or rows.
pub proof fn law_a_decoded_bitmap_has_four_bytes_for_each_pixel(
    data: Vec<u8>,
    alpha: Option<Vec<u8>>,
    width: u32,
    height: u32,
    define: DefineBitsLossless,
)
    ensures
        ({
            let jpeg = CompressedBitmap::Jpeg { data, alpha, width, height };
            &&& jpeg.decoded_size().width == width
            &&& jpeg.decoded_size().height == height
            &&& jpeg.decoded_len() == 4 * (width * height)
        }),
        ({
            let lossless = CompressedBitmap::Lossless(define);
            &&& lossless.decoded_size().width == define.width
            &&& lossless.decoded_size().height == define.height
            &&& lossless.decoded_len() == 4 * (define.width * define.height)
        }),
{
}

/// A compressed image holds the bytes of its data and, where it has an alpha plane apart,
/// those of the plane too.
pub proof fn law_a_source_holds_its_data_and_its_alpha_plane(
    data: Vec<u8>,
    plane: Vec<u8>,
    width: u32,
    height: u32,
    define: DefineBitsLossless,
)
    ensures
        (CompressedBitmap::Jpeg { data, alpha: None, width, height }).source_len() == data@.len(),
        (CompressedBitmap::Jpeg { data, alpha: Some(plane), width, height }).source_len()
            == data@.len() + plane@.len(),
        CompressedBitmap::Lossless(define).source_len() == define.data@.len(),
{
}

/// The bytes that a realised bitmap holds on the GPU.
pub open spec fn realised_len<H>(
    residency: BitmapResidency<H>,
    source: CompressedBitmap,
) -> Option<int> {
    if residency.handle is Some {
        Some(source.decoded_len())
    } else {
        None
    }
}

/// What evicting a bitmap does.
pub open spec fn was_evicted<H>(
    before: BitmapResidency<H>,
    after: BitmapResidency<H>,
    had_handle: bool,
) -> bool {
    after == evicted(before) && had_handle == (before.handle is Some)
}

/// A bitmap holds bytes on the GPU exactly while it is realised: all that it has when decoded
/// from when it is registered, and none after it was evicted. An eviction tells whether it did
/// anything, and a second one never does.
pub proof fn law_a_bitmap_holds_bytes_while_it_is_realised<Bitmap, H, E>(
    source: CompressedBitmap,
    before: BitmapResidency<H>,
    handle: BitmapHandle<H>,
    first: BitmapResidency<H>,
    had_handle: bool,
    second: BitmapResidency<H>,
    had_handle_still: bool,
)
    requires
        was_evicted(
            handle_step::<Bitmap, H, E>(before, HandleEvent::Registered(Ok(handle))).0,
            first,
            had_handle,
        ),
        was_evicted(first, second, had_handle_still),
    ensures
        realised_len(
            handle_step::<Bitmap, H, E>(before, HandleEvent::Registered(Ok(handle))).0,
            source,
        ) == Some(source.decoded_len()),
        before.handle is None ==> realised_len(before, source) is None,
        had_handle,
        realised_len(first, source) is None,
        !had_handle_still,
        second == first,
{
}

} // verus!
