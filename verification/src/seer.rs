//! What the renderer tells its host, and what the host may ask of it.

use vstd::prelude::*;

pub use crate::host_slot::{host, install, HostSlot};

verus! {

/// Where a texture comes from, so that the host can keep a memory gauge for each
/// source.
#[derive(Copy, Clone, Debug, PartialEq, Eq, Hash, Structural)]
pub enum TextureSource {
    /// Library bitmaps.
    Bitmap,
    /// Render targets of display objects that are cached as bitmaps.
    BitmapCache,
    /// Filter intermediates and surface render targets.
    FilterPool,
    /// Stage3D buffers and textures.
    Context3D,
    /// Pixel bender intermediates.
    PixelBender,
    /// Everything else.
    Other,
}

/// The number of texture sources.
pub const SOURCE_COUNT: usize = 6;

impl TextureSource {
    /// The place of a source in an array of gauges.
    pub open spec fn place(self) -> int {
        match self {
            TextureSource::Bitmap => 0,
            TextureSource::BitmapCache => 1,
            TextureSource::FilterPool => 2,
            TextureSource::Context3D => 3,
            TextureSource::PixelBender => 4,
            TextureSource::Other => 5,
        }
    }

    /// The tag of a source in log lines.
    pub open spec fn tag(self) -> Seq<char> {
        match self {
            TextureSource::Bitmap => "bitmap"@,
            TextureSource::BitmapCache => "cache"@,
            TextureSource::FilterPool => "pool"@,
            TextureSource::Context3D => "ctx3d"@,
            TextureSource::PixelBender => "pb"@,
            TextureSource::Other => "other"@,
        }
    }

    /// A stable index into an array of one gauge per source.
    pub fn index(self) -> (index: usize)
        ensures
            index == self.place(),
    {
        match self {
            TextureSource::Bitmap => 0,
            TextureSource::BitmapCache => 1,
            TextureSource::FilterPool => 2,
            TextureSource::Context3D => 3,
            TextureSource::PixelBender => 4,
            TextureSource::Other => 5,
        }
    }

    /// A short tag for log lines and debug labels.
    pub fn short(self) -> (tag: &'static str)
        ensures
            tag@ == self.tag(),
    {
        match self {
            TextureSource::Bitmap => "bitmap",
            TextureSource::BitmapCache => "cache",
            TextureSource::FilterPool => "pool",
            TextureSource::Context3D => "ctx3d",
            TextureSource::PixelBender => "pb",
            TextureSource::Other => "other",
        }
    }
}

/// Every source has a gauge of its own: the indices fill the array and no two
/// sources share one.
pub proof fn law_sources_have_gauges_of_their_own(a: TextureSource, b: TextureSource)
    ensures
        0 <= a.place() < SOURCE_COUNT,
        a.place() == b.place() ==> a == b,
{
}

/// No two sources share a tag.
pub proof fn law_sources_have_tags_of_their_own(a: TextureSource, b: TextureSource)
    ensures
        a.tag() == b.tag() ==> a == b,
{
    reveal_strlit("bitmap");
    reveal_strlit("cache");
    reveal_strlit("pool");
    reveal_strlit("ctx3d");
    reveal_strlit("pb");
    reveal_strlit("other");
    let first = a.tag()[0];
    let last = a.tag()[a.tag().len() - 1];
    assert(a.tag() == b.tag() ==> a.tag().len() == b.tag().len() && b.tag()[0] == first);
}

/// What a host is told of one texture.
#[derive(Copy, Clone, Debug, PartialEq, Eq, Structural)]
pub enum CensusEvent {
    /// A texture of that many bytes was made.
    Registered { source: TextureSource, bytes: u64 },
    /// A texture of that many bytes is gone.
    Dropped { source: TextureSource, bytes: u64 },
}

/// What one event adds to the bytes that a source holds.
pub open spec fn gain(event: CensusEvent, source: TextureSource) -> int {
    match event {
        CensusEvent::Registered { source: from, bytes } => if from == source {
            bytes as int
        } else {
            0
        },
        CensusEvent::Dropped { source: from, bytes } => if from == source {
            -(bytes as int)
        } else {
            0
        },
    }
}

/// The bytes that a source holds after the events: the gauge that a host keeps
/// for it.
pub open spec fn live_bytes(events: Seq<CensusEvent>, source: TextureSource) -> int
    decreases events.len(),
{
    if events.len() == 0 {
        0
    } else {
        live_bytes(events.drop_last(), source) + gain(events.last(), source)
    }
}

/// One more event moves the gauge by what it adds.
pub proof fn lemma_live_bytes_push(
    events: Seq<CensusEvent>,
    event: CensusEvent,
    source: TextureSource,
)
    ensures
        live_bytes(events.push(event), source) == live_bytes(events, source) + gain(event, source),
{
    assert(events.push(event).drop_last() =~= events);
}

/// The host of a renderer. Each method that a host does not write itself keeps
/// the behaviour of a renderer without a host.
pub trait SeerHost: Send + Sync + 'static {
    /// Whether a captured frame keeps its premultiplied alpha.
    fn skip_unmultiply_on_capture(&self) -> (skip: bool)
        default_ensures
            !skip,
    {
        false
    }

    /// A bitmap was registered, and that many bytes were committed for it.
    fn on_bitmap_registered(&self, _width: u32, _height: u32, _bytes: u64) {
    }

    /// The texture of a bitmap is being dropped.
    fn on_bitmap_dropped(&self, _bytes: u64) {
    }

    /// A texture was made.
    fn on_texture_registered(&self, _source: TextureSource, _bytes: u64) {
    }

    /// A texture is being dropped.
    fn on_texture_dropped(&self, _source: TextureSource, _bytes: u64) {
    }
}

/// A host that keeps every default.
#[derive(Debug)]
pub struct DefaultSeerHost;

impl SeerHost for DefaultSeerHost {

}

/// The gauge of a source starts at nothing, grows by the bytes of a texture of that source
/// that is made, falls by those of one that is gone, and does not move for any other
/// source.
pub proof fn law_a_gauge_follows_its_source(
    events: Seq<CensusEvent>,
    source: TextureSource,
    from: TextureSource,
    bytes: u64,
)
    ensures
        live_bytes(Seq::empty(), source) == 0,
        from == source ==> live_bytes(
            events.push(CensusEvent::Registered { source: from, bytes }),
            source,
        ) == live_bytes(events, source) + bytes,
        from == source ==> live_bytes(
            events.push(CensusEvent::Dropped { source: from, bytes }),
            source,
        ) == live_bytes(events, source) - bytes,
        from != source ==> live_bytes(
            events.push(CensusEvent::Registered { source: from, bytes }),
            source,
        ) == live_bytes(events, source),
        from != source ==> live_bytes(
            events.push(CensusEvent::Dropped { source: from, bytes }),
            source,
        ) == live_bytes(events, source),
{
    lemma_live_bytes_push(events, CensusEvent::Registered { source: from, bytes }, source);
    lemma_live_bytes_push(events, CensusEvent::Dropped { source: from, bytes }, source);
}

} // verus!
