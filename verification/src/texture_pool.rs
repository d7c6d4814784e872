//! Pools of filter textures, one for each kind of texture that was asked for.

use std::sync::Arc;

use fnv::FnvHashMap;
use vstd::prelude::*;

use crate::buffer_pool::{
    is_cheapest, is_usable, none_usable, without, AlwaysCompatible, BufferPool, PoolEntry,
};
use crate::fnv_map;
use crate::fnv_map::MapKey;
use crate::map_sum::{
    lemma_sum_insert, lemma_sum_is_sum_listed, lemma_sum_listed_prefix, lemma_sum_remove,
    sum_listed, sum_over,
};
use crate::seer::{lemma_live_bytes_push, live_bytes, CensusEvent, TextureSource};
use crate::slots::{
    dropped_slots, frames_since, items, kept_slots, law_sweep_keeps_or_drops, lemma_sweep_members,
    FrameStamp, Slot, TexturePoolSweepPolicy,
};
use crate::texture_format::{block_copy_bytes, block_copy_size};

verus! {

/// What a pooled texture is asked for by: size, usage, format and sample count.
pub type TextureKey = (wgpu::Extent3d, wgpu::TextureUsages, wgpu::TextureFormat, u32);

/// What the globals of a viewport are asked for by: width and height.
pub type GlobalsKey = (u32, u32);

impl MapKey for TextureKey {

}

impl MapKey for GlobalsKey {

}

/// Proof that one texture of the filter pool is alive. It cannot be copied: each
/// texture is counted in once, when it is made, and counted out once, when it is
/// gone.
#[derive(Debug)]
pub struct FilterPoolCensusToken {
    bytes: u64,
}

/// The event by which a texture of the filter pool is counted in.
pub open spec fn registered(bytes: u64) -> CensusEvent {
    CensusEvent::Registered { source: TextureSource::FilterPool, bytes }
}

/// The event by which a texture of the filter pool is counted out.
pub open spec fn retired(bytes: u64) -> CensusEvent {
    CensusEvent::Dropped { source: TextureSource::FilterPool, bytes }
}

impl FilterPoolCensusToken {
    pub closed spec fn bytes(&self) -> u64 {
        self.bytes
    }

    /// Counts a new texture in.
    fn register(bytes: u64, census: &mut Vec<CensusEvent>) -> (token: Self)
        ensures
            token.bytes() == bytes,
            final(census)@ == old(census)@.push(registered(bytes)),
    {
        census.push(CensusEvent::Registered { source: TextureSource::FilterPool, bytes });
        FilterPoolCensusToken { bytes }
    }

    /// Counts the texture out, for good: the token is used up. A pool does so with
    /// every texture that it drops; whoever takes a texture out of its entry has to
    /// do so when the texture is gone.
    pub fn retire(self, census: &mut Vec<CensusEvent>)
        ensures
            final(census)@ == old(census)@.push(retired(self.bytes())),
    {
        census.push(CensusEvent::Dropped { source: TextureSource::FilterPool, bytes: self.bytes });
    }
}

/// A pooled texture, its view, and the token by which it is counted.
pub type FilterPoolItem<Texture, View> = (Texture, View, FilterPoolCensusToken);

/// Names one pool for good: a pool that is purged and made anew for the same key
/// gets another serial, and the pools of another [`TexturePool`] another owner.
#[derive(Debug, Clone, Copy)]
pub struct TextureHome {
    pub owner: u64,
    pub key: TextureKey,
    pub serial: u64,
}

/// How the textures of one pool are made: for which key, and of how many bytes.
#[derive(Debug, Clone, Copy)]
pub struct TextureRecipe {
    pub key: TextureKey,
    pub bytes: u64,
}

/// The pool of one key.
pub type KeyedPool<Texture, View> = BufferPool<
    FilterPoolItem<Texture, View>,
    AlwaysCompatible,
    TextureRecipe,
    TextureHome,
>;

/// A texture that was taken from the pool of its key.
pub type TextureEntry<Texture, View> = PoolEntry<
    FilterPoolItem<Texture, View>,
    AlwaysCompatible,
    TextureHome,
>;

/// The bytes of a block where the format gives no size.
pub const DEFAULT_BLOCK_BYTES: u32 = 4;

/// The bytes of one sample of a texture: one block for each texel.
pub open spec fn sample_bytes(size: wgpu::Extent3d, block_bytes: Option<u32>) -> int {
    let block = match block_bytes {
        Some(bytes) => bytes,
        None => DEFAULT_BLOCK_BYTES,
    };
    size.width * size.height * block
}

/// The bytes of a texture: those of one sample, for each sample.
pub open spec fn texture_bytes(
    size: wgpu::Extent3d,
    block_bytes: Option<u32>,
    sample_count: u32,
) -> int {
    sample_bytes(size, block_bytes) * sample_count
}

/// Whether sixty-four bits can hold the bytes of one sample of a texture and
/// those of the whole.
pub open spec fn fits(size: wgpu::Extent3d, block_bytes: Option<u32>, sample_count: u32) -> bool {
    &&& sample_bytes(size, block_bytes) <= u64::MAX
    &&& texture_bytes(size, block_bytes, sample_count) <= u64::MAX
}

/// The bytes of a texture, where sixty-four bits can hold them.
pub fn footprint(size: wgpu::Extent3d, block_bytes: Option<u32>, sample_count: u32) -> (bytes:
    Option<u64>)
    ensures
        match bytes {
            Some(bytes) => {
                &&& fits(size, block_bytes, sample_count)
                &&& bytes == texture_bytes(size, block_bytes, sample_count)
            },
            None => !fits(size, block_bytes, sample_count),
        },
{
    let block: u32 = match block_bytes {
        Some(bytes) => bytes,
        None => DEFAULT_BLOCK_BYTES,
    };
    assert(size.width * size.height <= u32::MAX * u32::MAX) by (nonlinear_arith)
        requires
            size.width <= u32::MAX,
            size.height <= u32::MAX,
    ;
    let texels: u64 = size.width as u64 * size.height as u64;
    match texels.checked_mul(block as u64) {
        Some(sample) => sample.checked_mul(sample_count as u64),
        None => None,
    }
}

/// Gives every [`TexturePool`] an identity of its own.
#[derive(Debug)]
pub struct PoolIds {
    next: u64,
}

impl PoolIds {
    /// The identity that the next pool gets.
    pub closed spec fn next(&self) -> u64 {
        self.next
    }

    /// Identities of which none was given yet.
    pub fn new() -> (ids: Self)
        ensures
            ids.next() == 0,
    {
        PoolIds { next: 0 }
    }

    /// How many identities were given, which is also the next one.
    pub fn given(&self) -> (n: u64)
        ensures
            n == self.next(),
    {
        self.next
    }
}

/// Textures that come and go, and the globals of each viewport.
pub struct TexturePool<Texture, View, Globals> {
    id: u64,
    pools: FnvHashMap<TextureKey, KeyedPool<Texture, View>>,
    globals_cache: FnvHashMap<GlobalsKey, Arc<Globals>>,
    next_serial: u64,
}

impl<Texture, View, Globals> TexturePool<Texture, View, Globals> {
    /// The identity of these pools, by which they know their own textures.
    pub closed spec fn id(&self) -> u64 {
        self.id
    }

    /// The pool of each key.
    pub closed spec fn pools(&self) -> Map<TextureKey, KeyedPool<Texture, View>> {
        self.pools@
    }

    /// The globals of each viewport.
    pub closed spec fn globals(&self) -> Map<GlobalsKey, Arc<Globals>> {
        self.globals_cache@
    }

    /// The serial that the next pool gets.
    pub closed spec fn next_serial(&self) -> u64 {
        self.next_serial
    }

    /// A pool of textures in which nothing rests yet, and to which no texture of
    /// another goes back.
    pub fn new(ids: &mut PoolIds) -> (pool: Self)
        requires
            old(ids).next() < u64::MAX,
        ensures
            pool.wf(),
            was_made(*old(ids), *final(ids), pool),
            pool.pools() == Map::<TextureKey, KeyedPool<Texture, View>>::empty(),
            pool.globals() == Map::<GlobalsKey, Arc<Globals>>::empty(),
            pool.next_serial() == 0,
    {
        let id = ids.next;
        ids.next = ids.next + 1;
        let pool = TexturePool {
            id,
            pools: fnv_map::empty_map(),
            globals_cache: fnv_map::empty_map(),
            next_serial: 0,
        };
        assert(pool.pools() =~= Map::<TextureKey, KeyedPool<Texture, View>>::empty());
        assert(pool.globals() =~= Map::<GlobalsKey, Arc<Globals>>::empty());
        pool
    }

    /// The globals of a viewport, which are made once and kept.
    pub fn get_globals<Context, Create>(
        &mut self,
        context: &Context,
        viewport_width: u32,
        viewport_height: u32,
        create: &Create,
    ) -> (globals: Arc<Globals>) where Create: Fn(&Context, u32, u32) -> Globals
        requires
            !old(self).globals().contains_key((viewport_width, viewport_height)) ==> call_requires(
                *create,
                (context, viewport_width, viewport_height),
            ),
        ensures
            got_globals(
                *old(self),
                *final(self),
                (viewport_width, viewport_height),
                globals,
            ),
            !old(self).globals().contains_key((viewport_width, viewport_height)) ==> call_ensures(
                *create,
                (context, viewport_width, viewport_height),
                *globals,
            ),
            old(self).wf() ==> final(self).wf(),
    {
        let key: GlobalsKey = (viewport_width, viewport_height);
        if let Some(globals) = fnv_map::get(&self.globals_cache, &key) {
            return globals.clone();
        }
        let globals = Arc::new(create(context, viewport_width, viewport_height));
        fnv_map::insert(&mut self.globals_cache, key, globals.clone());
        assert(self.globals() =~= old(self).globals().insert(key, globals));
        globals
    }
}

/// Whether sixty-four bits can hold the bytes of a texture for the key.
pub open spec fn key_fits(key: TextureKey) -> bool {
    fits(key.0, block_copy_bytes(key.2), key.3)
}

/// The bytes of a texture for the key.
pub open spec fn key_bytes(key: TextureKey) -> int {
    texture_bytes(key.0, block_copy_bytes(key.2), key.3)
}

/// The slots of one keyed pool.
pub type TextureSlots<Texture, View> = Seq<Slot<FilterPoolItem<Texture, View>, AlwaysCompatible>>;

/// A pool that makes what its key asks for and counts what it holds by the right
/// size.
pub open spec fn keyed_pool_wf<Texture, View>(
    key: TextureKey,
    pool: KeyedPool<Texture, View>,
    owner: u64,
    next_serial: u64,
) -> bool {
    &&& key_fits(key)
    &&& pool.constructor() == (TextureRecipe { key, bytes: key_bytes(key) as u64 })
    &&& pool.home().owner == owner
    &&& pool.home().key == key
    &&& pool.home().serial < next_serial
    &&& forall|i: int|
        0 <= i < pool.slots().len() ==> (#[trigger] pool.slots()[i]).0.2.bytes() == key_bytes(key)
}

/// A texture that is counted by the size that its key gives.
pub open spec fn entry_wf<Texture, View>(entry: TextureEntry<Texture, View>) -> bool {
    entry.item().2.bytes() == key_bytes(entry.pool().key)
}

/// What rests in the pool of a key.
pub open spec fn resting<Texture, View>(
    pools: Map<TextureKey, KeyedPool<Texture, View>>,
    key: TextureKey,
) -> TextureSlots<Texture, View> {
    if pools.contains_key(key) {
        pools[key].slots()
    } else {
        Seq::empty()
    }
}

/// The bytes that rest in the pool of a key.
pub open spec fn pool_bytes<Texture, View>() -> spec_fn(
    TextureKey,
    KeyedPool<Texture, View>,
) -> nat {
    |key: TextureKey, pool: KeyedPool<Texture, View>| (pool.slots().len() * key_bytes(key)) as nat
}

/// The bytes that rest in all pools.
pub open spec fn resting_bytes<Texture, View>(
    pools: Map<TextureKey, KeyedPool<Texture, View>>,
) -> nat {
    sum_over(pools, pool_bytes())
}

/// Textures that are all alike are taken from the front.
proof fn lemma_alike_from_the_front<Type>(slots: Seq<Slot<Type, AlwaysCompatible>>)
    ensures
        none_usable(slots, AlwaysCompatible) <==> slots.len() == 0,
        forall|i: int| #[trigger] is_cheapest(slots, AlwaysCompatible, i) ==> i == 0,
{
    if slots.len() > 0 {
        assert(is_usable(slots, AlwaysCompatible, 0));
    }
}

/// The bytes of a texture are not negative.
pub proof fn lemma_key_bytes(key: TextureKey)
    ensures
        key_bytes(key) >= 0,
{
    let block = match block_copy_bytes(key.2) {
        Some(bytes) => bytes,
        None => DEFAULT_BLOCK_BYTES,
    };
    let w = key.0.width;
    let h = key.0.height;
    let samples = key.3;
    assert(w * h * block * samples >= 0) by (nonlinear_arith)
        requires
            w >= 0,
            h >= 0,
            block >= 0,
            samples >= 0,
    ;
}

/// The bytes of a texture for the key.
fn bytes_per_item(key: &TextureKey) -> (bytes: u64)
    requires
        key_fits(*key),
    ensures
        bytes == key_bytes(*key),
{
    match footprint(key.0, block_copy_size(key.2), key.3) {
        Some(bytes) => bytes,
        None => {
            assert(false);
            0
        },
    }
}

/// A texture that is counted out takes its bytes off the gauge.
proof fn lemma_retired(census: Seq<CensusEvent>, bytes: u64)
    ensures
        live_bytes(census.push(retired(bytes)), TextureSource::FilterPool) == live_bytes(
            census,
            TextureSource::FilterPool,
        ) - bytes,
{
    lemma_live_bytes_push(census, retired(bytes), TextureSource::FilterPool);
}

/// What making pools does: they get an identity, which is not given again.
pub open spec fn was_made<Texture, View, Globals>(
    before: PoolIds,
    after: PoolIds,
    pool: TexturePool<Texture, View, Globals>,
) -> bool {
    &&& pool.id() == before.next()
    &&& after.next() == before.next() + 1
}

/// What asking for the globals of a viewport does: those that are kept for it are
/// handed out, and new ones are kept from then on where there are none.
pub open spec fn got_globals<Texture, View, Globals>(
    before: TexturePool<Texture, View, Globals>,
    after: TexturePool<Texture, View, Globals>,
    key: GlobalsKey,
    globals: Arc<Globals>,
) -> bool {
    &&& if before.globals().contains_key(key) {
        &&& globals == before.globals()[key]
        &&& after.globals() == before.globals()
    } else {
        after.globals() == before.globals().insert(key, globals)
    }
    &&& after.id() == before.id()
    &&& after.pools() == before.pools()
    &&& after.next_serial() == before.next_serial()
}

/// What taking a texture does: `entry` comes out of the pool of the key, or is
/// new where nothing rests there, and then it is counted in.
pub open spec fn got_texture<Texture, View, Globals>(
    before: TexturePool<Texture, View, Globals>,
    after: TexturePool<Texture, View, Globals>,
    key: TextureKey,
    current_frame: u64,
    entry: TextureEntry<Texture, View>,
    census_before: Seq<CensusEvent>,
    census_after: Seq<CensusEvent>,
) -> bool {
    let rests = resting(before.pools(), key);
    let pool = after.pools()[key];
    &&& entry.pool().owner == before.id()
    &&& entry.pool().key == key
    &&& if before.pools().contains_key(key) {
        &&& entry.pool() == before.pools()[key].home()
        &&& after.next_serial() == before.next_serial()
    } else {
        &&& entry.pool().serial == before.next_serial()
        &&& after.next_serial() == before.next_serial() + 1
    }
    &&& if rests.len() > 0 {
        &&& entry.item() == rests[0].0
        &&& pool.slots() == without(rests, 0)
        &&& census_after == census_before
    } else {
        &&& pool.slots() == rests
        &&& census_after == census_before.push(registered(key_bytes(key) as u64))
    }
    &&& pool.home() == entry.pool()
    &&& pool.last_taken_frame() == current_frame
    &&& after.pools() == before.pools().insert(key, pool)
    &&& after.globals() == before.globals()
    &&& after.id() == before.id()
    &&& live_bytes(census_after, TextureSource::FilterPool) - live_bytes(
        census_before,
        TextureSource::FilterPool,
    ) == resting_bytes(after.pools()) - resting_bytes(before.pools()) + entry.item().2.bytes()
}

/// What taking a texture back does: it rests in the pool that it was taken from,
/// and is counted out where that pool is gone.
pub open spec fn took_back<Texture, View, Globals>(
    before: TexturePool<Texture, View, Globals>,
    after: TexturePool<Texture, View, Globals>,
    entry: TextureEntry<Texture, View>,
    current_frame: u64,
    census_before: Seq<CensusEvent>,
    census_after: Seq<CensusEvent>,
) -> bool {
    let key = entry.pool().key;
    let pool = after.pools()[key];
    &&& if before.is_home(entry) {
        &&& pool.slots() == before.pools()[key].slots().push(
            (entry.item(), entry.description(), FrameStamp(current_frame)),
        )
        &&& pool.home() == before.pools()[key].home()
        &&& pool.last_taken_frame() == before.pools()[key].last_taken_frame()
        &&& after.pools() == before.pools().insert(key, pool)
        &&& census_after == census_before
    } else {
        &&& after.pools() == before.pools()
        &&& census_after == census_before.push(retired(entry.item().2.bytes()))
    }
    &&& after.next_serial() == before.next_serial()
    &&& after.globals() == before.globals()
    &&& after.id() == before.id()
    &&& live_bytes(census_after, TextureSource::FilterPool) - live_bytes(
        census_before,
        TextureSource::FilterPool,
    ) == resting_bytes(after.pools()) - resting_bytes(before.pools()) - entry.item().2.bytes()
}

impl<Texture, View, Globals> TexturePool<Texture, View, Globals> {
    /// Whether the texture was taken from one of these pools, and that pool still
    /// stands.
    pub open spec fn is_home(&self, entry: TextureEntry<Texture, View>) -> bool {
        entry.pool().owner == self.id() && self.pools().contains_key(entry.pool().key)
            && self.pools()[entry.pool().key].home().serial == entry.pool().serial
    }

    /// Every pool is in order.
    pub open spec fn wf(&self) -> bool {
        &&& self.pools().dom().finite()
        &&& forall|key: TextureKey| #[trigger]
            self.pools().contains_key(key) ==> keyed_pool_wf(
                key,
                self.pools()[key],
                self.id(),
                self.next_serial(),
            )
    }

    /// A texture for the key: the first that rests in its pool, and a new one,
    /// which is counted in, where none rests there.
    pub fn get_texture<Context, Create>(
        &mut self,
        context: &Context,
        size: wgpu::Extent3d,
        usage: wgpu::TextureUsages,
        format: wgpu::TextureFormat,
        sample_count: u32,
        current_frame: u64,
        create: &Create,
        census: &mut Vec<CensusEvent>,
    ) -> (entry: TextureEntry<Texture, View>) where
        Create: Fn(&Context, &TextureKey) -> (Texture, View),

        requires
            old(self).wf(),
            old(self).can_get((size, usage, format, sample_count)),
            resting(old(self).pools(), (size, usage, format, sample_count)).len() == 0
                ==> call_requires(*create, (context, &(size, usage, format, sample_count))),
        ensures
            final(self).wf(),
            entry_wf(entry),
            got_texture(
                *old(self),
                *final(self),
                (size, usage, format, sample_count),
                current_frame,
                entry,
                old(census)@,
                final(census)@,
            ),
            resting(old(self).pools(), (size, usage, format, sample_count)).len() == 0
                ==> call_ensures(
                *create,
                (context, &(size, usage, format, sample_count)),
                (entry.item().0, entry.item().1),
            ),
    {
        let key: TextureKey = (size, usage, format, sample_count);
        let bytes = bytes_per_item(&key);
        let ghost before = self.pools@;
        let ghost rests = resting(before, key);
        proof {
            lemma_alike_from_the_front(rests);
            lemma_key_bytes(key);
        }
        let mut pool = match fnv_map::remove(&mut self.pools, &key) {
            Some(pool) => pool,
            None => {
                let home = TextureHome { owner: self.id, key, serial: self.next_serial };
                self.next_serial = self.next_serial + 1;
                BufferPool::new(TextureRecipe { key, bytes }, home)
            },
        };
        assert(pool.slots() == rests);
        let entry = match pool.take_available(&AlwaysCompatible, current_frame) {
            Some(entry) => entry,
            None => {
                let (texture, view) = create(context, &key);
                let token = FilterPoolCensusToken::register(bytes, census);
                proof {
                    lemma_live_bytes_push(
                        old(census)@,
                        registered(bytes),
                        TextureSource::FilterPool,
                    );
                }
                pool.adopt((texture, view, token), AlwaysCompatible)
            },
        };
        fnv_map::insert(&mut self.pools, key, pool);
        proof {
            let after = self.pools@;
            assert(after =~= before.insert(key, pool));
            assert(before.remove(key).insert(key, pool) =~= after);
            lemma_sum_insert(before, pool_bytes::<Texture, View>(), key, pool);
            let b = key_bytes(key);
            if before.contains_key(key) {
                lemma_sum_remove(before, pool_bytes::<Texture, View>(), key);
            } else {
                assert(before.remove(key) =~= before);
            }
            assert((rests.len() - 1) * b == rests.len() * b - b) by (nonlinear_arith);
            assert(rests.len() * b >= 0) by (nonlinear_arith)
                requires
                    b >= 0,
            ;
            if rests.len() > 0 {
                assert((rests.len() - 1) * b >= 0) by (nonlinear_arith)
                    requires
                        b >= 0,
                        rests.len() > 0,
                ;
            }
        }
        entry
    }

    /// Whether a texture for the key can be taken: its bytes can be counted, and it
    /// has a pool or there is a serial left for one.
    pub open spec fn can_get(&self, key: TextureKey) -> bool {
        &&& key_fits(key)
        &&& self.pools().contains_key(key) || self.next_serial() < u64::MAX
    }

    /// A texture for the key as from [`get_texture`](Self::get_texture), and
    /// none, with everything left as it is, where sixty-four bits cannot hold the
    /// bytes of one or the serial of its pool.
    pub fn try_get_texture<Context, Create>(
        &mut self,
        context: &Context,
        size: wgpu::Extent3d,
        usage: wgpu::TextureUsages,
        format: wgpu::TextureFormat,
        sample_count: u32,
        current_frame: u64,
        create: &Create,
        census: &mut Vec<CensusEvent>,
    ) -> (entry: Option<TextureEntry<Texture, View>>) where
        Create: Fn(&Context, &TextureKey) -> (Texture, View),

        requires
            old(self).wf(),
            resting(old(self).pools(), (size, usage, format, sample_count)).len() == 0
                ==> call_requires(*create, (context, &(size, usage, format, sample_count))),
        ensures
            final(self).wf(),
            entry is Some <==> old(self).can_get((size, usage, format, sample_count)),
            match entry {
                Some(entry) => {
                    &&& entry_wf(entry)
                    &&& got_texture(
                        *old(self),
                        *final(self),
                        (size, usage, format, sample_count),
                        current_frame,
                        entry,
                        old(census)@,
                        final(census)@,
                    )
                    &&& resting(old(self).pools(), (size, usage, format, sample_count)).len() == 0
                        ==> call_ensures(
                        *create,
                        (context, &(size, usage, format, sample_count)),
                        (entry.item().0, entry.item().1),
                    )
                },
                None => *final(self) == *old(self) && final(census)@ == old(census)@,
            },
    {
        let key: TextureKey = (size, usage, format, sample_count);
        if fnv_map::get(&self.pools, &key).is_none() && self.next_serial == u64::MAX {
            return None;
        }
        match footprint(size, block_copy_size(format), sample_count) {
            Some(_) => Some(
                self.get_texture(
                    context,
                    size,
                    usage,
                    format,
                    sample_count,
                    current_frame,
                    create,
                    census,
                ),
            ),
            None => None,
        }
    }

    /// Takes a texture back. It rests in the pool that it was taken from. Where that
    /// pool was purged meanwhile, also if there is another for the same key, or
    /// where it belongs to another `TexturePool`, the texture is dropped and counted
    /// out.
    pub fn put_back(
        &mut self,
        entry: TextureEntry<Texture, View>,
        current_frame: u64,
        census: &mut Vec<CensusEvent>,
    )
        requires
            old(self).wf(),
            entry_wf(entry),
        ensures
            final(self).wf(),
            took_back(
                *old(self),
                *final(self),
                entry,
                current_frame,
                old(census)@,
                final(census)@,
            ),
    {
        let ghost before = self.pools@;
        let home = entry.home();
        let key = home.key;
        let ghost b = key_bytes(key);
        proof {
            lemma_key_bytes(key);
        }
        match fnv_map::remove(&mut self.pools, &key) {
            Some(mut pool) => {
                let ghost rests = pool.slots();
                if home.owner == self.id && pool.home_of().serial == home.serial {
                    pool.put_back(entry, current_frame);
                } else {
                    let (_texture, _view, token) = entry.into_item();
                    token.retire(census);
                    proof {
                        lemma_retired(old(census)@, b as u64);
                    }
                }
                fnv_map::insert(&mut self.pools, key, pool);
                proof {
                    let after = self.pools@;
                    assert(after =~= before.insert(key, pool));
                    if !old(self).is_home(entry) {
                        assert(after =~= before);
                    }
                    lemma_sum_insert(before, pool_bytes::<Texture, View>(), key, pool);
                    lemma_sum_remove(before, pool_bytes::<Texture, View>(), key);
                    assert((rests.len() + 1) * b == rests.len() * b + b) by (nonlinear_arith);
                    assert(rests.len() * b >= 0) by (nonlinear_arith)
                        requires
                            b >= 0,
                    ;
                }
            },
            None => {
                let (_texture, _view, token) = entry.into_item();
                token.retire(census);
                proof {
                    lemma_retired(old(census)@, b as u64);
                    assert(self.pools@ =~= before);
                }
            },
        }
    }
}

/// What a sweep did.
#[derive(Debug, Clone, Copy)]
pub struct TexturePoolSweepReport {
    /// Pools of which at least one texture was dropped.
    pub keys_swept: usize,
    /// Textures that were dropped, over all keys.
    pub dropped_entries: usize,
    /// Pools that were removed whole.
    pub purged_keys: usize,
    /// The bytes that were freed.
    pub freed_bytes: u64,
}

impl Default for TexturePoolSweepReport {
    fn default() -> (report: Self)
        ensures
            report == (TexturePoolSweepReport {
                keys_swept: 0,
                dropped_entries: 0,
                purged_keys: 0,
                freed_bytes: 0,
            }),
    {
        TexturePoolSweepReport { keys_swept: 0, dropped_entries: 0, purged_keys: 0, freed_bytes: 0 }
    }
}

/// Whether a sweep removes the pool whole: nothing was taken from it for too
/// long.
pub open spec fn is_purged<Texture, View>(
    pool: KeyedPool<Texture, View>,
    current_frame: u64,
    policy: TexturePoolSweepPolicy,
) -> bool {
    frames_since(pool.last_taken_frame(), current_frame) >= policy.purge_frames
}

/// How many textures a sweep drops of one pool.
pub open spec fn drop_count<Texture, View>(
    pool: KeyedPool<Texture, View>,
    current_frame: u64,
    policy: TexturePoolSweepPolicy,
) -> nat {
    if is_purged(pool, current_frame, policy) {
        pool.slots().len()
    } else {
        dropped_slots(pool.slots(), current_frame, policy).len()
    }
}

/// For each pool, the textures that a sweep drops of it.
pub open spec fn drops<Texture, View>(
    current_frame: u64,
    policy: TexturePoolSweepPolicy,
) -> spec_fn(TextureKey, KeyedPool<Texture, View>) -> nat {
    |key: TextureKey, pool: KeyedPool<Texture, View>| drop_count(pool, current_frame, policy)
}

/// For each pool, the bytes that a sweep frees of it.
pub open spec fn frees<Texture, View>(
    current_frame: u64,
    policy: TexturePoolSweepPolicy,
) -> spec_fn(TextureKey, KeyedPool<Texture, View>) -> nat {
    |key: TextureKey, pool: KeyedPool<Texture, View>|
        (drop_count(pool, current_frame, policy) * key_bytes(key)) as nat
}

/// For each pool, one where a sweep removes it whole.
pub open spec fn purges<Texture, View>(
    current_frame: u64,
    policy: TexturePoolSweepPolicy,
) -> spec_fn(TextureKey, KeyedPool<Texture, View>) -> nat {
    |key: TextureKey, pool: KeyedPool<Texture, View>|
        if is_purged(pool, current_frame, policy) {
            1
        } else {
            0
        }
}

/// For each pool, one where a sweep drops some of what it holds, whether the pool
/// stays or not.
pub open spec fn thins<Texture, View>(
    current_frame: u64,
    policy: TexturePoolSweepPolicy,
) -> spec_fn(TextureKey, KeyedPool<Texture, View>) -> nat {
    |key: TextureKey, pool: KeyedPool<Texture, View>|
        if drop_count(pool, current_frame, policy) > 0 {
            1
        } else {
            0
        }
}

/// For each pool, how often a sweep of it sends the event.
pub open spec fn sends<Texture, View>(
    current_frame: u64,
    policy: TexturePoolSweepPolicy,
    event: CensusEvent,
) -> spec_fn(TextureKey, KeyedPool<Texture, View>) -> nat {
    |key: TextureKey, pool: KeyedPool<Texture, View>|
        if event == retired(key_bytes(key) as u64) {
            drop_count(pool, current_frame, policy)
        } else {
            0
        }
}

/// What a sweep leaves of a pool that it does not remove.
pub open spec fn is_swept<Texture, View>(
    before: KeyedPool<Texture, View>,
    after: KeyedPool<Texture, View>,
    current_frame: u64,
    policy: TexturePoolSweepPolicy,
) -> bool {
    &&& after.slots() == kept_slots(before.slots(), current_frame, policy)
    &&& after.constructor() == before.constructor()
    &&& after.home() == before.home()
    &&& after.last_taken_frame() == before.last_taken_frame()
}

/// What a sweep leaves of all pools.
pub open spec fn are_swept<Texture, View>(
    before: Map<TextureKey, KeyedPool<Texture, View>>,
    after: Map<TextureKey, KeyedPool<Texture, View>>,
    current_frame: u64,
    policy: TexturePoolSweepPolicy,
) -> bool {
    &&& forall|key: TextureKey| #[trigger]
        after.contains_key(key) <==> before.contains_key(key) && !is_purged(
            before[key],
            current_frame,
            policy,
        )
    &&& forall|key: TextureKey| #[trigger]
        after.contains_key(key) ==> is_swept(before[key], after[key], current_frame, policy)
}

/// The report that a sweep of the pools makes.
pub open spec fn is_report<Texture, View>(
    pools: Map<TextureKey, KeyedPool<Texture, View>>,
    current_frame: u64,
    policy: TexturePoolSweepPolicy,
    report: TexturePoolSweepReport,
) -> bool {
    &&& report.keys_swept == sum_over(pools, thins(current_frame, policy))
    &&& report.dropped_entries == sum_over(pools, drops(current_frame, policy))
    &&& report.purged_keys == sum_over(pools, purges(current_frame, policy))
    &&& report.freed_bytes == sum_over(pools, frees(current_frame, policy))
}

/// Whether the report of a sweep can hold its counts.
pub open spec fn sweep_fits<Texture, View>(
    pools: Map<TextureKey, KeyedPool<Texture, View>>,
    current_frame: u64,
    policy: TexturePoolSweepPolicy,
) -> bool {
    &&& sum_over(pools, drops(current_frame, policy)) <= usize::MAX
    &&& sum_over(pools, frees(current_frame, policy)) <= u64::MAX
}

/// What a sweep does: to the pools, to the census, and what it reports.
pub open spec fn swept<Texture, View, Globals>(
    before: TexturePool<Texture, View, Globals>,
    after: TexturePool<Texture, View, Globals>,
    current_frame: u64,
    policy: TexturePoolSweepPolicy,
    report: TexturePoolSweepReport,
    census_before: Seq<CensusEvent>,
    census_after: Seq<CensusEvent>,
) -> bool {
    &&& are_swept(before.pools(), after.pools(), current_frame, policy)
    &&& is_report(before.pools(), current_frame, policy, report)
    &&& census_before.is_prefix_of(census_after)
    &&& forall|event: CensusEvent| #[trigger]
        census_after.to_multiset().count(event) == census_before.to_multiset().count(event)
            + sum_over(before.pools(), sends::<Texture, View>(current_frame, policy, event))
    &&& live_bytes(census_after, TextureSource::FilterPool) == live_bytes(
        census_before,
        TextureSource::FilterPool,
    ) - report.freed_bytes
    &&& resting_bytes(after.pools()) == resting_bytes(before.pools()) - report.freed_bytes
    &&& after.next_serial() == before.next_serial()
    &&& after.globals() == before.globals()
    &&& after.id() == before.id()
}

/// For each pool, how often the event is sent when all that rests in it goes.
pub open spec fn sends_all<Texture, View>(event: CensusEvent) -> spec_fn(
    TextureKey,
    KeyedPool<Texture, View>,
) -> nat {
    |key: TextureKey, pool: KeyedPool<Texture, View>|
        if event == retired(key_bytes(key) as u64) {
            pool.slots().len()
        } else {
            0
        }
}

/// What starting over does.
pub open spec fn was_reset<Texture, View, Globals>(
    before: TexturePool<Texture, View, Globals>,
    after: TexturePool<Texture, View, Globals>,
    census_before: Seq<CensusEvent>,
    census_after: Seq<CensusEvent>,
) -> bool {
    &&& after.pools() == Map::<TextureKey, KeyedPool<Texture, View>>::empty()
    &&& after.globals() == Map::<GlobalsKey, Arc<Globals>>::empty()
    &&& after.next_serial() == before.next_serial()
    &&& after.id() == before.id()
    &&& census_before.is_prefix_of(census_after)
    &&& forall|event: CensusEvent| #[trigger]
        census_after.to_multiset().count(event) == census_before.to_multiset().count(event)
            + sum_over(before.pools(), sends_all::<Texture, View>(event))
    &&& live_bytes(census_after, TextureSource::FilterPool) == live_bytes(
        census_before,
        TextureSource::FilterPool,
    ) - resting_bytes(before.pools())
}

/// Counts out textures that all have the same size.
fn retire_all<Texture, View>(
    dropped: Vec<FilterPoolItem<Texture, View>>,
    census: &mut Vec<CensusEvent>,
    Ghost(bytes): Ghost<u64>,
)
    requires
        forall|i: int| 0 <= i < dropped@.len() ==> (#[trigger] dropped@[i]).2.bytes() == bytes,
    ensures
        old(census)@.is_prefix_of(final(census)@),
        forall|event: CensusEvent| #[trigger]
            final(census)@.to_multiset().count(event) == old(census)@.to_multiset().count(event)
                + if event == retired(bytes) {
                dropped@.len()
            } else {
                0
            },
        live_bytes(final(census)@, TextureSource::FilterPool) == live_bytes(
            old(census)@,
            TextureSource::FilterPool,
        ) - dropped@.len() * bytes,
{
    broadcast use vstd::seq_lib::group_to_multiset_ensures;

    let ghost all = dropped@;
    let mut dropped = dropped;
    while dropped.len() > 0
        invariant
            dropped@.len() <= all.len(),
            dropped@ == all.take(dropped@.len() as int),
            forall|i: int| 0 <= i < all.len() ==> (#[trigger] all[i]).2.bytes() == bytes,
            old(census)@.is_prefix_of(census@),
            forall|e: CensusEvent| #[trigger]
                census@.to_multiset().count(e) == old(census)@.to_multiset().count(e) + if e
                    == retired(bytes) {
                    all.len() - dropped@.len()
                } else {
                    0
                },
            live_bytes(census@, TextureSource::FilterPool) == live_bytes(
                old(census)@,
                TextureSource::FilterPool,
            ) - (all.len() - dropped@.len()) * bytes,
        decreases dropped@.len(),
    {
        broadcast use vstd::seq_lib::group_to_multiset_ensures;

        let ghost n = dropped@.len();
        let ghost sent = census@;
        if let Some((_texture, _view, token)) = dropped.pop() {
            assert(token.bytes() == all[n - 1].2.bytes());
            token.retire(census);
            proof {
                lemma_retired(sent, bytes);
                assert((all.len() - n) * bytes + bytes == (all.len() - (n - 1)) * bytes)
                    by (nonlinear_arith);
                assert(dropped@ =~= all.take(n - 1));
            }
        }
    }
}

impl<Texture, View, Globals> TexturePool<Texture, View, Globals> {
    /// Sweeps the pool of one key. Returns how many textures were dropped, and
    /// whether the pool was removed whole.
    fn sweep_key(
        &mut self,
        key: TextureKey,
        current_frame: u64,
        policy: &TexturePoolSweepPolicy,
        census: &mut Vec<CensusEvent>,
    ) -> (went: (usize, bool))
        requires
            old(self).wf(),
            old(self).pools().contains_key(key),
        ensures
            final(self).wf(),
            ({
                let pool = old(self).pools()[key];
                &&& went.0 == drop_count(pool, current_frame, *policy)
                &&& went.1 == is_purged(pool, current_frame, *policy)
                &&& if went.1 {
                    final(self).pools() == old(self).pools().remove(key)
                } else {
                    &&& final(self).pools() == old(self).pools().insert(
                        key,
                        final(self).pools()[key],
                    )
                    &&& is_swept(pool, final(self).pools()[key], current_frame, *policy)
                }
                &&& forall|event: CensusEvent| #[trigger]
                    final(census)@.to_multiset().count(event) == old(
                        census)@.to_multiset().count(event) + sends::<Texture, View>(
                        current_frame,
                        *policy,
                        event,
                    )(key, pool)
            }),
            old(census)@.is_prefix_of(final(census)@),
            live_bytes(final(census)@, TextureSource::FilterPool) == live_bytes(
                old(census)@,
                TextureSource::FilterPool,
            ) - went.0 * key_bytes(key),
            resting_bytes(final(self).pools()) == resting_bytes(old(self).pools()) - went.0
                * key_bytes(key),
            final(self).next_serial() == old(self).next_serial(),
            final(self).globals() == old(self).globals(),
            final(self).id() == old(self).id(),
    {
        let ghost before = self.pools@;
        let ghost b = key_bytes(key);
        let ghost held = before[key];
        proof {
            lemma_key_bytes(key);
            lemma_sum_remove(before, pool_bytes::<Texture, View>(), key);
            law_sweep_keeps_or_drops(held.slots(), current_frame, *policy);
            assert(held.slots().len() * b >= 0) by (nonlinear_arith)
                requires
                    b >= 0,
            ;
            assert(keyed_pool_wf(key, held, self.id(), self.next_serial()));
        }
        match fnv_map::remove(&mut self.pools, &key) {
            Some(mut pool) => {
                let last = pool.last_taken();
                let idle: u64 = if last <= current_frame {
                    current_frame - last
                } else {
                    0
                };
                if idle >= policy.purge_frames {
                    let dropped = pool.into_items();
                    let n = dropped.len();
                    assert forall|i: int| 0 <= i < dropped@.len() implies (
                    #[trigger] dropped@[i]).2.bytes() == b as u64 by {
                        assert(dropped@[i] == held.slots()[i].0);
                    }
                    retire_all(dropped, census, Ghost(b as u64));
                    (n, true)
                } else {
                    let mut dropped: Vec<FilterPoolItem<Texture, View>> = Vec::new();
                    let (n, _bytes) = pool.sweep(current_frame, policy, &mut dropped);
                    proof {
                        lemma_sweep_members(held.slots(), current_frame, *policy);
                        let gone = dropped_slots(held.slots(), current_frame, *policy);
                        assert(dropped@ =~= items(gone));
                        assert forall|i: int| 0 <= i < dropped@.len() implies (
                        #[trigger] dropped@[i]).2.bytes() == b as u64 by {
                            assert(gone.contains(gone[i]));
                            let k = choose|k: int|
                                0 <= k < held.slots().len() && held.slots()[k] == gone[i];
                            assert(held.slots()[k].0.2.bytes() == b);
                        }
                        let kept = pool.slots();
                        assert forall|i: int| 0 <= i < kept.len() implies (
                        #[trigger] kept[i]).0.2.bytes() == b by {
                            assert(kept.contains(kept[i]));
                            let k = choose|k: int|
                                0 <= k < held.slots().len() && held.slots()[k] == kept[i];
                            assert(held.slots()[k].0.2.bytes() == b);
                        }
                    }
                    retire_all(dropped, census, Ghost(b as u64));
                    fnv_map::insert(&mut self.pools, key, pool);
                    proof {
                        let after = self.pools@;
                        assert(after =~= before.insert(key, pool));
                        lemma_sum_insert(before, pool_bytes::<Texture, View>(), key, pool);
                        let kept = pool.slots().len();
                        assert((kept + n) * b == kept * b + n * b) by (nonlinear_arith);
                        assert(kept * b >= 0) by (nonlinear_arith)
                            requires
                                b >= 0,
                        ;
                    }
                    (n, false)
                }
            },
            None => (0, false),
        }
    }

    /// Sweeps all pools: those from which nothing was taken for too long are
    /// removed whole, and of each other one the textures go that were idle for
    /// too long, and the oldest where there are more than the cap allows. Each
    /// texture that goes is counted out.
    pub fn sweep(
        &mut self,
        current_frame: u64,
        policy: TexturePoolSweepPolicy,
        census: &mut Vec<CensusEvent>,
    ) -> (report: TexturePoolSweepReport)
        requires
            old(self).wf(),
            sweep_fits(old(self).pools(), current_frame, policy),
        ensures
            final(self).wf(),
            swept(
                *old(self),
                *final(self),
                current_frame,
                policy,
                report,
                old(census)@,
                final(census)@,
            ),
    {
        let ghost before = self.pools@;
        let mut report = TexturePoolSweepReport::default();
        let keys = fnv_map::keys(&self.pools);
        let mut i: usize = 0;
        proof {
            lemma_sum_is_sum_listed(before, keys@, thins::<Texture, View>(current_frame, policy));
            lemma_sum_is_sum_listed(before, keys@, drops::<Texture, View>(current_frame, policy));
            lemma_sum_is_sum_listed(before, keys@, purges::<Texture, View>(current_frame, policy));
            lemma_sum_is_sum_listed(before, keys@, frees::<Texture, View>(current_frame, policy));
            assert(keys@.take(0) =~= Seq::<TextureKey>::empty());
        }
        while i < keys.len()
            invariant
                i <= keys@.len(),
                self.wf(),
                self.next_serial() == old(self).next_serial(),
                self.id() == old(self).id(),
                self.globals() == old(self).globals(),
                before == old(self).pools(),
                keys@.no_duplicates(),
                forall|key: TextureKey|
                    keys@.contains(key) <==> #[trigger] before.contains_key(key),
                forall|key: TextureKey| #[trigger]
                    self.pools().contains_key(key) <==> before.contains_key(key) && !(
                    keys@.take(i as int).contains(key) && is_purged(
                        before[key],
                        current_frame,
                        policy,
                    )),
                forall|key: TextureKey| #[trigger]
                    self.pools().contains_key(key) ==> if keys@.take(i as int).contains(key) {
                        is_swept(before[key], self.pools()[key], current_frame, policy)
                    } else {
                        self.pools()[key] == before[key]
                    },
                forall|key: TextureKey| #[trigger]
                    before.contains_key(key) ==> keyed_pool_wf(
                        key,
                        before[key],
                        old(self).id(),
                        old(self).next_serial(),
                    ),
                report.keys_swept <= i,
                report.purged_keys <= i,
                report.keys_swept == sum_listed(
                    before,
                    keys@.take(i as int),
                    thins(current_frame, policy),
                ),
                report.dropped_entries == sum_listed(
                    before,
                    keys@.take(i as int),
                    drops(current_frame, policy),
                ),
                report.purged_keys == sum_listed(
                    before,
                    keys@.take(i as int),
                    purges(current_frame, policy),
                ),
                report.freed_bytes == sum_listed(
                    before,
                    keys@.take(i as int),
                    frees(current_frame, policy),
                ),
                sum_listed(before, keys@, drops(current_frame, policy)) <= usize::MAX,
                sum_listed(before, keys@, frees(current_frame, policy)) <= u64::MAX,
                old(census)@.is_prefix_of(census@),
                forall|event: CensusEvent| #[trigger]
                    census@.to_multiset().count(event) == old(census)@.to_multiset().count(event)
                        + sum_listed(
                        before,
                        keys@.take(i as int),
                        sends(current_frame, policy, event),
                    ),
                live_bytes(census@, TextureSource::FilterPool) == live_bytes(
                    old(census)@,
                    TextureSource::FilterPool,
                ) - report.freed_bytes,
                resting_bytes(self.pools()) == resting_bytes(before) - report.freed_bytes,
            decreases keys@.len() - i,
        {
            let key = keys[i];
            let ghost done = keys@.take(i as int);
            let ghost next = keys@.take(i + 1);
            let ghost standing = self.pools();
            let ghost sent = census@;
            proof {
                assert(keys@.contains(key));
                assert(before.contains_key(key));
                assert(keyed_pool_wf(key, before[key], old(self).id(), old(self).next_serial()));
                assert(!done.contains(key));
                assert(next.drop_last() =~= done);
                assert(next.last() == key);
                lemma_sum_listed_prefix(
                    before,
                    keys@,
                    i + 1,
                    drops::<Texture, View>(current_frame, policy),
                );
                lemma_sum_listed_prefix(
                    before,
                    keys@,
                    i + 1,
                    frees::<Texture, View>(current_frame, policy),
                );
                lemma_key_bytes(key);
                assert(drop_count(before[key], current_frame, policy) * key_bytes(key) >= 0)
                    by (nonlinear_arith)
                    requires
                        key_bytes(key) >= 0,
                        drop_count(before[key], current_frame, policy) >= 0,
                ;
            }
            let item_bytes = bytes_per_item(&key);
            let (n, purged) = self.sweep_key(key, current_frame, &policy, census);
            assert(n == 0 ==> n * key_bytes(key) == 0) by (nonlinear_arith);
            assert(frees::<Texture, View>(current_frame, policy)(key, before[key]) == n * key_bytes(
                key,
            ));
            let freed: u64 = n as u64 * item_bytes;
            if purged {
                report.purged_keys = report.purged_keys + 1;
            }
            if n > 0 {
                report.keys_swept = report.keys_swept + 1;
                report.dropped_entries = report.dropped_entries + n;
                report.freed_bytes = report.freed_bytes + freed;
            }
            proof {
                assert forall|k: TextureKey|
                    next.contains(k) <==> (done.contains(k) || k == key) by {
                    if next.contains(k) {
                        let j = choose|j: int| 0 <= j < next.len() && next[j] == k;
                        if j < i {
                            assert(done[j] == k);
                        }
                    }
                    if done.contains(k) {
                        let j = choose|j: int| 0 <= j < done.len() && done[j] == k;
                        assert(next[j] == k);
                    }
                    assert(next[i as int] == key);
                }
            }
            i += 1;
        }
        proof {
            assert(keys@.take(i as int) =~= keys@);
            assert forall|event: CensusEvent| #[trigger]
                census@.to_multiset().count(event) == old(census)@.to_multiset().count(event)
                    + sum_over(
                before,
                sends::<Texture, View>(current_frame, policy, event),
            ) by {
                lemma_sum_is_sum_listed(
                    before,
                    keys@,
                    sends::<Texture, View>(current_frame, policy, event),
                );
            }
        }
        report
    }

    /// Whether the report of a sweep could hold its counts.
    fn report_fits(&self, current_frame: u64, policy: &TexturePoolSweepPolicy) -> (fits: bool)
        requires
            self.wf(),
        ensures
            fits == sweep_fits(self.pools(), current_frame, *policy),
    {
        let ghost pools = self.pools@;
        let keys = fnv_map::keys(&self.pools);
        let mut entries: usize = 0;
        let mut bytes: u64 = 0;
        let mut i: usize = 0;
        proof {
            lemma_sum_is_sum_listed(pools, keys@, drops::<Texture, View>(current_frame, *policy));
            lemma_sum_is_sum_listed(pools, keys@, frees::<Texture, View>(current_frame, *policy));
            assert(keys@.take(0) =~= Seq::<TextureKey>::empty());
        }
        while i < keys.len()
            invariant
                i <= keys@.len(),
                self.wf(),
                pools == self.pools(),
                forall|key: TextureKey|
                    keys@.contains(key) <==> #[trigger] pools.contains_key(key),
                sum_over(pools, drops(current_frame, *policy)) == sum_listed(
                    pools,
                    keys@,
                    drops(current_frame, *policy),
                ),
                sum_over(pools, frees(current_frame, *policy)) == sum_listed(
                    pools,
                    keys@,
                    frees(current_frame, *policy),
                ),
                entries == sum_listed(
                    pools,
                    keys@.take(i as int),
                    drops(current_frame, *policy),
                ),
                bytes == sum_listed(pools, keys@.take(i as int), frees(current_frame, *policy)),
            decreases keys@.len() - i,
        {
            let key = keys[i];
            let ghost next = keys@.take(i + 1);
            proof {
                assert(keys@.contains(key));
                assert(pools.contains_key(key));
                assert(keyed_pool_wf(key, pools[key], self.id(), self.next_serial()));
                assert(next.drop_last() =~= keys@.take(i as int));
                assert(next.last() == key);
                lemma_sum_listed_prefix(
                    pools,
                    keys@,
                    i + 1,
                    drops::<Texture, View>(current_frame, *policy),
                );
                lemma_sum_listed_prefix(
                    pools,
                    keys@,
                    i + 1,
                    frees::<Texture, View>(current_frame, *policy),
                );
                lemma_key_bytes(key);
                assert(drop_count(pools[key], current_frame, *policy) * key_bytes(key) >= 0)
                    by (nonlinear_arith)
                    requires
                        key_bytes(key) >= 0,
                        drop_count(pools[key], current_frame, *policy) >= 0,
                ;
            }
            let item_bytes = bytes_per_item(&key);
            if let Some(pool) = fnv_map::get(&self.pools, &key) {
                let last = pool.last_taken();
                let idle: u64 = if last <= current_frame {
                    current_frame - last
                } else {
                    0
                };
                let n = if idle >= policy.purge_frames {
                    pool.len()
                } else {
                    pool.count_dropped(current_frame, policy)
                };
                let freed = match (n as u64).checked_mul(item_bytes) {
                    Some(freed) => freed,
                    None => {
                        return false;
                    },
                };
                entries = match entries.checked_add(n) {
                    Some(entries) => entries,
                    None => {
                        return false;
                    },
                };
                bytes = match bytes.checked_add(freed) {
                    Some(bytes) => bytes,
                    None => {
                        return false;
                    },
                };
            }
            i += 1;
        }
        assert(keys@.take(i as int) =~= keys@);
        true
    }

    /// Sweeps all pools as [`sweep`](Self::sweep) does, and leaves everything as
    /// it is where the report could not hold its counts.
    pub fn try_sweep(
        &mut self,
        current_frame: u64,
        policy: TexturePoolSweepPolicy,
        census: &mut Vec<CensusEvent>,
    ) -> (report: Option<TexturePoolSweepReport>)
        requires
            old(self).wf(),
        ensures
            final(self).wf(),
            report is Some <==> sweep_fits(old(self).pools(), current_frame, policy),
            match report {
                Some(report) => swept(
                    *old(self),
                    *final(self),
                    current_frame,
                    policy,
                    report,
                    old(census)@,
                    final(census)@,
                ),
                None => *final(self) == *old(self) && final(census)@ == old(census)@,
            },
    {
        if self.report_fits(current_frame, &policy) {
            Some(self.sweep(current_frame, policy, census))
        } else {
            None
        }
    }

    /// Starts over: every pool is removed with all that rests in it, which is
    /// counted out, and the globals are forgotten. Textures in flight find no pool
    /// to go back to.
    pub fn reset(&mut self, census: &mut Vec<CensusEvent>)
        requires
            old(self).wf(),
        ensures
            final(self).wf(),
            was_reset(*old(self), *final(self), old(census)@, final(census)@),
    {
        let ghost before = self.pools@;
        let keys = fnv_map::keys(&self.pools);
        let mut i: usize = 0;
        proof {
            lemma_sum_is_sum_listed(before, keys@, pool_bytes::<Texture, View>());
            assert(keys@.take(0) =~= Seq::<TextureKey>::empty());
        }
        while i < keys.len()
            invariant
                i <= keys@.len(),
                self.wf(),
                self.next_serial() == old(self).next_serial(),
                self.id() == old(self).id(),
                before == old(self).pools(),
                keys@.no_duplicates(),
                forall|key: TextureKey|
                    keys@.contains(key) <==> #[trigger] before.contains_key(key),
                forall|key: TextureKey| #[trigger]
                    self.pools().contains_key(key) ==> before.contains_key(key)
                        && !keys@.take(i as int).contains(key),
                forall|j: int|
                    i <= j < keys@.len() ==> self.pools().contains_key(#[trigger] keys@[j])
                        && self.pools()[keys@[j]] == before[keys@[j]],
                forall|key: TextureKey| #[trigger]
                    before.contains_key(key) ==> keyed_pool_wf(
                        key,
                        before[key],
                        old(self).id(),
                        old(self).next_serial(),
                    ),
                old(census)@.is_prefix_of(census@),
                forall|event: CensusEvent| #[trigger]
                    census@.to_multiset().count(event) == old(census)@.to_multiset().count(event)
                        + sum_listed(before, keys@.take(i as int), sends_all(event)),
                live_bytes(census@, TextureSource::FilterPool) == live_bytes(
                    old(census)@,
                    TextureSource::FilterPool,
                ) - sum_listed(before, keys@.take(i as int), pool_bytes()),
            decreases keys@.len() - i,
        {
            let key = keys[i];
            let ghost next = keys@.take(i + 1);
            let ghost b = key_bytes(key);
            let ghost held = before[key];
            proof {
                assert(keys@.contains(key));
                assert(before.contains_key(key));
                assert(keyed_pool_wf(key, held, old(self).id(), old(self).next_serial()));
                assert(next.drop_last() =~= keys@.take(i as int));
                assert(next.last() == key);
                lemma_key_bytes(key);
                assert(held.slots().len() * b >= 0) by (nonlinear_arith)
                    requires
                        b >= 0,
                ;
            }
            if let Some(pool) = fnv_map::remove(&mut self.pools, &key) {
                let dropped = pool.into_items();
                assert forall|j: int| 0 <= j < dropped@.len() implies (
                #[trigger] dropped@[j]).2.bytes() == b as u64 by {
                    assert(dropped@[j] == held.slots()[j].0);
                }
                retire_all(dropped, census, Ghost(b as u64));
            }
            proof {
                assert forall|k: TextureKey| #[trigger]
                    self.pools().contains_key(k) implies !next.contains(k) by {
                    if next.contains(k) {
                        let j = choose|j: int| 0 <= j < next.len() && next[j] == k;
                        if j < i {
                            assert(keys@.take(i as int)[j] == k);
                        }
                    }
                }
            }
            i += 1;
        }
        self.globals_cache = fnv_map::empty_map();
        proof {
            assert(keys@.take(i as int) =~= keys@);
            assert(self.pools() =~= Map::<TextureKey, KeyedPool<Texture, View>>::empty());
            assert(self.globals() =~= Map::<GlobalsKey, Arc<Globals>>::empty());
            assert forall|event: CensusEvent| #[trigger]
                census@.to_multiset().count(event) == old(census)@.to_multiset().count(event)
                    + sum_over(before, sends_all::<Texture, View>(event)) by {
                lemma_sum_is_sum_listed(before, keys@, sends_all::<Texture, View>(event));
            }
        }
    }
}

/// The bytes of a texture are the product of its sides, of the bytes of a block, which
/// are four where the format gives none, and of its samples. Layers do not count.
pub proof fn law_bytes_are_a_product(
    size: wgpu::Extent3d,
    other: wgpu::Extent3d,
    block: u32,
    sample_count: u32,
)
    ensures
        texture_bytes(size, Some(block), sample_count) == size.width * size.height * block
            * sample_count,
        texture_bytes(size, None, sample_count) == texture_bytes(size, Some(4u32), sample_count),
        sample_bytes(size, Some(block)) == texture_bytes(size, Some(block), 1),
        sample_bytes(size, None) == texture_bytes(size, None, 1),
        other.width == size.width && other.height == size.height ==> texture_bytes(
            other,
            Some(block),
            sample_count,
        ) == texture_bytes(size, Some(block), sample_count),
{
    assert(sample_bytes(size, Some(block)) * 1 == sample_bytes(size, Some(block)));
}

/// The bytes of a texture can be counted exactly where neither those of one sample nor
/// those of all are more than sixty-four bits hold.
pub proof fn law_bytes_fit_or_do_not(
    size: wgpu::Extent3d,
    block_bytes: Option<u32>,
    sample_count: u32,
)
    ensures
        fits(size, block_bytes, sample_count) <==> texture_bytes(size, block_bytes, 1)
            <= 0xffff_ffff_ffff_ffff && texture_bytes(size, block_bytes, sample_count)
            <= 0xffff_ffff_ffff_ffff,
{
    assert(sample_bytes(size, block_bytes) * 1 == sample_bytes(size, block_bytes));
}

/// A key asks for textures of its size, of the block of its format and of its samples;
/// its usage does not count.
pub proof fn law_keys_are_measured_by_their_parts(
    size: wgpu::Extent3d,
    usage: wgpu::TextureUsages,
    format: wgpu::TextureFormat,
    sample_count: u32,
)
    ensures
        key_bytes((size, usage, format, sample_count)) == texture_bytes(
            size,
            block_copy_bytes(format),
            sample_count,
        ),
        key_fits((size, usage, format, sample_count)) <==> fits(
            size,
            block_copy_bytes(format),
            sample_count,
        ),
{
}

} // verus!
