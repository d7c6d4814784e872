//! What holds of texture pools over several calls.

use std::sync::Arc;

use vstd::prelude::*;

use crate::buffer_pool::AlwaysCompatible;
use crate::map_sum::{
    lemma_sum_at_most, lemma_sum_counts, lemma_sum_insert, lemma_sum_parts, lemma_sum_remove,
    lemma_sum_zero, sum_over,
};
use crate::seer::{live_bytes, CensusEvent, TextureSource};
use crate::slots::{
    is_fresh, kept_slots, law_kept_slots_are_fresh_and_few, law_sweep_keeps_as_much_as_allowed,
    law_sweep_keeps_or_drops, law_sweep_keeps_the_youngest, law_sweep_settles, FrameStamp, Slot,
    TexturePoolSweepPolicy,
};
use crate::texture_pool::{
    drop_count, drops, entry_wf, frees, got_globals, got_texture, is_purged, is_swept, key_bytes,
    key_fits, lemma_key_bytes, pool_bytes, purges, registered, resting, resting_bytes, retired,
    sends, sends_all, sweep_fits, swept, thins, took_back, was_made, was_reset, FilterPoolItem,
    GlobalsKey, KeyedPool, PoolIds, TextureEntry, TextureKey, TexturePool, TexturePoolSweepReport,
};

verus! {

/// The gauge of the filter pool shows what is alive: the bytes at rest and those
/// in flight.
pub open spec fn gauge_is_true<Texture, View, Globals>(
    pool: TexturePool<Texture, View, Globals>,
    in_flight: int,
    census: Seq<CensusEvent>,
) -> bool {
    live_bytes(census, TextureSource::FilterPool) == resting_bytes(pool.pools()) + in_flight
}

/// A new pool has nothing at rest and nothing in flight, and the gauge shows
/// nothing.
pub proof fn law_gauge_starts_true<Texture, View, Globals>(
    pool: TexturePool<Texture, View, Globals>,
)
    requires
        pool.pools() == Map::<TextureKey, KeyedPool<Texture, View>>::empty(),
    ensures
        gauge_is_true(pool, 0, Seq::empty()),
{
}

/// The gauge stays true when a texture is taken: reused or new, it is in flight.
pub proof fn law_gauge_stays_true_when_taken<Texture, View, Globals>(
    before: TexturePool<Texture, View, Globals>,
    after: TexturePool<Texture, View, Globals>,
    key: TextureKey,
    current_frame: u64,
    entry: TextureEntry<Texture, View>,
    in_flight: int,
    census_before: Seq<CensusEvent>,
    census_after: Seq<CensusEvent>,
)
    requires
        gauge_is_true(before, in_flight, census_before),
        got_texture(before, after, key, current_frame, entry, census_before, census_after),
    ensures
        gauge_is_true(after, in_flight + entry.item().2.bytes(), census_after),
{
}

/// The gauge stays true when a texture comes back, whether it rests again or is
/// dropped: it is counted neither twice nor not at all.
pub proof fn law_gauge_stays_true_when_put_back<Texture, View, Globals>(
    before: TexturePool<Texture, View, Globals>,
    after: TexturePool<Texture, View, Globals>,
    entry: TextureEntry<Texture, View>,
    current_frame: u64,
    in_flight: int,
    census_before: Seq<CensusEvent>,
    census_after: Seq<CensusEvent>,
)
    requires
        gauge_is_true(before, in_flight, census_before),
        took_back(before, after, entry, current_frame, census_before, census_after),
    ensures
        gauge_is_true(after, in_flight - entry.item().2.bytes(), census_after),
{
}

/// The gauge stays true over a sweep, and falls by the bytes that the sweep
/// reports.
pub proof fn law_gauge_stays_true_over_a_sweep<Texture, View, Globals>(
    before: TexturePool<Texture, View, Globals>,
    after: TexturePool<Texture, View, Globals>,
    current_frame: u64,
    policy: TexturePoolSweepPolicy,
    report: TexturePoolSweepReport,
    in_flight: int,
    census_before: Seq<CensusEvent>,
    census_after: Seq<CensusEvent>,
)
    requires
        gauge_is_true(before, in_flight, census_before),
        swept(before, after, current_frame, policy, report, census_before, census_after),
    ensures
        gauge_is_true(after, in_flight, census_after),
        live_bytes(census_after, TextureSource::FilterPool) == live_bytes(
            census_before,
            TextureSource::FilterPool,
        ) - report.freed_bytes,
{
}

/// The gauge stays true when the pools start over: only what is in flight is left.
pub proof fn law_gauge_stays_true_over_a_reset<Texture, View, Globals>(
    before: TexturePool<Texture, View, Globals>,
    after: TexturePool<Texture, View, Globals>,
    in_flight: int,
    census_before: Seq<CensusEvent>,
    census_after: Seq<CensusEvent>,
)
    requires
        gauge_is_true(before, in_flight, census_before),
        was_reset(before, after, census_before, census_after),
    ensures
        gauge_is_true(after, in_flight, census_after),
        live_bytes(census_after, TextureSource::FilterPool) == in_flight,
{
}

/// For each pool, the textures of that many bytes that rest in it.
pub open spec fn of_size<Texture, View>(bytes: u64) -> spec_fn(
    TextureKey,
    KeyedPool<Texture, View>,
) -> nat {
    |key: TextureKey, pool: KeyedPool<Texture, View>|
        if key_bytes(key) == bytes {
            pool.slots().len()
        } else {
            0
        }
}

/// One where the texture has that many bytes.
pub open spec fn one_of_size<Texture, View>(
    entry: TextureEntry<Texture, View>,
    bytes: u64,
) -> int {
    if entry.item().2.bytes() == bytes {
        1
    } else {
        0
    }
}

/// How often a texture of that many bytes was counted in.
pub open spec fn counted_in(census: Seq<CensusEvent>, bytes: u64) -> nat {
    census.to_multiset().count(registered(bytes))
}

/// How often a texture of that many bytes was counted out.
pub open spec fn counted_out(census: Seq<CensusEvent>, bytes: u64) -> nat {
    census.to_multiset().count(retired(bytes))
}

/// Every texture of that many bytes was counted in once, and counted out once if
/// it is gone: what was counted in and not out rests in a pool or is in flight.
pub open spec fn count_is_true<Texture, View, Globals>(
    pool: TexturePool<Texture, View, Globals>,
    in_flight: int,
    census: Seq<CensusEvent>,
    bytes: u64,
) -> bool {
    counted_in(census, bytes) - counted_out(census, bytes) == sum_over(
        pool.pools(),
        of_size(bytes),
    ) + in_flight
}

/// In a new pool no texture is alive, and none was counted.
pub proof fn law_count_starts_true<Texture, View, Globals>(
    pool: TexturePool<Texture, View, Globals>,
    bytes: u64,
)
    requires
        pool.pools() == Map::<TextureKey, KeyedPool<Texture, View>>::empty(),
    ensures
        count_is_true(pool, 0, Seq::empty(), bytes),
{
    broadcast use vstd::seq_lib::group_to_multiset_ensures;
    broadcast use vstd::multiset::group_multiset_axioms;

    assert(Seq::<CensusEvent>::empty().to_multiset() =~= vstd::multiset::Multiset::empty());
}

/// A texture that is taken is counted in once, when it is made, and not when it is
/// reused.
pub proof fn law_count_stays_true_when_taken<Texture, View, Globals>(
    before: TexturePool<Texture, View, Globals>,
    after: TexturePool<Texture, View, Globals>,
    key: TextureKey,
    current_frame: u64,
    entry: TextureEntry<Texture, View>,
    in_flight: int,
    census_before: Seq<CensusEvent>,
    census_after: Seq<CensusEvent>,
    bytes: u64,
)
    requires
        before.wf(),
        after.wf(),
        entry_wf(entry),
        count_is_true(before, in_flight, census_before, bytes),
        got_texture(before, after, key, current_frame, entry, census_before, census_after),
    ensures
        count_is_true(after, in_flight + one_of_size(entry, bytes), census_after, bytes),
{
    broadcast use vstd::seq_lib::group_to_multiset_ensures;

    let pool = after.pools()[key];
    assert(after.pools().contains_key(key));
    lemma_key_bytes(key);
    lemma_sum_insert(before.pools(), of_size::<Texture, View>(bytes), key, pool);
    if before.pools().contains_key(key) {
        lemma_sum_remove(before.pools(), of_size::<Texture, View>(bytes), key);
    } else {
        assert(before.pools().remove(key) =~= before.pools());
    }
}

/// A texture that comes back is not counted where it rests again, and counted out
/// once where it is dropped.
pub proof fn law_count_stays_true_when_put_back<Texture, View, Globals>(
    before: TexturePool<Texture, View, Globals>,
    after: TexturePool<Texture, View, Globals>,
    entry: TextureEntry<Texture, View>,
    current_frame: u64,
    in_flight: int,
    census_before: Seq<CensusEvent>,
    census_after: Seq<CensusEvent>,
    bytes: u64,
)
    requires
        before.wf(),
        entry_wf(entry),
        count_is_true(before, in_flight, census_before, bytes),
        took_back(before, after, entry, current_frame, census_before, census_after),
    ensures
        count_is_true(after, in_flight - one_of_size(entry, bytes), census_after, bytes),
{
    broadcast use vstd::seq_lib::group_to_multiset_ensures;

    let key = entry.pool().key;
    if before.is_home(entry) {
        lemma_sum_insert(
            before.pools(),
            of_size::<Texture, View>(bytes),
            key,
            after.pools()[key],
        );
        lemma_sum_remove(before.pools(), of_size::<Texture, View>(bytes), key);
    }
}

/// A sweep counts each texture that it drops out once, and no other.
pub proof fn law_count_stays_true_over_a_sweep<Texture, View, Globals>(
    before: TexturePool<Texture, View, Globals>,
    after: TexturePool<Texture, View, Globals>,
    current_frame: u64,
    policy: TexturePoolSweepPolicy,
    report: TexturePoolSweepReport,
    in_flight: int,
    census_before: Seq<CensusEvent>,
    census_after: Seq<CensusEvent>,
    bytes: u64,
)
    requires
        before.wf(),
        count_is_true(before, in_flight, census_before, bytes),
        swept(before, after, current_frame, policy, report, census_before, census_after),
    ensures
        count_is_true(after, in_flight, census_after, bytes),
{
    let gone = sends::<Texture, View>(current_frame, policy, retired(bytes));
    lemma_sum_zero(
        before.pools(),
        sends::<Texture, View>(current_frame, policy, registered(bytes)),
    );
    assert forall|key: TextureKey| #[trigger] before.pools().contains_key(key) implies of_size::<
        Texture,
        View,
    >(bytes)(key, before.pools()[key]) == gone(key, before.pools()[key])
        + if after.pools().contains_key(key) {
        of_size::<Texture, View>(bytes)(key, after.pools()[key])
    } else {
        0
    } by {
        lemma_key_bytes(key);
        law_sweep_keeps_or_drops(before.pools()[key].slots(), current_frame, policy);
        if after.pools().contains_key(key) {
            assert(is_swept(
                before.pools()[key],
                after.pools()[key],
                current_frame,
                policy,
            ));
        }
    }
    lemma_sum_parts(
        before.pools(),
        after.pools(),
        of_size::<Texture, View>(bytes),
        of_size::<Texture, View>(bytes),
        gone,
    );
}

/// Starting over counts each texture at rest out once.
pub proof fn law_count_stays_true_over_a_reset<Texture, View, Globals>(
    before: TexturePool<Texture, View, Globals>,
    after: TexturePool<Texture, View, Globals>,
    in_flight: int,
    census_before: Seq<CensusEvent>,
    census_after: Seq<CensusEvent>,
    bytes: u64,
)
    requires
        before.wf(),
        count_is_true(before, in_flight, census_before, bytes),
        was_reset(before, after, census_before, census_after),
    ensures
        count_is_true(after, in_flight, census_after, bytes),
{
    let gone = sends_all::<Texture, View>(retired(bytes));
    lemma_sum_zero(before.pools(), sends_all::<Texture, View>(registered(bytes)));
    assert forall|key: TextureKey| #[trigger] before.pools().contains_key(key) implies of_size::<
        Texture,
        View,
    >(bytes)(key, before.pools()[key]) == gone(key, before.pools()[key]) by {
        lemma_key_bytes(key);
    }
    lemma_sum_parts(
        before.pools(),
        after.pools(),
        of_size::<Texture, View>(bytes),
        of_size::<Texture, View>(bytes),
        gone,
    );
}

/// A pool that stands after a sweep was taken from recently, holds no more than
/// the cap allows, and nothing in it was idle for too long.
pub proof fn law_swept_pools_are_in_bounds<Texture, View, Globals>(
    before: TexturePool<Texture, View, Globals>,
    after: TexturePool<Texture, View, Globals>,
    current_frame: u64,
    policy: TexturePoolSweepPolicy,
    report: TexturePoolSweepReport,
    census_before: Seq<CensusEvent>,
    census_after: Seq<CensusEvent>,
    key: TextureKey,
)
    requires
        swept(before, after, current_frame, policy, report, census_before, census_after),
        after.pools().contains_key(key),
    ensures
        !is_purged(after.pools()[key], current_frame, policy),
        after.pools()[key].slots().len() <= policy.max_per_pool,
        forall|i: int|
            0 <= i < after.pools()[key].slots().len() ==> is_fresh(
                #[trigger] after.pools()[key].slots()[i],
                current_frame,
                policy.idle_frames,
            ),
{
    law_kept_slots_are_fresh_and_few(before.pools()[key].slots(), current_frame, policy);
}

/// A second sweep in the same frame changes nothing and has nothing to report.
pub proof fn law_a_second_sweep_finds_nothing<Texture, View, Globals>(
    first: TexturePool<Texture, View, Globals>,
    second: TexturePool<Texture, View, Globals>,
    third: TexturePool<Texture, View, Globals>,
    current_frame: u64,
    policy: TexturePoolSweepPolicy,
    first_report: TexturePoolSweepReport,
    second_report: TexturePoolSweepReport,
    first_census: Seq<CensusEvent>,
    second_census: Seq<CensusEvent>,
    third_census: Seq<CensusEvent>,
)
    requires
        swept(first, second, current_frame, policy, first_report, first_census, second_census),
        swept(second, third, current_frame, policy, second_report, second_census, third_census),
    ensures
        second_report.keys_swept == 0,
        second_report.dropped_entries == 0,
        second_report.purged_keys == 0,
        second_report.freed_bytes == 0,
        third.pools().dom() == second.pools().dom(),
        forall|key: TextureKey| #[trigger]
            third.pools().contains_key(key) ==> {
                &&& third.pools()[key].slots() == second.pools()[key].slots()
                &&& third.pools()[key].constructor() == second.pools()[key].constructor()
                &&& third.pools()[key].home() == second.pools()[key].home()
                &&& third.pools()[key].last_taken_frame()
                    == second.pools()[key].last_taken_frame()
            },
        third.globals() == second.globals(),
        third.id() == second.id(),
        third.next_serial() == second.next_serial(),
        third_census == second_census,
{
    broadcast use vstd::seq_lib::group_to_multiset_ensures;

    let pools = second.pools();
    assert forall|key: TextureKey| #[trigger] pools.contains_key(key) implies !is_purged(
        pools[key],
        current_frame,
        policy,
    ) && drop_count(pools[key], current_frame, policy) == 0 && kept_slots(
        pools[key].slots(),
        current_frame,
        policy,
    ) == pools[key].slots() by {
        assert(is_swept(first.pools()[key], pools[key], current_frame, policy));
        law_sweep_settles(first.pools()[key].slots(), current_frame, policy);
    }
    lemma_sum_zero(pools, thins::<Texture, View>(current_frame, policy));
    lemma_sum_zero(pools, drops::<Texture, View>(current_frame, policy));
    lemma_sum_zero(pools, purges::<Texture, View>(current_frame, policy));
    lemma_sum_zero(pools, frees::<Texture, View>(current_frame, policy));
    assert(third.pools().dom() =~= pools.dom());
    assert forall|event: CensusEvent| #[trigger]
        third_census.to_multiset().count(event) == second_census.to_multiset().count(event) by {
        lemma_sum_zero(pools, sends::<Texture, View>(current_frame, policy, event));
    }
    assert(third_census.to_multiset() =~= second_census.to_multiset());
    assert(third_census.len() == third_census.to_multiset().len());
    assert(second_census.len() == second_census.to_multiset().len());
    assert(second_census.is_prefix_of(third_census));
    assert(third_census.take(second_census.len() as int) =~= third_census);
    assert(third_census =~= second_census);
}

/// A texture that is put back where nothing rests is the one that is taken next.
pub proof fn law_what_is_put_back_is_taken_next<Texture, View, Globals>(
    before: TexturePool<Texture, View, Globals>,
    between: TexturePool<Texture, View, Globals>,
    after: TexturePool<Texture, View, Globals>,
    entry: TextureEntry<Texture, View>,
    next: TextureEntry<Texture, View>,
    frame_back: u64,
    frame_taken: u64,
    census_before: Seq<CensusEvent>,
    census_between: Seq<CensusEvent>,
    census_after: Seq<CensusEvent>,
)
    requires
        before.is_home(entry),
        resting(before.pools(), entry.pool().key).len() == 0,
        took_back(before, between, entry, frame_back, census_before, census_between),
        got_texture(
            between,
            after,
            entry.pool().key,
            frame_taken,
            next,
            census_between,
            census_after,
        ),
    ensures
        next.item() == entry.item(),
        next.pool().serial == entry.pool().serial,
        census_after == census_before,
{
}

/// A texture in flight that has no pool to go back to: it was taken from other
/// pools, or from one that is gone.
pub open spec fn is_lost<Texture, View, Globals>(
    pool: TexturePool<Texture, View, Globals>,
    entry: TextureEntry<Texture, View>,
) -> bool {
    ||| entry.pool().owner != pool.id()
    ||| !pool.is_home(entry) && entry.pool().serial < pool.next_serial()
}

/// A sweep that purges a pool loses the textures that were taken from it.
pub proof fn law_a_purge_loses_what_is_in_flight<Texture, View, Globals>(
    before: TexturePool<Texture, View, Globals>,
    after: TexturePool<Texture, View, Globals>,
    entry: TextureEntry<Texture, View>,
    current_frame: u64,
    policy: TexturePoolSweepPolicy,
    report: TexturePoolSweepReport,
    census_before: Seq<CensusEvent>,
    census_after: Seq<CensusEvent>,
)
    requires
        before.wf(),
        before.is_home(entry),
        is_purged(before.pools()[entry.pool().key], current_frame, policy),
        swept(before, after, current_frame, policy, report, census_before, census_after),
    ensures
        is_lost(after, entry),
{
    assert(before.pools().contains_key(entry.pool().key));
    assert(!after.pools().contains_key(entry.pool().key));
}

/// Starting over loses every texture in flight.
pub proof fn law_a_reset_loses_what_is_in_flight<Texture, View, Globals>(
    before: TexturePool<Texture, View, Globals>,
    after: TexturePool<Texture, View, Globals>,
    entry: TextureEntry<Texture, View>,
    census_before: Seq<CensusEvent>,
    census_after: Seq<CensusEvent>,
)
    requires
        before.wf(),
        before.is_home(entry),
        was_reset(before, after, census_before, census_after),
    ensures
        is_lost(after, entry),
{
    assert(before.pools().contains_key(entry.pool().key));
}

/// Whatever can happen to the pools in one call, but for starting over.
pub open spec fn is_use<Texture, View, Globals>(
    before: TexturePool<Texture, View, Globals>,
    after: TexturePool<Texture, View, Globals>,
) -> bool {
    ||| exists|
        key: TextureKey,
        frame: u64,
        entry: TextureEntry<Texture, View>,
        census_before: Seq<CensusEvent>,
        census_after: Seq<CensusEvent>,
    | #[trigger]
        got_texture(before, after, key, frame, entry, census_before, census_after)
    ||| exists|
        entry: TextureEntry<Texture, View>,
        frame: u64,
        census_before: Seq<CensusEvent>,
        census_after: Seq<CensusEvent>,
    | #[trigger]
        took_back(before, after, entry, frame, census_before, census_after)
    ||| exists|
        frame: u64,
        policy: TexturePoolSweepPolicy,
        report: TexturePoolSweepReport,
        census_before: Seq<CensusEvent>,
        census_after: Seq<CensusEvent>,
    | #[trigger]
        swept(before, after, frame, policy, report, census_before, census_after)
    ||| exists|key: GlobalsKey, globals: Arc<Globals>| #[trigger]
        got_globals(before, after, key, globals)
}

/// Whatever can happen to the pools in one call.
pub open spec fn is_step<Texture, View, Globals>(
    before: TexturePool<Texture, View, Globals>,
    after: TexturePool<Texture, View, Globals>,
) -> bool {
    ||| is_use(before, after)
    ||| exists|census_before: Seq<CensusEvent>, census_after: Seq<CensusEvent>| #[trigger]
        was_reset(before, after, census_before, census_after)
}

/// No two pools have the same identity, whatever was made between them.
pub proof fn law_pools_have_identities_of_their_own<Texture, View, Globals>(
    first_before: PoolIds,
    first_after: PoolIds,
    first: TexturePool<Texture, View, Globals>,
    second_before: PoolIds,
    second_after: PoolIds,
    second: TexturePool<Texture, View, Globals>,
)
    requires
        was_made(first_before, first_after, first),
        first_after.next() <= second_before.next(),
        was_made(second_before, second_after, second),
    ensures
        first.id() != second.id(),
{
}

/// A lost texture, whether its pool is gone or it was taken from other pools, is
/// dropped and counted out when it comes back, and rests nowhere.
pub proof fn law_a_lost_texture_is_dropped<Texture, View, Globals>(
    before: TexturePool<Texture, View, Globals>,
    after: TexturePool<Texture, View, Globals>,
    entry: TextureEntry<Texture, View>,
    current_frame: u64,
    census_before: Seq<CensusEvent>,
    census_after: Seq<CensusEvent>,
)
    requires
        is_lost(before, entry),
        took_back(before, after, entry, current_frame, census_before, census_after),
    ensures
        after.pools() == before.pools(),
        census_after == census_before.push(retired(entry.item().2.bytes())),
{
}

/// Pools that take the place of others take none of their textures: whatever
/// happened to the new ones meanwhile, a texture of the old ones is lost to them.
pub proof fn law_new_pools_lose_what_is_in_flight<Texture, View, Globals>(
    old_pools: TexturePool<Texture, View, Globals>,
    taken_from: TexturePool<Texture, View, Globals>,
    key: TextureKey,
    current_frame: u64,
    entry: TextureEntry<Texture, View>,
    census_before: Seq<CensusEvent>,
    census_after: Seq<CensusEvent>,
    new_pools: TexturePool<Texture, View, Globals>,
)
    requires
        got_texture(
            old_pools,
            taken_from,
            key,
            current_frame,
            entry,
            census_before,
            census_after,
        ),
        new_pools.id() != old_pools.id(),
    ensures
        is_lost(new_pools, entry),
{
}

/// One call after the other, none of which starts over.
pub open spec fn are_uses<Texture, View, Globals>(
    states: Seq<TexturePool<Texture, View, Globals>>,
) -> bool {
    &&& states.len() > 0
    &&& forall|i: int| 0 < i < states.len() ==> is_use(states[i - 1], #[trigger] states[i])
}

/// The globals of a viewport are made once: whatever is taken, comes back, is swept
/// or asked for after that, they are kept, and they are what is handed out when they
/// are asked for again.
pub proof fn law_globals_are_made_once<Texture, View, Globals>(
    states: Seq<TexturePool<Texture, View, Globals>>,
    after: TexturePool<Texture, View, Globals>,
    key: GlobalsKey,
    again: Arc<Globals>,
)
    requires
        are_uses(states),
        states.first().globals().contains_key(key),
        got_globals(states.last(), after, key, again),
    ensures
        again == states.first().globals()[key],
        after.globals() == states.last().globals(),
        after.pools() == states.last().pools(),
{
    lemma_globals_are_kept(states, key);
}

/// Globals are kept over any uses.
proof fn lemma_globals_are_kept<Texture, View, Globals>(
    states: Seq<TexturePool<Texture, View, Globals>>,
    key: GlobalsKey,
)
    requires
        are_uses(states),
        states.first().globals().contains_key(key),
    ensures
        states.last().globals().contains_key(key),
        states.last().globals()[key] == states.first().globals()[key],
    decreases states.len(),
{
    if states.len() > 1 {
        let front = states.drop_last();
        assert forall|i: int| 0 < i < front.len() implies is_use(
            front[i - 1],
            #[trigger] front[i],
        ) by {
            assert(states[i] == front[i]);
        }
        lemma_globals_are_kept(front, key);
        assert(is_use(states[states.len() - 2], states[states.len() - 1]));
    }
}

/// Viewports do not share globals: what is made for one leaves those of every other
/// as they were.
pub proof fn law_viewports_have_globals_of_their_own<Texture, View, Globals>(
    before: TexturePool<Texture, View, Globals>,
    after: TexturePool<Texture, View, Globals>,
    key: GlobalsKey,
    other: GlobalsKey,
    globals: Arc<Globals>,
)
    requires
        got_globals(before, after, key, globals),
        key != other,
    ensures
        after.globals().contains_key(key) && after.globals()[key] == globals,
        after.globals().contains_key(other) == before.globals().contains_key(other),
        before.globals().contains_key(other) ==> after.globals()[other]
            == before.globals()[other],
{
}

/// A lost texture stays lost, whatever happens to the pools: it never rests in a
/// pool that is made for the same key later.
pub proof fn law_a_lost_texture_stays_lost<Texture, View, Globals>(
    before: TexturePool<Texture, View, Globals>,
    after: TexturePool<Texture, View, Globals>,
    entry: TextureEntry<Texture, View>,
)
    requires
        is_lost(before, entry),
        is_step(before, after),
    ensures
        is_lost(after, entry),
{
    let key = entry.pool().key;
    if exists|
        frame: u64,
        policy: TexturePoolSweepPolicy,
        report: TexturePoolSweepReport,
        census_before: Seq<CensusEvent>,
        census_after: Seq<CensusEvent>,
    | #[trigger]
        swept(before, after, frame, policy, report, census_before, census_after) {
        let (frame, policy, report, census_before, census_after) = choose|
            frame: u64,
            policy: TexturePoolSweepPolicy,
            report: TexturePoolSweepReport,
            census_before: Seq<CensusEvent>,
            census_after: Seq<CensusEvent>,
        | #[trigger]
            swept(before, after, frame, policy, report, census_before, census_after);
        if after.pools().contains_key(key) {
            assert(is_swept(before.pools()[key], after.pools()[key], frame, policy));
        }
    }
}

/// Where a texture rests in the pool of its key, the first one there is taken and none
/// is made: the census stays, the others stay at rest, and the last takes the place of
/// the one that went.
pub proof fn law_a_take_reuses_what_rests<Texture, View, Globals>(
    before: TexturePool<Texture, View, Globals>,
    after: TexturePool<Texture, View, Globals>,
    key: TextureKey,
    current_frame: u64,
    entry: TextureEntry<Texture, View>,
    census_before: Seq<CensusEvent>,
    census_after: Seq<CensusEvent>,
)
    requires
        before.pools().contains_key(key),
        before.pools()[key].slots().len() > 0,
        got_texture(before, after, key, current_frame, entry, census_before, census_after),
    ensures
        entry.item() == before.pools()[key].slots()[0].0,
        census_after == census_before,
        after.pools()[key].slots().len() == before.pools()[key].slots().len() - 1,
        forall|i: int|
            0 < i < after.pools()[key].slots().len() ==> #[trigger] after.pools()[key].slots()[i]
                == before.pools()[key].slots()[i],
        before.pools()[key].slots().len() > 1 ==> after.pools()[key].slots()[0]
            == before.pools()[key].slots()[before.pools()[key].slots().len() - 1],
        entry.pool() == before.pools()[key].home(),
        after.next_serial() == before.next_serial(),
{
}

/// Where no texture rests for a key, the one that is taken is new: it is counted in once,
/// by the bytes of the key, and nothing rests for the key still. A key without a pool
/// gets one, of a serial that none had before.
pub proof fn law_a_take_makes_what_is_missing<Texture, View, Globals>(
    before: TexturePool<Texture, View, Globals>,
    after: TexturePool<Texture, View, Globals>,
    key: TextureKey,
    current_frame: u64,
    entry: TextureEntry<Texture, View>,
    census_before: Seq<CensusEvent>,
    census_after: Seq<CensusEvent>,
)
    requires
        !before.pools().contains_key(key) || before.pools()[key].slots().len() == 0,
        got_texture(before, after, key, current_frame, entry, census_before, census_after),
    ensures
        census_after == census_before.push(
            CensusEvent::Registered {
                source: TextureSource::FilterPool,
                bytes: key_bytes(key) as u64,
            },
        ),
        after.pools().contains_key(key),
        after.pools()[key].slots().len() == 0,
        before.pools().contains_key(key) ==> entry.pool() == before.pools()[key].home()
            && after.next_serial() == before.next_serial(),
        !before.pools().contains_key(key) ==> entry.pool().serial == before.next_serial()
            && after.next_serial() == before.next_serial() + 1,
{
}

/// A take says where the texture goes back to, stamps the pool of the key with the frame,
/// whether the texture is reused or new, and leaves every other pool, the globals and
/// the identity as they are.
pub proof fn law_a_take_stamps_its_pool_and_no_other<Texture, View, Globals>(
    before: TexturePool<Texture, View, Globals>,
    after: TexturePool<Texture, View, Globals>,
    key: TextureKey,
    current_frame: u64,
    entry: TextureEntry<Texture, View>,
    census_before: Seq<CensusEvent>,
    census_after: Seq<CensusEvent>,
    other: TextureKey,
)
    requires
        got_texture(before, after, key, current_frame, entry, census_before, census_after),
    ensures
        after.pools().contains_key(key),
        after.pools()[key].last_taken_frame() == current_frame,
        entry.pool() == after.pools()[key].home(),
        entry.pool().key == key,
        entry.pool().owner == before.id(),
        other != key ==> (after.pools().contains_key(other) <==> before.pools().contains_key(
            other,
        )),
        other != key && before.pools().contains_key(other) ==> after.pools()[other]
            == before.pools()[other],
        after.globals() == before.globals(),
        after.id() == before.id(),
{
}

/// Every take keeps its pool alive: a sweep fewer than `purge_frames` frames later does
/// not remove the pool from which the texture was taken, reused or new.
pub proof fn law_a_take_keeps_its_pool_alive<Texture, View, Globals>(
    before: TexturePool<Texture, View, Globals>,
    between: TexturePool<Texture, View, Globals>,
    after: TexturePool<Texture, View, Globals>,
    key: TextureKey,
    current_frame: u64,
    entry: TextureEntry<Texture, View>,
    census_before: Seq<CensusEvent>,
    census_after: Seq<CensusEvent>,
    sweep_frame: u64,
    policy: TexturePoolSweepPolicy,
    report: TexturePoolSweepReport,
    census_swept: Seq<CensusEvent>,
)
    requires
        got_texture(before, between, key, current_frame, entry, census_before, census_after),
        swept(between, after, sweep_frame, policy, report, census_after, census_swept),
        sweep_frame - current_frame < policy.purge_frames,
        policy.purge_frames > 0,
    ensures
        after.pools().contains_key(key),
        after.pools()[key].last_taken_frame() == current_frame,
        after.pools()[key].home() == entry.pool(),
{
    assert(between.pools().contains_key(key));
    assert(after.pools().contains_key(key));
    assert(is_swept(between.pools()[key], after.pools()[key], sweep_frame, policy));
}

/// Nothing but a take moves the stamp of a pool: neither a return nor a sweep that leaves
/// it standing, nor a request for globals. So the stamp is that of the last take.
pub proof fn law_only_takes_move_the_stamp<Texture, View, Globals>(
    before: TexturePool<Texture, View, Globals>,
    after: TexturePool<Texture, View, Globals>,
    key: TextureKey,
)
    requires
        is_use(before, after),
        before.pools().contains_key(key),
        after.pools().contains_key(key),
        after.pools()[key].last_taken_frame() != before.pools()[key].last_taken_frame(),
    ensures
        exists|
            frame: u64,
            entry: TextureEntry<Texture, View>,
            census_before: Seq<CensusEvent>,
            census_after: Seq<CensusEvent>,
        |
            #[trigger] got_texture(
                before,
                after,
                key,
                frame,
                entry,
                census_before,
                census_after,
            ),
{
    if exists|
        frame: u64,
        policy: TexturePoolSweepPolicy,
        report: TexturePoolSweepReport,
        census_before: Seq<CensusEvent>,
        census_after: Seq<CensusEvent>,
    | #[trigger]
        swept(before, after, frame, policy, report, census_before, census_after) {
        let (frame, policy, report, census_before, census_after) = choose|
            frame: u64,
            policy: TexturePoolSweepPolicy,
            report: TexturePoolSweepReport,
            census_before: Seq<CensusEvent>,
            census_after: Seq<CensusEvent>,
        | #[trigger]
            swept(before, after, frame, policy, report, census_before, census_after);
        assert(is_swept(before.pools()[key], after.pools()[key], frame, policy));
    }
}

/// A texture whose pool still stands always comes to rest there, behind all that rest
/// there already, however many they are, and stamped with the frame. The census stays,
/// and so does everything else.
pub proof fn law_a_returned_texture_rests<Texture, View, Globals>(
    before: TexturePool<Texture, View, Globals>,
    after: TexturePool<Texture, View, Globals>,
    entry: TextureEntry<Texture, View>,
    current_frame: u64,
    census_before: Seq<CensusEvent>,
    census_after: Seq<CensusEvent>,
    other: TextureKey,
)
    requires
        entry.pool().owner == before.id(),
        before.pools().contains_key(entry.pool().key),
        before.pools()[entry.pool().key].home().serial == entry.pool().serial,
        took_back(before, after, entry, current_frame, census_before, census_after),
    ensures
        after.pools().contains_key(entry.pool().key),
        after.pools()[entry.pool().key].slots().len()
            == before.pools()[entry.pool().key].slots().len() + 1,
        after.pools()[entry.pool().key].slots().last() == (
            entry.item(),
            entry.description(),
            FrameStamp(current_frame),
        ),
        after.pools()[entry.pool().key].slots().drop_last()
            == before.pools()[entry.pool().key].slots(),
        after.pools()[entry.pool().key].home() == before.pools()[entry.pool().key].home(),
        after.pools()[entry.pool().key].last_taken_frame()
            == before.pools()[entry.pool().key].last_taken_frame(),
        census_after == census_before,
        other != entry.pool().key ==> (after.pools().contains_key(other)
            <==> before.pools().contains_key(other)),
        other != entry.pool().key && before.pools().contains_key(other) ==> after.pools()[other]
            == before.pools()[other],
        after.globals() == before.globals(),
        after.id() == before.id(),
        after.next_serial() == before.next_serial(),
{
    let key = entry.pool().key;
    assert(after.pools()[key].slots().drop_last() =~= before.pools()[key].slots());
}

/// A texture whose pool does not stand comes to rest nowhere: no pool changes, and it is
/// counted out once, by its bytes.
pub proof fn law_a_returned_texture_without_a_pool_is_counted_out<Texture, View, Globals>(
    before: TexturePool<Texture, View, Globals>,
    after: TexturePool<Texture, View, Globals>,
    entry: TextureEntry<Texture, View>,
    current_frame: u64,
    census_before: Seq<CensusEvent>,
    census_after: Seq<CensusEvent>,
)
    requires
        entry.pool().owner != before.id() || !before.pools().contains_key(entry.pool().key)
            || before.pools()[entry.pool().key].home().serial != entry.pool().serial,
        took_back(before, after, entry, current_frame, census_before, census_after),
    ensures
        after.pools() == before.pools(),
        census_after == census_before.push(
            CensusEvent::Dropped {
                source: TextureSource::FilterPool,
                bytes: entry.item().2.bytes(),
            },
        ),
        after.globals() == before.globals(),
        after.id() == before.id(),
        after.next_serial() == before.next_serial(),
{
}

/// A texture that is taken and put back rests in the pool that it was taken from: as many
/// rest there as before the take, and one more where the texture was new.
pub proof fn law_a_take_and_a_return_balance<Texture, View, Globals>(
    before: TexturePool<Texture, View, Globals>,
    between: TexturePool<Texture, View, Globals>,
    after: TexturePool<Texture, View, Globals>,
    key: TextureKey,
    current_frame: u64,
    entry: TextureEntry<Texture, View>,
    census_before: Seq<CensusEvent>,
    census_after: Seq<CensusEvent>,
    return_frame: u64,
    census_returned: Seq<CensusEvent>,
)
    requires
        got_texture(before, between, key, current_frame, entry, census_before, census_after),
        took_back(between, after, entry, return_frame, census_after, census_returned),
    ensures
        census_returned == census_after,
        after.pools()[key].slots().len() == if before.pools().contains_key(key)
            && before.pools()[key].slots().len() > 0 {
            before.pools()[key].slots().len()
        } else {
            1
        },
        after.pools()[key].slots().last().0 == entry.item(),
        after.pools()[key].slots().last().2 == FrameStamp(return_frame),
{
}

/// A sweep removes exactly the pools from which nothing was taken for `purge_frames`
/// frames or longer, and leaves of each other one what it keeps of its slots, and all
/// else as it is.
pub proof fn law_a_sweep_removes_the_pools_that_are_idle<Texture, View, Globals>(
    before: TexturePool<Texture, View, Globals>,
    after: TexturePool<Texture, View, Globals>,
    current_frame: u64,
    policy: TexturePoolSweepPolicy,
    report: TexturePoolSweepReport,
    census_before: Seq<CensusEvent>,
    census_after: Seq<CensusEvent>,
    key: TextureKey,
)
    requires
        swept(before, after, current_frame, policy, report, census_before, census_after),
    ensures
        after.pools().contains_key(key) <==> before.pools().contains_key(key)
            && policy.purge_frames > 0 && current_frame - before.pools()[key].last_taken_frame()
            < policy.purge_frames,
        after.pools().contains_key(key) ==> {
            &&& after.pools()[key].slots() == kept_slots(
                before.pools()[key].slots(),
                current_frame,
                policy,
            )
            &&& after.pools()[key].home() == before.pools()[key].home()
            &&& after.pools()[key].constructor() == before.pools()[key].constructor()
            &&& after.pools()[key].last_taken_frame() == before.pools()[key].last_taken_frame()
        },
        after.globals() == before.globals(),
        after.id() == before.id(),
        after.next_serial() == before.next_serial(),
{
    if after.pools().contains_key(key) {
        assert(is_swept(before.pools()[key], after.pools()[key], current_frame, policy));
    }
    assert(after.pools().contains_key(key) <==> before.pools().contains_key(key) && !is_purged(
        before.pools()[key],
        current_frame,
        policy,
    ));
}

/// Of a pool that it does not remove, a sweep keeps as much as the policy allows: as many
/// textures as came back fewer than `idle_frames` frames ago, and the cap where there
/// are more. A pool within the cap in which none is that old is left as it is.
pub proof fn law_a_sweep_keeps_as_much_as_allowed<Texture, View, Globals>(
    before: TexturePool<Texture, View, Globals>,
    after: TexturePool<Texture, View, Globals>,
    current_frame: u64,
    policy: TexturePoolSweepPolicy,
    report: TexturePoolSweepReport,
    census_before: Seq<CensusEvent>,
    census_after: Seq<CensusEvent>,
    key: TextureKey,
)
    requires
        swept(before, after, current_frame, policy, report, census_before, census_after),
        after.pools().contains_key(key),
    ensures
        ({
            let rested = before.pools()[key].slots();
            let rests = after.pools()[key].slots();
            let young = rested.filter(
                |slot: Slot<FilterPoolItem<Texture, View>, AlwaysCompatible>|
                    policy.idle_frames > 0 && current_frame - slot.2.0 < policy.idle_frames,
            ).len();
            &&& rests.len() == if young < policy.max_per_pool {
                young
            } else {
                policy.max_per_pool as nat
            }
            &&& rested.len() <= policy.max_per_pool && policy.idle_frames > 0 && (forall|i: int|
                0 <= i < rested.len() ==> current_frame - (#[trigger] rested[i]).2.0
                    < policy.idle_frames) ==> rests == rested
        }),
{
    assert(is_swept(before.pools()[key], after.pools()[key], current_frame, policy));
    law_sweep_keeps_as_much_as_allowed(before.pools()[key].slots(), current_frame, policy);
}

/// A texture that a sweep drops from a pool that stays is too old, or older than all that
/// the cap leaves: what stays is in its old order, at the positions `at`.
pub proof fn law_a_sweep_drops_the_old<Texture, View, Globals>(
    before: TexturePool<Texture, View, Globals>,
    after: TexturePool<Texture, View, Globals>,
    current_frame: u64,
    policy: TexturePoolSweepPolicy,
    report: TexturePoolSweepReport,
    census_before: Seq<CensusEvent>,
    census_after: Seq<CensusEvent>,
    key: TextureKey,
) -> (at: Seq<int>)
    requires
        swept(before, after, current_frame, policy, report, census_before, census_after),
        after.pools().contains_key(key),
    ensures
        at.len() == after.pools()[key].slots().len(),
        forall|k: int|
            0 <= k < at.len() ==> 0 <= #[trigger] at[k] < before.pools()[key].slots().len()
                && after.pools()[key].slots()[k] == before.pools()[key].slots()[at[k]],
        forall|k: int, l: int| 0 <= k < l < at.len() ==> #[trigger] at[k] < #[trigger] at[l],
        forall|p: int, k: int|
            0 <= p < before.pools()[key].slots().len() && !at.contains(p) && 0 <= k < at.len()
                ==> current_frame - (#[trigger] before.pools()[key].slots()[p]).2.0
                >= policy.idle_frames || before.pools()[key].slots()[p].2.0
                <= before.pools()[key].slots()[#[trigger] at[k]].2.0,
{
    assert(is_swept(before.pools()[key], after.pools()[key], current_frame, policy));
    law_sweep_keeps_the_youngest(before.pools()[key].slots(), current_frame, policy)
}

/// For each pool, the textures that rest in it.
pub open spec fn of_any_size<Texture, View>() -> spec_fn(
    TextureKey,
    KeyedPool<Texture, View>,
) -> nat {
    |key: TextureKey, pool: KeyedPool<Texture, View>| pool.slots().len()
}

/// How many textures rest in all pools.
pub open spec fn resting_count<Texture, View>(
    pools: Map<TextureKey, KeyedPool<Texture, View>>,
) -> nat {
    sum_over(pools, of_any_size())
}

/// A report tells what is gone. The entries and bytes that it reports are those that rest
/// no longer, its purged keys are the pools that stand no longer, and its swept keys are
/// the pools, gone or standing, that held more before.
pub proof fn law_a_report_tells_what_is_gone<Texture, View, Globals>(
    before: TexturePool<Texture, View, Globals>,
    after: TexturePool<Texture, View, Globals>,
    current_frame: u64,
    policy: TexturePoolSweepPolicy,
    report: TexturePoolSweepReport,
    census_before: Seq<CensusEvent>,
    census_after: Seq<CensusEvent>,
)
    requires
        before.wf(),
        swept(before, after, current_frame, policy, report, census_before, census_after),
    ensures
        report.dropped_entries == resting_count(before.pools()) - resting_count(after.pools()),
        report.freed_bytes == resting_bytes(before.pools()) - resting_bytes(after.pools()),
        report.purged_keys == before.pools().dom().len() - after.pools().dom().len(),
        report.keys_swept == before.pools().dom().filter(
            |key: TextureKey|
                if after.pools().contains_key(key) {
                    after.pools()[key].slots().len() < before.pools()[key].slots().len()
                } else {
                    before.pools()[key].slots().len() > 0
                },
        ).len(),
{
    let one = |key: TextureKey, pool: KeyedPool<Texture, View>| 1nat;
    assert forall|key: TextureKey| #[trigger] before.pools().contains_key(key) implies ({
        let rested = before.pools()[key].slots().len();
        let dropped = drop_count(before.pools()[key], current_frame, policy);
        rested == dropped + if after.pools().contains_key(key) {
            after.pools()[key].slots().len()
        } else {
            0
        }
    }) by {
        law_sweep_keeps_or_drops(before.pools()[key].slots(), current_frame, policy);
        if after.pools().contains_key(key) {
            assert(is_swept(before.pools()[key], after.pools()[key], current_frame, policy));
        }
    }
    lemma_sum_parts(
        before.pools(),
        after.pools(),
        of_any_size::<Texture, View>(),
        of_any_size::<Texture, View>(),
        drops::<Texture, View>(current_frame, policy),
    );
    lemma_sum_parts(
        before.pools(),
        after.pools(),
        one,
        one,
        purges::<Texture, View>(current_frame, policy),
    );
    assert(after.pools().dom().subset_of(before.pools().dom()));
    vstd::set_lib::lemma_len_subset(after.pools().dom(), before.pools().dom());
    lemma_sum_counts(before.pools(), one, |key: TextureKey| true);
    lemma_sum_counts(after.pools(), one, |key: TextureKey| true);
    assert(before.pools().dom().filter(|key: TextureKey| true) =~= before.pools().dom());
    assert(after.pools().dom().filter(|key: TextureKey| true) =~= after.pools().dom());
    lemma_sum_counts(
        before.pools(),
        thins::<Texture, View>(current_frame, policy),
        |key: TextureKey|
            if after.pools().contains_key(key) {
                after.pools()[key].slots().len() < before.pools()[key].slots().len()
            } else {
                before.pools()[key].slots().len() > 0
            },
    );
}

/// The bytes at rest are those of every texture at rest, each by its key.
pub proof fn law_bytes_rest_by_key<Texture, View>(
    pools: Map<TextureKey, KeyedPool<Texture, View>>,
    key: TextureKey,
    pool: KeyedPool<Texture, View>,
)
    requires
        pools.dom().finite(),
        !pools.contains_key(key),
    ensures
        resting_bytes(Map::<TextureKey, KeyedPool<Texture, View>>::empty()) == 0,
        resting_bytes(pools.insert(key, pool)) == resting_bytes(pools) + pool.slots().len()
            * key_bytes(key),
        resting(pools, key).len() == 0,
        resting(pools.insert(key, pool), key) == pool.slots(),
{
    lemma_key_bytes(key);
    lemma_sum_insert(pools, pool_bytes::<Texture, View>(), key, pool);
    assert(pools.remove(key) =~= pools);
    assert(pool.slots().len() * key_bytes(key) >= 0) by (nonlinear_arith)
        requires
            key_bytes(key) >= 0,
    ;
}

/// A sweep adds to the census behind what is there, and nothing but notices that textures
/// of the filter pool are gone.
pub proof fn law_a_sweep_only_counts_out<Texture, View, Globals>(
    before: TexturePool<Texture, View, Globals>,
    after: TexturePool<Texture, View, Globals>,
    current_frame: u64,
    policy: TexturePoolSweepPolicy,
    report: TexturePoolSweepReport,
    census_before: Seq<CensusEvent>,
    census_after: Seq<CensusEvent>,
    event: CensusEvent,
)
    requires
        swept(before, after, current_frame, policy, report, census_before, census_after),
        !(event matches CensusEvent::Dropped { source: TextureSource::FilterPool, .. }),
    ensures
        census_after.to_multiset().count(event) == census_before.to_multiset().count(event),
        census_before.len() <= census_after.len(),
        forall|i: int|
            0 <= i < census_before.len() ==> #[trigger] census_after[i] == census_before[i],
{
    lemma_sum_zero(before.pools(), sends::<Texture, View>(current_frame, policy, event));
}

/// A sweep whose report could hold everything at rest is always done.
pub proof fn law_a_sweep_that_can_be_counted_is_done<Texture, View, Globals>(
    pool: TexturePool<Texture, View, Globals>,
    current_frame: u64,
    policy: TexturePoolSweepPolicy,
)
    requires
        pool.wf(),
        resting_count(pool.pools()) <= usize::MAX,
        resting_bytes(pool.pools()) <= u64::MAX,
    ensures
        sweep_fits(pool.pools(), current_frame, policy),
{
    let pools = pool.pools();
    assert forall|key: TextureKey| #[trigger] pools.contains_key(key) implies drop_count(
        pools[key],
        current_frame,
        policy,
    ) <= pools[key].slots().len() && (drop_count(pools[key], current_frame, policy) * key_bytes(
        key,
    )) as nat <= (pools[key].slots().len() * key_bytes(key)) as nat by {
        law_sweep_keeps_or_drops(pools[key].slots(), current_frame, policy);
        lemma_key_bytes(key);
        let n = drop_count(pools[key], current_frame, policy);
        let all = pools[key].slots().len();
        assert(0 <= n * key_bytes(key) <= all * key_bytes(key)) by (nonlinear_arith)
            requires
                0 <= n <= all,
                key_bytes(key) >= 0,
        ;
    }
    lemma_sum_at_most(
        pools,
        drops::<Texture, View>(current_frame, policy),
        of_any_size::<Texture, View>(),
    );
    lemma_sum_at_most(
        pools,
        frees::<Texture, View>(current_frame, policy),
        pool_bytes::<Texture, View>(),
    );
}

/// A texture can be taken wherever its bytes can be counted, as long as it has a pool or
/// not every serial was given.
pub proof fn law_textures_that_can_be_counted_can_be_taken<Texture, View, Globals>(
    pool: TexturePool<Texture, View, Globals>,
    key: TextureKey,
)
    ensures
        key_fits(key) && pool.next_serial() < u64::MAX ==> pool.can_get(key),
        key_fits(key) && pool.pools().contains_key(key) ==> pool.can_get(key),
        pool.can_get(key) ==> key_fits(key) && (pool.pools().contains_key(key)
            || pool.next_serial() < u64::MAX),
{
}

/// Starting over leaves no pool and no globals, keeps the identity and the serials, and
/// adds to the census, behind what is there, nothing but notices that textures of the
/// filter pool are gone.
pub proof fn law_a_reset_leaves_nothing<Texture, View, Globals>(
    before: TexturePool<Texture, View, Globals>,
    after: TexturePool<Texture, View, Globals>,
    census_before: Seq<CensusEvent>,
    census_after: Seq<CensusEvent>,
    key: TextureKey,
    viewport: GlobalsKey,
    event: CensusEvent,
)
    requires
        was_reset(before, after, census_before, census_after),
    ensures
        !after.pools().contains_key(key),
        !after.globals().contains_key(viewport),
        after.id() == before.id(),
        after.next_serial() == before.next_serial(),
        census_before.len() <= census_after.len(),
        forall|i: int|
            0 <= i < census_before.len() ==> #[trigger] census_after[i] == census_before[i],
        !(event matches CensusEvent::Dropped { source: TextureSource::FilterPool, .. })
            ==> census_after.to_multiset().count(event) == census_before.to_multiset().count(
            event,
        ),
{
    if !(event matches CensusEvent::Dropped { source: TextureSource::FilterPool, .. }) {
        lemma_sum_zero(before.pools(), sends_all::<Texture, View>(event));
    }
}

/// The globals of a viewport that has none are new, and kept for it from then on.
pub proof fn law_missing_globals_are_made_and_kept<Texture, View, Globals>(
    before: TexturePool<Texture, View, Globals>,
    after: TexturePool<Texture, View, Globals>,
    key: GlobalsKey,
    globals: Arc<Globals>,
)
    requires
        got_globals(before, after, key, globals),
        !before.globals().contains_key(key),
    ensures
        after.globals().contains_key(key),
        after.globals()[key] == globals,
        after.pools() == before.pools(),
        after.id() == before.id(),
        after.next_serial() == before.next_serial(),
{
}

} // verus!
