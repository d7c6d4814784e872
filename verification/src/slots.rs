//! The resting places of a pool: what a sweep keeps and what it drops.

use vstd::prelude::*;

verus! {

/// The frame in which an item came back to its pool.
#[derive(Debug, Clone, Copy)]
pub struct FrameStamp(pub u64);

impl Default for FrameStamp {
    fn default() -> (stamp: Self)
        ensures
            stamp == FrameStamp(0),
    {
        FrameStamp(0)
    }
}

/// Tunables of one sweep.
#[derive(Debug, Clone, Copy)]
pub struct TexturePoolSweepPolicy {
    /// A pool holds at most this many items after a sweep. Where it holds more,
    /// the oldest go.
    pub max_per_pool: usize,
    /// An item that came back this many frames ago, or longer ago, is dropped.
    pub idle_frames: u64,
    /// A keyed pool from which nothing was taken for this many frames is
    /// removed with all that it holds.
    pub purge_frames: u64,
}

/// An item at rest, with the description it was made for and the frame in which
/// it came back.
pub type Slot<Type, Description> = (Type, Description, FrameStamp);

/// Frames that passed from `stamp` to `current_frame`; none where the stamp lies
/// ahead.
pub open spec fn frames_since(stamp: u64, current_frame: u64) -> int {
    if stamp <= current_frame {
        current_frame - stamp
    } else {
        0
    }
}

/// Whether a slot came back recently enough to stay.
pub open spec fn is_fresh<Type, Description>(
    slot: Slot<Type, Description>,
    current_frame: u64,
    idle_frames: u64,
) -> bool {
    frames_since(slot.2.0, current_frame) < idle_frames
}

/// The slots that are recent enough, in order.
pub open spec fn fresh_slots<Type, Description>(
    slots: Seq<Slot<Type, Description>>,
    current_frame: u64,
    idle_frames: u64,
) -> Seq<Slot<Type, Description>> {
    slots.filter(|slot: Slot<Type, Description>| is_fresh(slot, current_frame, idle_frames))
}

/// The slots that have been idle for too long, in order.
pub open spec fn idle_slots<Type, Description>(
    slots: Seq<Slot<Type, Description>>,
    current_frame: u64,
    idle_frames: u64,
) -> Seq<Slot<Type, Description>> {
    slots.filter(|slot: Slot<Type, Description>| !is_fresh(slot, current_frame, idle_frames))
}

/// Position `i` holds the oldest slot: no stamp is smaller, and no slot before
/// it has the same stamp.
pub open spec fn is_oldest<Type, Description>(
    slots: Seq<Slot<Type, Description>>,
    i: int,
) -> bool {
    &&& 0 <= i < slots.len()
    &&& forall|j: int| 0 <= j < slots.len() ==> slots[i].2.0 <= (#[trigger] slots[j]).2.0
    &&& forall|j: int| 0 <= j < i ==> slots[i].2.0 < (#[trigger] slots[j]).2.0
}

/// The position of the oldest slot.
pub open spec fn oldest<Type, Description>(slots: Seq<Slot<Type, Description>>) -> int {
    choose|i: int| is_oldest(slots, i)
}

/// What is left once the oldest slots have gone, one after the other, until no
/// more than `cap` remain.
pub open spec fn capped<Type, Description>(
    slots: Seq<Slot<Type, Description>>,
    cap: nat,
) -> Seq<Slot<Type, Description>>
    decreases slots.len(),
{
    if slots.len() <= cap {
        slots
    } else {
        proof {
            lemma_has_oldest(slots);
        }
        capped(slots.remove(oldest(slots)), cap)
    }
}

/// The slots that go so that no more than `cap` remain, oldest first.
pub open spec fn over_cap<Type, Description>(
    slots: Seq<Slot<Type, Description>>,
    cap: nat,
) -> Seq<Slot<Type, Description>>
    decreases slots.len(),
{
    if slots.len() <= cap {
        Seq::empty()
    } else {
        proof {
            lemma_has_oldest(slots);
        }
        seq![slots[oldest(slots)]] + over_cap(slots.remove(oldest(slots)), cap)
    }
}

/// What a sweep keeps of the slots of one pool.
pub open spec fn kept_slots<Type, Description>(
    slots: Seq<Slot<Type, Description>>,
    current_frame: u64,
    policy: TexturePoolSweepPolicy,
) -> Seq<Slot<Type, Description>> {
    capped(fresh_slots(slots, current_frame, policy.idle_frames), policy.max_per_pool as nat)
}

/// What a sweep drops of the slots of one pool: first those that were idle for
/// too long, then those over the cap.
pub open spec fn dropped_slots<Type, Description>(
    slots: Seq<Slot<Type, Description>>,
    current_frame: u64,
    policy: TexturePoolSweepPolicy,
) -> Seq<Slot<Type, Description>> {
    idle_slots(slots, current_frame, policy.idle_frames) + over_cap(
        fresh_slots(slots, current_frame, policy.idle_frames),
        policy.max_per_pool as nat,
    )
}

/// The items that lie in the slots.
pub open spec fn items<Type, Description>(slots: Seq<Slot<Type, Description>>) -> Seq<Type> {
    slots.map_values(|slot: Slot<Type, Description>| slot.0)
}

/// A pool that is not empty has an oldest slot.
pub proof fn lemma_has_oldest<Type, Description>(slots: Seq<Slot<Type, Description>>)
    requires
        slots.len() > 0,
    ensures
        is_oldest(slots, oldest(slots)),
    decreases slots.len(),
{
    let last = slots.len() - 1;
    if slots.len() == 1 {
        assert(is_oldest(slots, 0));
    } else {
        let front = slots.drop_last();
        lemma_has_oldest(front);
        let i = oldest(front);
        assert(front[i] == slots[i]);
        assert forall|j: int| 0 <= j < last implies slots[i].2.0 <= (#[trigger] slots[j]).2.0 by {
            assert(front[j] == slots[j]);
        }
        assert forall|j: int| 0 <= j < i implies slots[i].2.0 < (#[trigger] slots[j]).2.0 by {
            assert(front[j] == slots[j]);
        }
        if slots[last].2.0 < slots[i].2.0 {
            assert(is_oldest(slots, last));
        } else {
            assert(is_oldest(slots, i));
        }
    }
}

/// The oldest slot is at one position only.
pub proof fn lemma_oldest_is_unique<Type, Description>(
    slots: Seq<Slot<Type, Description>>,
    i: int,
)
    requires
        is_oldest(slots, i),
    ensures
        oldest(slots) == i,
{
    let k = oldest(slots);
    assert(is_oldest(slots, k));
    if k < i {
        assert(slots[k].2.0 <= slots[i].2.0);
    } else if i < k {
        assert(slots[i].2.0 <= slots[k].2.0);
    }
}

/// The cap is used up and never passed.
pub proof fn lemma_capped_len<Type, Description>(slots: Seq<Slot<Type, Description>>, cap: nat)
    ensures
        capped(slots, cap).len() == if slots.len() <= cap {
            slots.len()
        } else {
            cap
        },
        over_cap(slots, cap).len() == slots.len() - capped(slots, cap).len(),
    decreases slots.len(),
{
    if slots.len() > cap {
        lemma_has_oldest(slots);
        lemma_capped_len(slots.remove(oldest(slots)), cap);
    }
}

/// Capping neither loses nor invents a slot.
pub proof fn lemma_capped_multiset<Type, Description>(
    slots: Seq<Slot<Type, Description>>,
    cap: nat,
)
    ensures
        slots.to_multiset() == capped(slots, cap).to_multiset().add(
            over_cap(slots, cap).to_multiset(),
        ),
    decreases slots.len(),
{
    broadcast use vstd::seq_lib::group_to_multiset_ensures;
    broadcast use vstd::multiset::group_multiset_axioms;

    if slots.len() > cap {
        lemma_has_oldest(slots);
        let i = oldest(slots);
        let rest = slots.remove(i);
        lemma_capped_multiset(rest, cap);
        let tail = over_cap(rest, cap);
        let none = Seq::<Slot<Type, Description>>::empty();
        let one = none.push(slots[i]);
        let whole = slots.to_multiset();
        let kept = capped(rest, cap).to_multiset();
        assert(over_cap(slots, cap) =~= one + tail);
        vstd::seq_lib::lemma_multiset_commutative(one, tail);
        assert(one.to_multiset() =~= none.to_multiset().insert(slots[i]));
        assert(whole.count(slots[i]) > 0) by {
            assert(slots.contains(slots[i]));
        }
        assert(rest.to_multiset() =~= whole.remove(slots[i]));
        assert forall|slot: Slot<Type, Description>| #[trigger]
            whole.count(slot) == kept.count(slot) + over_cap(slots, cap).to_multiset().count(
            slot,
        ) by {
            assert(rest.to_multiset().count(slot) == kept.count(slot) + tail.to_multiset().count(
                slot,
            ));
            assert(none.to_multiset().count(slot) == 0);
        }
        assert(whole =~= kept.add(over_cap(slots, cap).to_multiset()));
    } else {
        assert(over_cap(slots, cap).to_multiset() =~= vstd::multiset::Multiset::<
            Slot<Type, Description>,
        >::empty());
        assert(slots.to_multiset() =~= slots.to_multiset().add(
            vstd::multiset::Multiset::empty(),
        ));
    }
}

/// A slot that stays under the cap was there before.
pub proof fn lemma_capped_members<Type, Description>(
    slots: Seq<Slot<Type, Description>>,
    cap: nat,
)
    ensures
        forall|slot: Slot<Type, Description>|
            capped(slots, cap).contains(slot) ==> #[trigger] slots.contains(slot),
        forall|slot: Slot<Type, Description>|
            over_cap(slots, cap).contains(slot) ==> #[trigger] slots.contains(slot),
    decreases slots.len(),
{
    if slots.len() > cap {
        lemma_has_oldest(slots);
        let i = oldest(slots);
        let rest = slots.remove(i);
        lemma_capped_members(rest, cap);
        assert forall|slot: Slot<Type, Description>| #[trigger]
            rest.contains(slot) implies slots.contains(slot) by {
            let k = choose|k: int| 0 <= k < rest.len() && rest[k] == slot;
            if k < i {
                assert(slots[k] == slot);
            } else {
                assert(slots[k + 1] == slot);
            }
        }
        assert forall|slot: Slot<Type, Description>|
            capped(slots, cap).contains(slot) implies #[trigger] slots.contains(slot) by {
            assert(rest.contains(slot));
        }
        assert forall|slot: Slot<Type, Description>|
            over_cap(slots, cap).contains(slot) implies #[trigger] slots.contains(slot) by {
            let k = choose|k: int|
                0 <= k < over_cap(slots, cap).len() && over_cap(slots, cap)[k] == slot;
            if k > 0 {
                assert(over_cap(rest, cap)[k - 1] == slot);
                assert(rest.contains(slot));
            } else {
                assert(slots[i] == slot);
            }
        }
    }
}

/// What goes over the cap is at least as old as all that stays.
pub proof fn law_cap_drops_the_oldest<Type, Description>(
    slots: Seq<Slot<Type, Description>>,
    cap: nat,
    gone: int,
    stays: int,
)
    requires
        0 <= gone < over_cap(slots, cap).len(),
        0 <= stays < capped(slots, cap).len(),
    ensures
        over_cap(slots, cap)[gone].2.0 <= capped(slots, cap)[stays].2.0,
    decreases slots.len(),
{
    if slots.len() > cap {
        lemma_has_oldest(slots);
        let i = oldest(slots);
        let rest = slots.remove(i);
        if gone == 0 {
            lemma_capped_members(rest, cap);
            let slot = capped(slots, cap)[stays];
            assert(capped(rest, cap).contains(slot));
            assert(rest.contains(slot));
            let k = choose|k: int| 0 <= k < rest.len() && rest[k] == slot;
            if k < i {
                assert(slots[k] == slot);
            } else {
                assert(slots[k + 1] == slot);
            }
        } else {
            law_cap_drops_the_oldest(rest, cap, gone - 1, stays);
        }
    }
}

/// The slots fall into fresh ones and idle ones.
pub proof fn lemma_fresh_and_idle<Type, Description>(
    slots: Seq<Slot<Type, Description>>,
    current_frame: u64,
    idle_frames: u64,
)
    ensures
        fresh_slots(slots, current_frame, idle_frames).len() + idle_slots(
            slots,
            current_frame,
            idle_frames,
        ).len() == slots.len(),
        slots.to_multiset() == fresh_slots(slots, current_frame, idle_frames).to_multiset().add(
            idle_slots(slots, current_frame, idle_frames).to_multiset(),
        ),
        forall|i: int|
            0 <= i < fresh_slots(slots, current_frame, idle_frames).len() ==> is_fresh(
                #[trigger] fresh_slots(slots, current_frame, idle_frames)[i],
                current_frame,
                idle_frames,
            ),
    decreases slots.len(),
{
    broadcast use vstd::seq_lib::group_to_multiset_ensures;
    broadcast use vstd::multiset::group_multiset_axioms;

    reveal(Seq::filter);
    let fresh = fresh_slots(slots, current_frame, idle_frames);
    let idle = idle_slots(slots, current_frame, idle_frames);
    if slots.len() > 0 {
        let front = slots.drop_last();
        lemma_fresh_and_idle(front, current_frame, idle_frames);
        let whole = slots.to_multiset();
        assert(slots =~= front.push(slots.last()));
        assert(whole =~= front.to_multiset().insert(slots.last()));
        assert forall|slot: Slot<Type, Description>| #[trigger]
            whole.count(slot) == fresh.to_multiset().count(slot) + idle.to_multiset().count(
            slot,
        ) by {
            assert(front.to_multiset().count(slot) == fresh_slots(
                front,
                current_frame,
                idle_frames,
            ).to_multiset().count(slot) + idle_slots(
                front,
                current_frame,
                idle_frames,
            ).to_multiset().count(slot));
        }
        assert(whole =~= fresh.to_multiset().add(idle.to_multiset()));
    } else {
        assert(slots.to_multiset() =~= fresh.to_multiset().add(idle.to_multiset()));
    }
}

/// Where every slot is fresh, none is idle and the order stays.
pub proof fn lemma_all_fresh<Type, Description>(
    slots: Seq<Slot<Type, Description>>,
    current_frame: u64,
    idle_frames: u64,
)
    requires
        forall|i: int|
            0 <= i < slots.len() ==> is_fresh(#[trigger] slots[i], current_frame, idle_frames),
    ensures
        fresh_slots(slots, current_frame, idle_frames) == slots,
        idle_slots(slots, current_frame, idle_frames) == Seq::<Slot<Type, Description>>::empty(),
    decreases slots.len(),
{
    reveal(Seq::filter);
    if slots.len() > 0 {
        lemma_all_fresh(slots.drop_last(), current_frame, idle_frames);
        assert(slots =~= slots.drop_last().push(slots.last()));
    }
}

/// After a sweep a pool holds no more than the cap allows, and nothing that was
/// idle for too long.
pub proof fn law_kept_slots_are_fresh_and_few<Type, Description>(
    slots: Seq<Slot<Type, Description>>,
    current_frame: u64,
    policy: TexturePoolSweepPolicy,
)
    ensures
        kept_slots(slots, current_frame, policy).len() <= policy.max_per_pool,
        forall|i: int|
            0 <= i < kept_slots(slots, current_frame, policy).len() ==> is_fresh(
                #[trigger] kept_slots(slots, current_frame, policy)[i],
                current_frame,
                policy.idle_frames,
            ),
{
    let fresh = fresh_slots(slots, current_frame, policy.idle_frames);
    let kept = kept_slots(slots, current_frame, policy);
    lemma_fresh_and_idle(slots, current_frame, policy.idle_frames);
    lemma_capped_len(fresh, policy.max_per_pool as nat);
    lemma_capped_members(fresh, policy.max_per_pool as nat);
    assert forall|i: int| 0 <= i < kept.len() implies is_fresh(
        #[trigger] kept[i],
        current_frame,
        policy.idle_frames,
    ) by {
        assert(kept.contains(kept[i]));
        assert(fresh.contains(kept[i]));
    }
}

/// A sweep splits what a pool holds: each slot is either kept or dropped, and
/// none is both.
pub proof fn law_sweep_keeps_or_drops<Type, Description>(
    slots: Seq<Slot<Type, Description>>,
    current_frame: u64,
    policy: TexturePoolSweepPolicy,
)
    ensures
        slots.to_multiset() == kept_slots(slots, current_frame, policy).to_multiset().add(
            dropped_slots(slots, current_frame, policy).to_multiset(),
        ),
        kept_slots(slots, current_frame, policy).len() + dropped_slots(
            slots,
            current_frame,
            policy,
        ).len() == slots.len(),
{
    broadcast use vstd::multiset::group_multiset_axioms;

    let cap = policy.max_per_pool as nat;
    let fresh = fresh_slots(slots, current_frame, policy.idle_frames);
    let idle = idle_slots(slots, current_frame, policy.idle_frames);
    lemma_fresh_and_idle(slots, current_frame, policy.idle_frames);
    lemma_capped_len(fresh, cap);
    lemma_capped_multiset(fresh, cap);
    vstd::seq_lib::lemma_multiset_commutative(idle, over_cap(fresh, cap));
    assert(slots.to_multiset() =~= kept_slots(slots, current_frame, policy).to_multiset().add(
        dropped_slots(slots, current_frame, policy).to_multiset(),
    ));
}

/// A second sweep in the same frame finds nothing to drop.
pub proof fn law_sweep_settles<Type, Description>(
    slots: Seq<Slot<Type, Description>>,
    current_frame: u64,
    policy: TexturePoolSweepPolicy,
)
    ensures
        kept_slots(kept_slots(slots, current_frame, policy), current_frame, policy) == kept_slots(
            slots,
            current_frame,
            policy,
        ),
        dropped_slots(kept_slots(slots, current_frame, policy), current_frame, policy) == Seq::<
            Slot<Type, Description>,
        >::empty(),
{
    law_kept_slots_are_fresh_and_few(slots, current_frame, policy);
    lemma_all_fresh(
        kept_slots(slots, current_frame, policy),
        current_frame,
        policy.idle_frames,
    );
}

/// What a sweep keeps and what it drops was there before.
pub proof fn lemma_sweep_members<Type, Description>(
    slots: Seq<Slot<Type, Description>>,
    current_frame: u64,
    policy: TexturePoolSweepPolicy,
)
    ensures
        forall|slot: Slot<Type, Description>| #[trigger]
            kept_slots(slots, current_frame, policy).contains(slot) ==> slots.contains(slot),
        forall|slot: Slot<Type, Description>| #[trigger]
            dropped_slots(slots, current_frame, policy).contains(slot) ==> slots.contains(slot),
{
    broadcast use vstd::seq_lib::group_to_multiset_ensures;
    broadcast use vstd::multiset::group_multiset_axioms;

    law_sweep_keeps_or_drops(slots, current_frame, policy);
    let kept = kept_slots(slots, current_frame, policy);
    let dropped = dropped_slots(slots, current_frame, policy);
    assert forall|slot: Slot<Type, Description>| #[trigger]
        kept.contains(slot) implies slots.contains(slot) by {
        assert(kept.to_multiset().count(slot) > 0);
        assert(slots.to_multiset().count(slot) > 0);
    }
    assert forall|slot: Slot<Type, Description>| #[trigger]
        dropped.contains(slot) implies slots.contains(slot) by {
        assert(dropped.to_multiset().count(slot) > 0);
        assert(slots.to_multiset().count(slot) > 0);
    }
}

/// The positions of the fresh slots.
proof fn lemma_fresh_positions<Type, Description>(
    slots: Seq<Slot<Type, Description>>,
    current_frame: u64,
    idle_frames: u64,
) -> (at: Seq<int>)
    ensures
        at.len() == fresh_slots(slots, current_frame, idle_frames).len(),
        forall|k: int|
            0 <= k < at.len() ==> 0 <= #[trigger] at[k] < slots.len() && slots[at[k]]
                == fresh_slots(slots, current_frame, idle_frames)[k] && is_fresh(
                slots[at[k]],
                current_frame,
                idle_frames,
            ),
        forall|k: int, l: int| 0 <= k < l < at.len() ==> #[trigger] at[k] < #[trigger] at[l],
        forall|p: int|
            0 <= p < slots.len() && !at.contains(p) ==> !is_fresh(
                #[trigger] slots[p],
                current_frame,
                idle_frames,
            ),
    decreases slots.len(),
{
    reveal(Seq::filter);
    if slots.len() == 0 {
        Seq::empty()
    } else {
        let front = slots.drop_last();
        let last = slots.len() - 1;
        let before = lemma_fresh_positions(front, current_frame, idle_frames);
        let fresh = is_fresh(slots.last(), current_frame, idle_frames);
        let at = if fresh {
            before.push(last)
        } else {
            before
        };
        assert forall|k: int| 0 <= k < at.len() implies 0 <= #[trigger] at[k] < slots.len()
            && slots[at[k]] == fresh_slots(slots, current_frame, idle_frames)[k] && is_fresh(
            slots[at[k]],
            current_frame,
            idle_frames,
        ) by {
            if k < before.len() {
                assert(before[k] == at[k]);
                assert(front[before[k]] == slots[before[k]]);
            }
        }
        assert forall|p: int| 0 <= p < slots.len() && !at.contains(p) implies !is_fresh(
            #[trigger] slots[p],
            current_frame,
            idle_frames,
        ) by {
            if p < last {
                if before.contains(p) {
                    let k = choose|k: int| 0 <= k < before.len() && before[k] == p;
                    assert(at[k] == p);
                }
                assert(front[p] == slots[p]);
            } else if fresh {
                assert(at[before.len() as int] == p);
            }
        }
        at
    }
}

/// The positions of the slots that stay under the cap.
proof fn lemma_capped_positions<Type, Description>(
    slots: Seq<Slot<Type, Description>>,
    cap: nat,
) -> (at: Seq<int>)
    ensures
        at.len() == capped(slots, cap).len(),
        forall|k: int|
            0 <= k < at.len() ==> 0 <= #[trigger] at[k] < slots.len() && slots[at[k]] == capped(
                slots,
                cap,
            )[k],
        forall|k: int, l: int| 0 <= k < l < at.len() ==> #[trigger] at[k] < #[trigger] at[l],
        forall|p: int, k: int|
            0 <= p < slots.len() && !at.contains(p) && 0 <= k < at.len() ==> (
            #[trigger] slots[p]).2.0 < slots[#[trigger] at[k]].2.0 || (slots[p].2.0
                == slots[at[k]].2.0 && p < at[k]),
        forall|p: int|
            #![trigger slots[p]]
            0 <= p < slots.len() && !at.contains(p) ==> at.len() == cap,
    decreases slots.len(),
{
    lemma_capped_len(slots, cap);
    if slots.len() <= cap {
        let at = Seq::new(slots.len(), |k: int| k);
        assert forall|p: int| 0 <= p < slots.len() implies at.contains(p) by {
            assert(at[p] == p);
        }
        at
    } else {
        lemma_has_oldest(slots);
        let i = oldest(slots);
        let rest = slots.remove(i);
        let before = lemma_capped_positions(rest, cap);
        let at = Seq::new(
            before.len(),
            |k: int|
                if before[k] < i {
                    before[k]
                } else {
                    before[k] + 1
                },
        );
        assert forall|k: int| 0 <= k < at.len() implies 0 <= #[trigger] at[k] < slots.len()
            && slots[at[k]] == capped(slots, cap)[k] by {
            assert(rest[before[k]] == slots[at[k]]);
        }
        assert forall|k: int, l: int| 0 <= k < l < at.len() implies #[trigger] at[k]
            < #[trigger] at[l] by {
            assert(before[k] < before[l]);
        }
        assert forall|p: int, k: int|
            0 <= p < slots.len() && !at.contains(p) && 0 <= k < at.len() implies (
        #[trigger] slots[p]).2.0 < slots[#[trigger] at[k]].2.0 || (slots[p].2.0
            == slots[at[k]].2.0 && p < at[k]) by {
            assert(0 <= before[k] < rest.len());
            if p == i {
                assert(at[k] != i);
                assert(slots[i].2.0 <= slots[at[k]].2.0);
            } else {
                let q = if p < i {
                    p
                } else {
                    p - 1
                };
                if before.contains(q) {
                    let m = choose|m: int| 0 <= m < before.len() && before[m] == q;
                    assert(at[m] == p);
                }
                assert(rest[q] == slots[p]);
                assert(rest[before[k]] == slots[at[k]]);
            }
        }
        at
    }
}

/// What a sweep keeps, told by age alone. Of the slots that came back fewer than
/// `idle_frames` frames ago it keeps the youngest, as many as the cap allows, and in
/// their order; `at` are their positions. A slot is not kept only where it is too old,
/// or where the cap is used up by slots that came back after it, in the same frame
/// perhaps but behind it.
pub proof fn law_sweep_keeps_the_youngest<Type, Description>(
    slots: Seq<Slot<Type, Description>>,
    current_frame: u64,
    policy: TexturePoolSweepPolicy,
) -> (at: Seq<int>)
    ensures
        at.len() == kept_slots(slots, current_frame, policy).len(),
        forall|k: int|
            0 <= k < at.len() ==> 0 <= #[trigger] at[k] < slots.len() && kept_slots(
                slots,
                current_frame,
                policy,
            )[k] == slots[at[k]],
        forall|k: int, l: int| 0 <= k < l < at.len() ==> #[trigger] at[k] < #[trigger] at[l],
        at.len() <= policy.max_per_pool,
        forall|k: int|
            0 <= k < at.len() ==> current_frame - slots[#[trigger] at[k]].2.0 < policy.idle_frames
                && policy.idle_frames > 0,
        forall|p: int|
            #![trigger slots[p]]
            0 <= p < slots.len() && !at.contains(p) ==> current_frame - slots[p].2.0
                >= policy.idle_frames || policy.idle_frames == 0 || at.len()
                == policy.max_per_pool,
        forall|p: int, k: int|
            0 <= p < slots.len() && !at.contains(p) && 0 <= k < at.len() ==> current_frame - (
            #[trigger] slots[p]).2.0 >= policy.idle_frames || slots[p].2.0
                < slots[#[trigger] at[k]].2.0 || (slots[p].2.0 == slots[at[k]].2.0 && p < at[k]),
{
    let cap = policy.max_per_pool as nat;
    let fresh = fresh_slots(slots, current_frame, policy.idle_frames);
    let kept = kept_slots(slots, current_frame, policy);
    let of_fresh = lemma_fresh_positions(slots, current_frame, policy.idle_frames);
    let of_kept = lemma_capped_positions(fresh, cap);
    lemma_capped_len(fresh, cap);
    let at = Seq::new(of_kept.len(), |k: int| of_fresh[of_kept[k]]);
    assert forall|k: int| 0 <= k < at.len() implies 0 <= #[trigger] at[k] < slots.len() && kept[k]
        == slots[at[k]] && current_frame - slots[at[k]].2.0 < policy.idle_frames
        && policy.idle_frames > 0 by {
        assert(0 <= of_kept[k] < fresh.len());
        assert(is_fresh(slots[of_fresh[of_kept[k]]], current_frame, policy.idle_frames));
    }
    assert forall|k: int, l: int| 0 <= k < l < at.len() implies #[trigger] at[k]
        < #[trigger] at[l] by {
        assert(of_kept[k] < of_kept[l]);
        assert(of_fresh[of_kept[k]] < of_fresh[of_kept[l]]);
    }
    assert forall|p: int|
        #![trigger slots[p]]
        0 <= p < slots.len() && !at.contains(p) implies (current_frame - slots[p].2.0
        >= policy.idle_frames || policy.idle_frames == 0 || at.len() == cap) && forall|k: int|
        0 <= k < at.len() ==> current_frame - slots[p].2.0 >= policy.idle_frames || slots[p].2.0
            < slots[#[trigger] at[k]].2.0 || (slots[p].2.0 == slots[at[k]].2.0 && p < at[k]) by {
        if of_fresh.contains(p) {
            let q = choose|q: int| 0 <= q < of_fresh.len() && of_fresh[q] == p;
            assert(fresh[q] == slots[p]);
            if of_kept.contains(q) {
                let m = choose|m: int| 0 <= m < of_kept.len() && of_kept[m] == q;
                assert(at[m] == p);
            }
            assert forall|k: int| 0 <= k < at.len() implies slots[p].2.0
                < slots[#[trigger] at[k]].2.0 || (slots[p].2.0 == slots[at[k]].2.0 && p
                < at[k]) by {
                assert(0 <= of_kept[k] < fresh.len());
                assert(fresh[q].2.0 <= fresh[of_kept[k]].2.0);
                assert(fresh[of_kept[k]] == slots[of_fresh[of_kept[k]]]);
                if q < of_kept[k] {
                    assert(of_fresh[q] < of_fresh[of_kept[k]]);
                }
            }
        } else {
            assert(!is_fresh(slots[p], current_frame, policy.idle_frames));
            if slots[p].2.0 > current_frame {
                assert(policy.idle_frames == 0);
                assert(at.len() == 0) by {
                    if at.len() > 0 {
                        assert(0 <= at[0] < slots.len());
                    }
                }
            }
        }
    }
    at
}

/// A sweep keeps as much as the policy allows: as many slots as came back fewer than
/// `idle_frames` frames ago, and the cap where there are more. A pool that is within
/// the cap and has no slot of that age is left as it is.
pub proof fn law_sweep_keeps_as_much_as_allowed<Type, Description>(
    slots: Seq<Slot<Type, Description>>,
    current_frame: u64,
    policy: TexturePoolSweepPolicy,
)
    ensures
        ({
            let young = slots.filter(
                |slot: Slot<Type, Description>|
                    policy.idle_frames > 0 && current_frame - slot.2.0 < policy.idle_frames,
            ).len();
            kept_slots(slots, current_frame, policy).len() == if young < policy.max_per_pool {
                young
            } else {
                policy.max_per_pool as nat
            }
        }),
        dropped_slots(slots, current_frame, policy).len() == slots.len() - kept_slots(
            slots,
            current_frame,
            policy,
        ).len(),
        slots.len() <= policy.max_per_pool && policy.idle_frames > 0 && (forall|i: int|
            0 <= i < slots.len() ==> current_frame - (#[trigger] slots[i]).2.0
                < policy.idle_frames) ==> kept_slots(slots, current_frame, policy) == slots
            && dropped_slots(slots, current_frame, policy).len() == 0,
{
    let young = |slot: Slot<Type, Description>|
        policy.idle_frames > 0 && current_frame - slot.2.0 < policy.idle_frames;
    let fresh = |slot: Slot<Type, Description>|
        is_fresh(slot, current_frame, policy.idle_frames);
    assert(young =~= fresh);
    lemma_capped_len(
        fresh_slots(slots, current_frame, policy.idle_frames),
        policy.max_per_pool as nat,
    );
    law_sweep_keeps_or_drops(slots, current_frame, policy);
    if policy.idle_frames > 0 && forall|i: int|
        0 <= i < slots.len() ==> current_frame - (#[trigger] slots[i]).2.0 < policy.idle_frames {
        lemma_all_fresh(slots, current_frame, policy.idle_frames);
    }
}

/// The items that a sweep hands out are those of the slots that it drops, one for
/// one.
pub proof fn law_items_are_those_of_the_slots<Type, Description>(
    slots: Seq<Slot<Type, Description>>,
)
    ensures
        items(slots).len() == slots.len(),
        forall|i: int| 0 <= i < slots.len() ==> #[trigger] items(slots)[i] == slots[i].0,
{
}

} // verus!
