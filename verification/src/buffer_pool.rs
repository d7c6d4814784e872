//! A pool of buffers that are taken, used and put back.

use vstd::prelude::*;

use crate::slots::{
    capped, dropped_slots, fresh_slots, idle_slots, is_fresh, is_oldest, items, kept_slots,
    law_sweep_keeps_as_much_as_allowed, law_sweep_keeps_or_drops, law_sweep_keeps_the_youngest,
    lemma_capped_len, lemma_fresh_and_idle, lemma_oldest_is_unique, over_cap, FrameStamp, Slot,
    TexturePoolSweepPolicy,
};

verus! {

/// What it costs to use one buffer in place of another: an arbitrary unit, of
/// which less is better.
pub trait ReuseCost: Sized {
    /// Whether this cost is higher than the other.
    spec fn is_above(&self, other: &Self) -> bool;

    /// Costs are in order: none is above itself, what is above another is above all
    /// that the other is above, and what is not above another is above nothing that
    /// the other is not above.
    proof fn lemma_order(a: Self, b: Self, c: Self)
        ensures
            !a.is_above(&a),
            a.is_above(&b) && b.is_above(&c) ==> a.is_above(&c),
            !a.is_above(&b) && !b.is_above(&c) ==> !a.is_above(&c),
    ;

    /// Whether this cost is higher than the other.
    fn exceeds(&self, other: &Self) -> (higher: bool)
        ensures
            higher == self.is_above(other),
    ;
}

/// A cost that is the same for every buffer.
impl ReuseCost for () {
    open spec fn is_above(&self, other: &Self) -> bool {
        false
    }

    proof fn lemma_order(a: Self, b: Self, c: Self) {
    }

    fn exceeds(&self, _other: &Self) -> (higher: bool) {
        false
    }
}

impl ReuseCost for u8 {
    open spec fn is_above(&self, other: &Self) -> bool {
        *self > *other
    }

    proof fn lemma_order(a: Self, b: Self, c: Self) {
    }

    fn exceeds(&self, other: &Self) -> (higher: bool) {
        *self > *other
    }
}

impl ReuseCost for u16 {
    open spec fn is_above(&self, other: &Self) -> bool {
        *self > *other
    }

    proof fn lemma_order(a: Self, b: Self, c: Self) {
    }

    fn exceeds(&self, other: &Self) -> (higher: bool) {
        *self > *other
    }
}

impl ReuseCost for u32 {
    open spec fn is_above(&self, other: &Self) -> bool {
        *self > *other
    }

    proof fn lemma_order(a: Self, b: Self, c: Self) {
    }

    fn exceeds(&self, other: &Self) -> (higher: bool) {
        *self > *other
    }
}

impl ReuseCost for u64 {
    open spec fn is_above(&self, other: &Self) -> bool {
        *self > *other
    }

    proof fn lemma_order(a: Self, b: Self, c: Self) {
    }

    fn exceeds(&self, other: &Self) -> (higher: bool) {
        *self > *other
    }
}

impl ReuseCost for u128 {
    open spec fn is_above(&self, other: &Self) -> bool {
        *self > *other
    }

    proof fn lemma_order(a: Self, b: Self, c: Self) {
    }

    fn exceeds(&self, other: &Self) -> (higher: bool) {
        *self > *other
    }
}

impl ReuseCost for usize {
    open spec fn is_above(&self, other: &Self) -> bool {
        *self > *other
    }

    proof fn lemma_order(a: Self, b: Self, c: Self) {
    }

    fn exceeds(&self, other: &Self) -> (higher: bool) {
        *self > *other
    }
}

impl ReuseCost for i8 {
    open spec fn is_above(&self, other: &Self) -> bool {
        *self > *other
    }

    proof fn lemma_order(a: Self, b: Self, c: Self) {
    }

    fn exceeds(&self, other: &Self) -> (higher: bool) {
        *self > *other
    }
}

impl ReuseCost for i16 {
    open spec fn is_above(&self, other: &Self) -> bool {
        *self > *other
    }

    proof fn lemma_order(a: Self, b: Self, c: Self) {
    }

    fn exceeds(&self, other: &Self) -> (higher: bool) {
        *self > *other
    }
}

impl ReuseCost for i32 {
    open spec fn is_above(&self, other: &Self) -> bool {
        *self > *other
    }

    proof fn lemma_order(a: Self, b: Self, c: Self) {
    }

    fn exceeds(&self, other: &Self) -> (higher: bool) {
        *self > *other
    }
}

impl ReuseCost for i64 {
    open spec fn is_above(&self, other: &Self) -> bool {
        *self > *other
    }

    proof fn lemma_order(a: Self, b: Self, c: Self) {
    }

    fn exceeds(&self, other: &Self) -> (higher: bool) {
        *self > *other
    }
}

impl ReuseCost for i128 {
    open spec fn is_above(&self, other: &Self) -> bool {
        *self > *other
    }

    proof fn lemma_order(a: Self, b: Self, c: Self) {
    }

    fn exceeds(&self, other: &Self) -> (higher: bool) {
        *self > *other
    }
}

impl ReuseCost for isize {
    open spec fn is_above(&self, other: &Self) -> bool {
        *self > *other
    }

    proof fn lemma_order(a: Self, b: Self, c: Self) {
    }

    fn exceeds(&self, other: &Self) -> (higher: bool) {
        *self > *other
    }
}

/// A cost of which the first part counts, and the second among equals.
impl<First: ReuseCost, Second: ReuseCost> ReuseCost for (First, Second) {
    open spec fn is_above(&self, other: &Self) -> bool {
        self.0.is_above(&other.0) || (!other.0.is_above(&self.0) && self.1.is_above(&other.1))
    }

    proof fn lemma_order(a: Self, b: Self, c: Self) {
        First::lemma_order(a.0, b.0, c.0);
        First::lemma_order(c.0, b.0, a.0);
        First::lemma_order(b.0, a.0, c.0);
        First::lemma_order(a.0, c.0, b.0);
        First::lemma_order(b.0, c.0, a.0);
        First::lemma_order(c.0, a.0, b.0);
        Second::lemma_order(a.1, b.1, c.1);
    }

    fn exceeds(&self, other: &Self) -> (higher: bool) {
        self.0.exceeds(&other.0) || (!other.0.exceeds(&self.0) && self.1.exceeds(&other.1))
    }
}

/// What a buffer was made for.
pub trait BufferDescription: Sized {
    type Cost: ReuseCost;

    /// The cost of using a buffer that was made for `other` where one for `self`
    /// is wanted, and `None` where it cannot be used.
    spec fn cost(&self, other: &Self) -> Option<Self::Cost>;

    /// If a buffer made for `other` can stand for one made for `self`, the cost
    /// of using it instead of making a new one.
    fn cost_to_use(&self, other: &Self) -> (cost: Option<Self::Cost>)
        ensures
            cost == self.cost(other),
    ;
}

/// The description of buffers that are all alike.
#[derive(Debug, Clone, Copy)]
pub struct AlwaysCompatible;

impl BufferDescription for AlwaysCompatible {
    type Cost = ();

    open spec fn cost(&self, other: &Self) -> Option<()> {
        Some(())
    }

    fn cost_to_use(&self, _other: &Self) -> (cost: Option<()>) {
        Some(())
    }
}

/// Whether the slot at position `i` can serve the description.
pub open spec fn is_usable<Type, Description: BufferDescription>(
    slots: Seq<Slot<Type, Description>>,
    description: Description,
    i: int,
) -> bool {
    0 <= i < slots.len() && description.cost(&slots[i].1) is Some
}

/// Whether it costs more to serve the description from the slot at position `i` than
/// from that at position `j`.
pub open spec fn costs_more<Type, Description: BufferDescription>(
    slots: Seq<Slot<Type, Description>>,
    description: Description,
    i: int,
    j: int,
) -> bool {
    description.cost(&slots[i].1)->Some_0.is_above(&description.cost(&slots[j].1)->Some_0)
}

/// Position `i` holds the slot that serves the description best: none is
/// cheaper, and none before it is as cheap.
pub open spec fn is_cheapest<Type, Description: BufferDescription>(
    slots: Seq<Slot<Type, Description>>,
    description: Description,
    i: int,
) -> bool {
    &&& is_usable(slots, description, i)
    &&& forall|j: int| #[trigger]
        is_usable(slots, description, j) ==> !costs_more(slots, description, i, j)
    &&& forall|j: int|
        j < i && #[trigger] is_usable(slots, description, j) ==> costs_more(
            slots,
            description,
            j,
            i,
        )
}

/// Whether no slot can serve the description.
pub open spec fn none_usable<Type, Description: BufferDescription>(
    slots: Seq<Slot<Type, Description>>,
    description: Description,
) -> bool {
    forall|j: int| !#[trigger] is_usable(slots, description, j)
}

/// The slots without the one at position `i`; the last slot takes its place.
pub open spec fn without<Type, Description>(
    slots: Seq<Slot<Type, Description>>,
    i: int,
) -> Seq<Slot<Type, Description>> {
    slots.update(i, slots.last()).drop_last()
}

/// An item that was taken from a pool. `Home` names the pool that it goes back
/// to.
pub struct PoolEntry<Type, Description, Home> {
    item: Type,
    description: Description,
    pool: Home,
}

impl<Type, Description, Home> PoolEntry<Type, Description, Home> {
    pub closed spec fn item(&self) -> Type {
        self.item
    }

    /// What the item was made for, which may differ from what was asked for.
    pub closed spec fn description(&self) -> Description {
        self.description
    }

    pub closed spec fn pool(&self) -> Home {
        self.pool
    }

    /// The name of the pool that the item goes back to.
    pub fn home(&self) -> (home: Home) where Home: Copy
        ensures
            home == self.pool(),
    {
        self.pool
    }

    /// Gives the entry up for the item, which then has no pool to go back to.
    pub fn into_item(self) -> (item: Type)
        ensures
            item == self.item(),
    {
        self.item
    }
}

impl<Type, Description, Home> std::ops::Deref for PoolEntry<Type, Description, Home> {
    type Target = Type;

    /// The item, for as long as the entry is held.
    fn deref(&self) -> (item: &Type)
        ensures
            *item == self.item(),
    {
        &self.item
    }
}

/// The entry is the slot of `before` that serves the description best, and
/// `after` is what that leaves.
pub open spec fn served_from<Type, Description: BufferDescription, Home>(
    before: Seq<Slot<Type, Description>>,
    description: Description,
    entry: PoolEntry<Type, Description, Home>,
    after: Seq<Slot<Type, Description>>,
) -> bool {
    exists|i: int|
        {
            &&& #[trigger] is_cheapest(before, description, i)
            &&& entry.item() == before[i].0
            &&& entry.description() == before[i].1
            &&& after == without(before, i)
        }
}

/// A pool: items at rest, a constructor for new ones, and the name by which its
/// entries find their way back.
pub struct BufferPool<Type, Description, Constructor, Home> {
    available: Vec<Slot<Type, Description>>,
    constructor: Constructor,
    home: Home,
    last_taken_frame: u64,
}

impl<Type, Description, Constructor, Home> BufferPool<Type, Description, Constructor, Home> {
    /// The items at rest.
    pub closed spec fn slots(&self) -> Seq<Slot<Type, Description>> {
        self.available@
    }

    pub closed spec fn constructor(&self) -> Constructor {
        self.constructor
    }

    pub closed spec fn home(&self) -> Home {
        self.home
    }

    /// The frame of the most recent `take`.
    pub closed spec fn last_taken_frame(&self) -> u64 {
        self.last_taken_frame
    }

    /// A pool in which nothing rests yet.
    pub fn new(constructor: Constructor, home: Home) -> (pool: Self)
        ensures
            pool.slots() == Seq::<Slot<Type, Description>>::empty(),
            pool.constructor() == constructor,
            pool.home() == home,
            pool.last_taken_frame() == 0,
    {
        BufferPool { available: Vec::new(), constructor, home, last_taken_frame: 0 }
    }

    /// The frame of the most recent `take`.
    pub fn last_taken(&self) -> (frame: u64)
        ensures
            frame == self.last_taken_frame(),
    {
        self.last_taken_frame
    }

    /// Sends a new item out as one of this pool.
    pub fn adopt(&self, item: Type, description: Description) -> (entry: PoolEntry<
        Type,
        Description,
        Home,
    >) where Home: Copy
        ensures
            entry.item() == item,
            entry.description() == description,
            entry.pool() == self.home(),
    {
        PoolEntry { item, description, pool: self.home }
    }

    /// Gives the pool up for the items that rest in it.
    pub fn into_items(self) -> (freed: Vec<Type>)
        ensures
            freed@ == items(self.slots()),
    {
        let ghost slots = self.slots();
        let mut available = self.available;
        let mut freed: Vec<Type> = Vec::new();
        let ghost mut seen: int = 0;
        while available.len() > 0
            invariant
                0 <= seen <= slots.len(),
                available@ == slots.skip(seen),
                freed@ == items(slots.take(seen)),
            decreases available@.len(),
        {
            let (item, _description, _stamp) = available.remove(0);
            freed.push(item);
            proof {
                assert(available@ =~= slots.skip(seen + 1));
                assert(freed@ =~= items(slots.take(seen + 1)));
                seen = seen + 1;
            }
        }
        assert(slots.take(seen) =~= slots);
        freed
    }
}

impl<Type, Description: BufferDescription, Constructor, Home> BufferPool<
    Type,
    Description,
    Constructor,
    Home,
> {
    /// A slot that is cheaper than the cheapest before it is cheaper than all before
    /// it.
    proof fn lemma_cheaper(
        &self,
        description: Description,
        best: Option<(Description::Cost, usize)>,
        cost: Description::Cost,
        i: usize,
    )
        requires
            i < self.slots().len(),
            description.cost(&self.slots()[i as int].1) == Some(cost),
            match best {
                Some((lowest, at)) => {
                    &&& at < i
                    &&& description.cost(&self.slots()[at as int].1) == Some(lowest)
                    &&& lowest.is_above(&cost)
                    &&& forall|j: int|
                        j < i && #[trigger] is_usable(self.slots(), description, j)
                            ==> !costs_more(self.slots(), description, at as int, j)
                },
                None => forall|j: int|
                    j < i ==> !#[trigger] is_usable(self.slots(), description, j),
            },
        ensures
            forall|j: int|
                j < i && #[trigger] is_usable(self.slots(), description, j) ==> costs_more(
                    self.slots(),
                    description,
                    j,
                    i as int,
                ),
            forall|j: int|
                j <= i && #[trigger] is_usable(self.slots(), description, j) ==> !costs_more(
                    self.slots(),
                    description,
                    i as int,
                    j,
                ),
    {
        Description::Cost::lemma_order(cost, cost, cost);
        if let Some((lowest, _)) = best {
            assert forall|j: int|
                j < i && #[trigger] is_usable(self.slots(), description, j) implies costs_more(
                self.slots(),
                description,
                j,
                i as int,
            ) && !costs_more(self.slots(), description, i as int, j) by {
                let at_j = description.cost(&self.slots()[j].1)->Some_0;
                Description::Cost::lemma_order(lowest, at_j, cost);
                Description::Cost::lemma_order(cost, at_j, cost);
                Description::Cost::lemma_order(at_j, cost, at_j);
            }
        }
    }

    /// The position of the slot that serves the description best.
    fn cheapest(&self, description: &Description) -> (best: Option<usize>)
        ensures
            match best {
                Some(i) => is_cheapest(self.slots(), *description, i as int),
                None => none_usable(self.slots(), *description),
            },
    {
        let mut best: Option<(Description::Cost, usize)> = None;
        let mut i: usize = 0;
        while i < self.available.len()
            invariant
                i <= self.available@.len(),
                match best {
                    Some((cost, at)) => {
                        &&& at < i
                        &&& description.cost(&self.available@[at as int].1) == Some(cost)
                        &&& forall|j: int|
                            j < i && #[trigger] is_usable(self.slots(), *description, j)
                                ==> !costs_more(self.slots(), *description, at as int, j)
                        &&& forall|j: int|
                            j < at && #[trigger] is_usable(self.slots(), *description, j)
                                ==> costs_more(self.slots(), *description, j, at as int)
                    },
                    None => forall|j: int|
                        j < i ==> !#[trigger] is_usable(self.slots(), *description, j),
                },
            decreases self.available@.len() - i,
        {
            if let Some(cost) = description.cost_to_use(&self.available[i].1) {
                let better = match &best {
                    Some((lowest, _)) => lowest.exceeds(&cost),
                    None => true,
                };
                if better {
                    proof {
                        self.lemma_cheaper(*description, best, cost, i);
                    }
                    best = Some((cost, i));
                }
            }
            i += 1;
        }
        match best {
            Some((_, at)) => {
                assert(is_usable(self.slots(), *description, at as int));
                Some(at)
            },
            None => None,
        }
    }

    /// Takes the item at rest that serves the description best, if one does.
    pub fn take_available(&mut self, description: &Description, current_frame: u64) -> (entry:
        Option<PoolEntry<Type, Description, Home>>) where Home: Copy
        ensures
            match entry {
                Some(entry) => {
                    &&& served_from(
                        old(self).slots(),
                        *description,
                        entry,
                        final(self).slots(),
                    )
                    &&& entry.pool() == old(self).home()
                },
                None => {
                    &&& none_usable(old(self).slots(), *description)
                    &&& final(self).slots() == old(self).slots()
                },
            },
            final(self).constructor() == old(self).constructor(),
            final(self).home() == old(self).home(),
            final(self).last_taken_frame() == current_frame,
    {
        self.last_taken_frame = current_frame;
        match self.cheapest(description) {
            Some(at) => {
                let (item, description, _stamp) = self.available.swap_remove(at);
                Some(PoolEntry { item, description, pool: self.home })
            },
            None => None,
        }
    }

    /// Takes the item at rest that serves the description best, and has the
    /// constructor make one where none does.
    pub fn take<Context>(
        &mut self,
        context: &Context,
        description: Description,
        current_frame: u64,
    ) -> (entry: PoolEntry<Type, Description, Home>) where
        Constructor: Fn(&Context, &Description) -> Type,
        Home: Copy,

        requires
            none_usable(old(self).slots(), description) ==> call_requires(
                old(self).constructor(),
                (context, &description),
            ),
        ensures
            was_taken(*old(self), *final(self), description, current_frame, entry),
            entry.pool() == old(self).home(),
            none_usable(old(self).slots(), description) ==> {
                &&& call_ensures(old(self).constructor(), (context, &description), entry.item())
                &&& entry.description() == description
                &&& final(self).slots() == old(self).slots()
            },
            !none_usable(old(self).slots(), description) ==> served_from(
                old(self).slots(),
                description,
                entry,
                final(self).slots(),
            ),
            final(self).constructor() == old(self).constructor(),
            final(self).home() == old(self).home(),
            final(self).last_taken_frame() == current_frame,
    {
        match self.take_available(&description, current_frame) {
            Some(entry) => entry,
            None => {
                let item = (self.constructor)(context, &description);
                self.adopt(item, description)
            },
        }
    }

    /// The name by which its entries find their way back.
    pub fn home_of(&self) -> (home: Home) where Home: Copy
        ensures
            home == self.home(),
    {
        self.home
    }

    /// Puts an item back to rest, stamped with the frame in which it returns.
    pub fn put_back(&mut self, entry: PoolEntry<Type, Description, Home>, current_frame: u64)
        requires
            entry.pool() == old(self).home(),
        ensures
            was_put_back(*old(self), *final(self), entry, current_frame),
            final(self).slots() == old(self).slots().push(
                (entry.item(), entry.description(), FrameStamp(current_frame)),
            ),
            final(self).constructor() == old(self).constructor(),
            final(self).home() == old(self).home(),
            final(self).last_taken_frame() == old(self).last_taken_frame(),
    {
        self.available.push((entry.item, entry.description, FrameStamp(current_frame)));
    }
}

impl<Type, Description, Constructor, Home> BufferPool<Type, Description, Constructor, Home> {
    /// The position of the slot that came back first.
    fn oldest_slot(&self) -> (at: usize)
        requires
            self.slots().len() > 0,
        ensures
            is_oldest(self.slots(), at as int),
    {
        let mut at: usize = 0;
        let mut i: usize = 1;
        while i < self.available.len()
            invariant
                at < i <= self.available@.len(),
                forall|j: int|
                    0 <= j < i ==> self.available@[at as int].2.0 <= (
                    #[trigger] self.available@[j]).2.0,
                forall|j: int|
                    0 <= j < at ==> self.available@[at as int].2.0 < (
                    #[trigger] self.available@[j]).2.0,
            decreases self.available@.len() - i,
        {
            if self.available[i].2.0 < self.available[at].2.0 {
                at = i;
            }
            i += 1;
        }
        at
    }

    /// Moves the items that were idle for too long out of the pool.
    fn drop_idle(&mut self, current_frame: u64, idle_frames: u64, dropped: &mut Vec<Type>)
        ensures
            final(self).slots() == fresh_slots(old(self).slots(), current_frame, idle_frames),
            final(dropped)@ == old(dropped)@ + items(
                idle_slots(old(self).slots(), current_frame, idle_frames),
            ),
            final(self).constructor() == old(self).constructor(),
            final(self).home() == old(self).home(),
            final(self).last_taken_frame() == old(self).last_taken_frame(),
    {
        let ghost slots = self.available@;
        let ghost before = dropped@;
        let ghost mut seen: int = 0;
        let mut i: usize = 0;
        assert(slots.take(0) =~= Seq::<Slot<Type, Description>>::empty());
        proof {
            reveal(Seq::filter);
        }
        assert(items(idle_slots(slots.take(0), current_frame, idle_frames)) =~= Seq::<
            Type,
        >::empty());
        while i < self.available.len()
            invariant
                0 <= seen <= slots.len(),
                self.available@ == fresh_slots(slots.take(seen), current_frame, idle_frames)
                    + slots.skip(seen),
                i == fresh_slots(slots.take(seen), current_frame, idle_frames).len(),
                dropped@ == before + items(
                    idle_slots(slots.take(seen), current_frame, idle_frames),
                ),
                self.constructor == old(self).constructor,
                self.home == old(self).home,
                self.last_taken_frame == old(self).last_taken_frame,
            decreases self.available@.len() - i,
        {
            let stamp = self.available[i].2.0;
            let age: u64 = if stamp <= current_frame {
                current_frame - stamp
            } else {
                0
            };
            proof {
                reveal(Seq::filter);
                assert(self.available@[i as int] == slots[seen]);
                assert(slots.take(seen + 1).drop_last() =~= slots.take(seen));
                assert(slots.take(seen + 1).last() == slots[seen]);
            }
            if age < idle_frames {
                assert(is_fresh(slots[seen], current_frame, idle_frames));
                assert(self.available@ =~= fresh_slots(
                    slots.take(seen + 1),
                    current_frame,
                    idle_frames,
                ) + slots.skip(seen + 1));
                i += 1;
            } else {
                let (item, _description, _stamp) = self.available.remove(i);
                dropped.push(item);
                assert(self.available@ =~= fresh_slots(
                    slots.take(seen + 1),
                    current_frame,
                    idle_frames,
                ) + slots.skip(seen + 1));
                assert(dropped@ =~= before + items(
                    idle_slots(slots.take(seen + 1), current_frame, idle_frames),
                ));
            }
            proof {
                seen = seen + 1;
            }
        }
        assert(slots.take(seen) =~= slots);
    }

    /// Moves the oldest items out of the pool until no more than `cap` remain.
    fn drop_over_cap(&mut self, cap: usize, dropped: &mut Vec<Type>)
        ensures
            final(self).slots() == capped(old(self).slots(), cap as nat),
            final(dropped)@ == old(dropped)@ + items(over_cap(old(self).slots(), cap as nat)),
            final(self).constructor() == old(self).constructor(),
            final(self).home() == old(self).home(),
            final(self).last_taken_frame() == old(self).last_taken_frame(),
    {
        let ghost slots = self.available@;
        let ghost before = dropped@;
        while self.available.len() > cap
            invariant
                capped(self.available@, cap as nat) == capped(slots, cap as nat),
                dropped@ + items(over_cap(self.available@, cap as nat)) == before + items(
                    over_cap(slots, cap as nat),
                ),
                self.constructor == old(self).constructor,
                self.home == old(self).home,
                self.last_taken_frame == old(self).last_taken_frame,
            decreases self.available@.len(),
        {
            let ghost now = self.available@;
            let ghost gone = dropped@;
            let at = self.oldest_slot();
            proof {
                lemma_oldest_is_unique(now, at as int);
            }
            let (item, _description, _stamp) = self.available.remove(at);
            dropped.push(item);
            assert(gone + items(over_cap(now, cap as nat)) =~= dropped@ + items(
                over_cap(self.available@, cap as nat),
            ));
        }
        assert(dropped@ + items(over_cap(self.available@, cap as nat)) =~= dropped@);
    }

    /// Sweeps the items at rest: those that were idle for too long go, and of the
    /// others the oldest, where there are more than the cap allows. What goes is
    /// handed to `dropped`. Returns how many items went, and the bytes they held
    /// as far as a pool of plain buffers knows them, which is none.
    pub fn sweep(
        &mut self,
        current_frame: u64,
        policy: &TexturePoolSweepPolicy,
        dropped: &mut Vec<Type>,
    ) -> (went: (usize, u64))
        ensures
            was_swept(*old(self), *final(self), current_frame, *policy, went),
            final(self).slots() == kept_slots(old(self).slots(), current_frame, *policy),
            final(dropped)@ == old(dropped)@ + items(
                dropped_slots(old(self).slots(), current_frame, *policy),
            ),
            went.0 == dropped_slots(old(self).slots(), current_frame, *policy).len(),
            went.1 == 0,
            final(self).constructor() == old(self).constructor(),
            final(self).home() == old(self).home(),
            final(self).last_taken_frame() == old(self).last_taken_frame(),
    {
        proof {
            law_sweep_keeps_or_drops(self.slots(), current_frame, *policy);
        }
        let before = self.available.len();
        self.drop_idle(current_frame, policy.idle_frames, dropped);
        self.drop_over_cap(policy.max_per_pool, dropped);
        assert(dropped@ =~= old(dropped)@ + items(
            dropped_slots(old(self).slots(), current_frame, *policy),
        ));
        (before - self.available.len(), 0)
    }

    /// How many items rest in the pool.
    pub fn len(&self) -> (n: usize)
        ensures
            n == self.slots().len(),
    {
        self.available.len()
    }

    /// How many items a sweep would drop.
    pub fn count_dropped(&self, current_frame: u64, policy: &TexturePoolSweepPolicy) -> (n: usize)
        ensures
            n == dropped_slots(self.slots(), current_frame, *policy).len(),
    {
        let ghost slots = self.available@;
        let mut fresh: usize = 0;
        let mut i: usize = 0;
        proof {
            reveal(Seq::filter);
            assert(slots.take(0) =~= Seq::<Slot<Type, Description>>::empty());
        }
        while i < self.available.len()
            invariant
                slots == self.available@,
                fresh <= i <= slots.len(),
                fresh == fresh_slots(
                    slots.take(i as int),
                    current_frame,
                    policy.idle_frames,
                ).len(),
            decreases slots.len() - i,
        {
            let stamp = self.available[i].2.0;
            let age: u64 = if stamp <= current_frame {
                current_frame - stamp
            } else {
                0
            };
            proof {
                reveal(Seq::filter);
                assert(slots.take(i + 1).drop_last() =~= slots.take(i as int));
                assert(slots.take(i + 1).last() == slots[i as int]);
            }
            if age < policy.idle_frames {
                assert(is_fresh(slots[i as int], current_frame, policy.idle_frames));
                fresh += 1;
            }
            i += 1;
        }
        proof {
            assert(slots.take(i as int) =~= slots);
            lemma_fresh_and_idle(slots, current_frame, policy.idle_frames);
            lemma_capped_len(
                fresh_slots(slots, current_frame, policy.idle_frames),
                policy.max_per_pool as nat,
            );
        }
        if fresh <= policy.max_per_pool {
            self.available.len() - fresh
        } else {
            self.available.len() - policy.max_per_pool
        }
    }
}

/// Costs that are numbers are ordered as numbers, and of equal buffers none costs
/// more.
pub proof fn law_number_costs_are_ordered_as_numbers()
    ensures
        !().is_above(&()),
        forall|a: u8, b: u8| #[trigger] a.is_above(&b) <==> a > b,
        forall|a: u16, b: u16| #[trigger] a.is_above(&b) <==> a > b,
        forall|a: u32, b: u32| #[trigger] a.is_above(&b) <==> a > b,
        forall|a: u64, b: u64| #[trigger] a.is_above(&b) <==> a > b,
        forall|a: u128, b: u128| #[trigger] a.is_above(&b) <==> a > b,
        forall|a: usize, b: usize| #[trigger] a.is_above(&b) <==> a > b,
        forall|a: i8, b: i8| #[trigger] a.is_above(&b) <==> a > b,
        forall|a: i16, b: i16| #[trigger] a.is_above(&b) <==> a > b,
        forall|a: i32, b: i32| #[trigger] a.is_above(&b) <==> a > b,
        forall|a: i64, b: i64| #[trigger] a.is_above(&b) <==> a > b,
        forall|a: i128, b: i128| #[trigger] a.is_above(&b) <==> a > b,
        forall|a: isize, b: isize| #[trigger] a.is_above(&b) <==> a > b,
{
}

/// Of costs in two parts the one with the higher first part is higher, and among
/// equal first parts the one with the higher second part.
pub proof fn law_the_first_part_of_a_cost_decides<First: ReuseCost, Second: ReuseCost>(
    a: (First, Second),
    b: (First, Second),
)
    ensures
        a.0.is_above(&b.0) ==> a.is_above(&b) && !b.is_above(&a),
        !a.0.is_above(&b.0) && !b.0.is_above(&a.0) ==> (a.is_above(&b) <==> a.1.is_above(&b.1)),
{
    First::lemma_order(a.0, b.0, a.0);
}

/// Buffers that are all alike can stand for each other at no cost.
pub proof fn law_alike_buffers_fit(a: AlwaysCompatible, b: AlwaysCompatible)
    ensures
        a.cost(&b) == Some(()),
{
}

/// A pool has nothing to serve a description with exactly where none of its items has
/// a cost for it.
pub proof fn law_nothing_serves_where_nothing_fits<Type, Description: BufferDescription>(
    slots: Seq<Slot<Type, Description>>,
    description: Description,
)
    ensures
        none_usable(slots, description) <==> forall|i: int|
            0 <= i < slots.len() ==> description.cost(&(#[trigger] slots[i]).1) is None,
{
    if none_usable(slots, description) {
        assert forall|i: int| 0 <= i < slots.len() implies description.cost(
            &(#[trigger] slots[i]).1,
        ) is None by {
            assert(!is_usable(slots, description, i));
        }
    }
}

/// What serves a description was at rest, at position `at`, and can be used for it. No
/// other item that can be used costs less, and none that rests before it costs as
/// little. It rests no longer, and the last item is the only one that moves.
pub proof fn law_the_cheapest_is_served<Type, Description: BufferDescription, Home>(
    before: Seq<Slot<Type, Description>>,
    description: Description,
    entry: PoolEntry<Type, Description, Home>,
    after: Seq<Slot<Type, Description>>,
) -> (at: int)
    requires
        served_from(before, description, entry, after),
    ensures
        0 <= at < before.len(),
        entry.item() == before[at].0,
        entry.description() == before[at].1,
        description.cost(&before[at].1) is Some,
        forall|j: int|
            0 <= j < before.len() && description.cost(&(#[trigger] before[j]).1) is Some
                ==> !description.cost(&before[at].1)->Some_0.is_above(
                &description.cost(&before[j].1)->Some_0,
            ),
        forall|j: int|
            0 <= j < at && description.cost(&(#[trigger] before[j]).1) is Some
                ==> description.cost(&before[j].1)->Some_0.is_above(
                &description.cost(&before[at].1)->Some_0,
            ),
        after.len() == before.len() - 1,
        forall|j: int|
            0 <= j < after.len() && j != at ==> #[trigger] after[j] == before[j],
        at < after.len() ==> after[at] == before[before.len() - 1],
        before.to_multiset() == after.to_multiset().insert(before[at]),
{
    broadcast use vstd::seq_lib::group_to_multiset_ensures;
    broadcast use vstd::multiset::group_multiset_axioms;

    let at = choose|i: int|
        {
            &&& #[trigger] is_cheapest(before, description, i)
            &&& entry.item() == before[i].0
            &&& entry.description() == before[i].1
            &&& after == without(before, i)
        };
    assert forall|j: int|
        0 <= j < before.len() && description.cost(&(#[trigger] before[j]).1) is Some implies {
        &&& !description.cost(&before[at].1)->Some_0.is_above(
            &description.cost(&before[j].1)->Some_0,
        )
        &&& j < at ==> description.cost(&before[j].1)->Some_0.is_above(
            &description.cost(&before[at].1)->Some_0,
        )
    } by {
        assert(is_usable(before, description, j));
    }
    let last = before.last();
    let front = before.drop_last();
    assert(before =~= front.push(last));
    if at < front.len() {
        assert(after =~= front.update(at, last));
        assert(front.update(at, last).to_multiset() =~= front.to_multiset().insert(last).remove(
            front[at],
        ));
        assert(front.to_multiset().count(front[at]) > 0) by {
            assert(front.contains(front[at]));
        }
    } else {
        assert(after =~= front);
    }
    assert(before.to_multiset() =~= after.to_multiset().insert(before[at]));
    at
}

/// What a take does to a pool: an item that serves the description comes out of it, and a
/// new one where none does. The pool is stamped with the frame.
pub open spec fn was_taken<Type, Description: BufferDescription, Constructor, Home>(
    before: BufferPool<Type, Description, Constructor, Home>,
    after: BufferPool<Type, Description, Constructor, Home>,
    description: Description,
    current_frame: u64,
    entry: PoolEntry<Type, Description, Home>,
) -> bool {
    &&& if none_usable(before.slots(), description) {
        &&& entry.description() == description
        &&& after.slots() == before.slots()
    } else {
        served_from(before.slots(), description, entry, after.slots())
    }
    &&& entry.pool() == before.home()
    &&& after.home() == before.home()
    &&& after.constructor() == before.constructor()
    &&& after.last_taken_frame() == current_frame
}

/// What a return does to a pool.
pub open spec fn was_put_back<Type, Description, Constructor, Home>(
    before: BufferPool<Type, Description, Constructor, Home>,
    after: BufferPool<Type, Description, Constructor, Home>,
    entry: PoolEntry<Type, Description, Home>,
    current_frame: u64,
) -> bool {
    &&& after.slots() == before.slots().push(
        (entry.item(), entry.description(), FrameStamp(current_frame)),
    )
    &&& after.home() == before.home()
    &&& after.constructor() == before.constructor()
    &&& after.last_taken_frame() == before.last_taken_frame()
}

/// What a sweep does to a pool.
pub open spec fn was_swept<Type, Description, Constructor, Home>(
    before: BufferPool<Type, Description, Constructor, Home>,
    after: BufferPool<Type, Description, Constructor, Home>,
    current_frame: u64,
    policy: TexturePoolSweepPolicy,
    went: (usize, u64),
) -> bool {
    &&& after.slots() == kept_slots(before.slots(), current_frame, policy)
    &&& went.0 == dropped_slots(before.slots(), current_frame, policy).len()
    &&& went.1 == 0
    &&& after.home() == before.home()
    &&& after.constructor() == before.constructor()
    &&& after.last_taken_frame() == before.last_taken_frame()
}

/// Every take stamps the pool with its frame and hands out an entry that comes back to it.
/// Where no item at rest can be used, all of them stay and the entry is for what was
/// asked; else one item fewer rests, and that item can be used.
pub proof fn law_a_take_stamps_the_pool<Type, Description: BufferDescription, Constructor, Home>(
    before: BufferPool<Type, Description, Constructor, Home>,
    after: BufferPool<Type, Description, Constructor, Home>,
    description: Description,
    current_frame: u64,
    entry: PoolEntry<Type, Description, Home>,
)
    requires
        was_taken(before, after, description, current_frame, entry),
    ensures
        after.last_taken_frame() == current_frame,
        entry.pool() == before.home(),
        after.home() == before.home(),
        after.constructor() == before.constructor(),
        (forall|i: int|
            0 <= i < before.slots().len() ==> description.cost(&(#[trigger] before.slots()[i]).1)
                is None) ==> after.slots() == before.slots() && entry.description()
            == description,
        (exists|i: int|
            0 <= i < before.slots().len() && description.cost(&(#[trigger] before.slots()[i]).1)
                is Some) ==> served_from(before.slots(), description, entry, after.slots())
            && description.cost(&entry.description()) is Some && after.slots().len()
            == before.slots().len() - 1,
{
    law_nothing_serves_where_nothing_fits(before.slots(), description);
    if !none_usable(before.slots(), description) {
        let _at = law_the_cheapest_is_served(before.slots(), description, entry, after.slots());
    }
}

/// What is put back rests behind all that rest already, however many they are, stamped with
/// the frame; where only it can be used for a description, the next take for that
/// description hands it out.
pub proof fn law_what_is_put_back_can_be_taken<
    Type,
    Description: BufferDescription,
    Constructor,
    Home,
>(
    before: BufferPool<Type, Description, Constructor, Home>,
    between: BufferPool<Type, Description, Constructor, Home>,
    after: BufferPool<Type, Description, Constructor, Home>,
    entry: PoolEntry<Type, Description, Home>,
    return_frame: u64,
    description: Description,
    take_frame: u64,
    next: PoolEntry<Type, Description, Home>,
)
    requires
        was_put_back(before, between, entry, return_frame),
        was_taken(between, after, description, take_frame, next),
        description.cost(&entry.description()) is Some,
        forall|i: int|
            0 <= i < before.slots().len() ==> description.cost(&(#[trigger] before.slots()[i]).1)
                is None,
    ensures
        between.slots().len() == before.slots().len() + 1,
        between.slots().last().0 == entry.item(),
        between.slots().last().2 == FrameStamp(return_frame),
        between.last_taken_frame() == before.last_taken_frame(),
        next.item() == entry.item(),
        next.description() == entry.description(),
        after.slots() == before.slots(),
{
    let last = between.slots().len() - 1;
    assert(between.slots()[last].1 == entry.description());
    law_a_take_stamps_the_pool(between, after, description, take_frame, next);
    let at = law_the_cheapest_is_served(between.slots(), description, next, after.slots());
    if at < last {
        assert(between.slots()[at] == before.slots()[at]);
    }
    assert(after.slots() =~= before.slots());
}

/// A sweep reports how many items it took out of the pool, leaves no more than the cap and
/// none that came back `idle_frames` frames ago or earlier, and keeps as many as that
/// allows. A pool within the cap in which no item is that old is left as it is.
pub proof fn law_a_pool_is_swept_by_age_and_cap<Type, Description, Constructor, Home>(
    before: BufferPool<Type, Description, Constructor, Home>,
    after: BufferPool<Type, Description, Constructor, Home>,
    current_frame: u64,
    policy: TexturePoolSweepPolicy,
    went: (usize, u64),
) -> (at: Seq<int>)
    requires
        was_swept(before, after, current_frame, policy, went),
    ensures
        went.0 == before.slots().len() - after.slots().len(),
        went.1 == 0,
        at.len() == after.slots().len(),
        forall|k: int|
            0 <= k < at.len() ==> 0 <= #[trigger] at[k] < before.slots().len()
                && after.slots()[k] == before.slots()[at[k]] && current_frame
                - after.slots()[k].2.0 < policy.idle_frames,
        forall|k: int, l: int| 0 <= k < l < at.len() ==> #[trigger] at[k] < #[trigger] at[l],
        ({
            let young = before.slots().filter(
                |slot: Slot<Type, Description>|
                    policy.idle_frames > 0 && current_frame - slot.2.0 < policy.idle_frames,
            ).len();
            after.slots().len() == if young < policy.max_per_pool {
                young
            } else {
                policy.max_per_pool as nat
            }
        }),
        forall|p: int, k: int|
            0 <= p < before.slots().len() && !at.contains(p) && 0 <= k < at.len()
                ==> current_frame - (#[trigger] before.slots()[p]).2.0 >= policy.idle_frames
                || before.slots()[p].2.0 <= before.slots()[#[trigger] at[k]].2.0,
        before.slots().len() <= policy.max_per_pool && policy.idle_frames > 0 && (forall|i: int|
            0 <= i < before.slots().len() ==> current_frame - (#[trigger] before.slots()[i]).2.0
                < policy.idle_frames) ==> after.slots() == before.slots() && went.0 == 0,
        after.last_taken_frame() == before.last_taken_frame(),
        after.home() == before.home(),
        after.constructor() == before.constructor(),
{
    law_sweep_keeps_as_much_as_allowed(before.slots(), current_frame, policy);
    law_sweep_keeps_the_youngest(before.slots(), current_frame, policy)
}

} // verus!
