//! Fixed-capacity pool of numbered slots with per-slot generation counters.
//!
//! Callers that share an allocator between threads hold it under one lock;
//! every mutation here takes `&mut self`.
use vstd::prelude::*;

verus! {

/// A handle to an allocated slot: its index and the generation it was
/// handed out in.
#[derive(Clone, Copy, Debug, PartialEq, Eq, Structural)]
pub struct Slot {
    pub index: usize,
    pub generation: u64,
}

/// Why a slot operation failed.
#[derive(Clone, Copy, Debug, PartialEq, Eq, Structural)]
pub enum SlotError {
    /// Every slot of the pool is held.
    OutOfSlots,
    /// The handle names an index outside the pool.
    BadIndex,
    /// The slot is free: the handle was already released.
    NotAllocated,
    /// The slot was released and handed out again since this handle was made.
    StaleGeneration,
}

/// The pool: for each index whether it is held, and its current generation.
pub struct SlotAllocator {
    used: Vec<bool>,
    generations: Vec<u64>,
}

/// A handle is live when its slot is held in the handle's generation.
pub open spec fn live(used: Seq<bool>, gens: Seq<u64>, s: Slot) -> bool {
    &&& s.index < used.len()
    &&& used[s.index as int]
    &&& gens[s.index as int] == s.generation
}

/// Index of the lowest free slot at or after `from`, if any.
pub open spec fn lowest_free_from(used: Seq<bool>, from: int) -> Option<int>
    decreases used.len() - from,
{
    if from >= used.len() || from < 0 {
        None
    } else if !used[from] {
        Some(from)
    } else {
        lowest_free_from(used, from + 1)
    }
}

pub open spec fn lowest_free(used: Seq<bool>) -> Option<int> {
    lowest_free_from(used, 0)
}

proof fn lemma_lowest_free_from(used: Seq<bool>, from: int)
    requires
        0 <= from <= used.len(),
    ensures
        match lowest_free_from(used, from) {
            Some(i) => from <= i < used.len() && !used[i] && forall|j: int|
                from <= j < i ==> used[j],
            None => forall|j: int| from <= j < used.len() ==> used[j],
        },
    decreases used.len() - from,
{
    if from < used.len() && used[from] {
        lemma_lowest_free_from(used, from + 1);
    }
}

/// What `lowest_free` picks is free, and every index below it is held.
pub proof fn lemma_lowest_free(used: Seq<bool>)
    ensures
        match lowest_free(used) {
            Some(i) => 0 <= i < used.len() && !used[i] && forall|j: int| 0 <= j < i ==> used[j],
            None => forall|j: int| 0 <= j < used.len() ==> used[j],
        },
{
    lemma_lowest_free_from(used, 0);
}

/// The generation that follows `g`; it wraps to zero after the largest.
pub open spec fn next_generation(g: u64) -> u64 {
    if g == u64::MAX {
        0
    } else {
        (g + 1) as u64
    }
}

impl SlotAllocator {
    /// Whether each index is held.
    pub closed spec fn used_view(&self) -> Seq<bool> {
        self.used@
    }

    /// The current generation of each index.
    pub closed spec fn gen_view(&self) -> Seq<u64> {
        self.generations@
    }

    pub closed spec fn wf(&self) -> bool {
        &&& self.used@.len() == self.generations@.len()
        &&& self.used@.len() <= usize::MAX
    }

    /// A pool's size fits in `usize`.
    pub proof fn lemma_capacity_fits(&self)
        requires
            self.wf(),
        ensures
            self.capacity_spec() <= usize::MAX,
    {
    }

    pub open spec fn capacity_spec(&self) -> nat {
        self.used_view().len()
    }

    pub open spec fn is_held_spec(&self, index: usize) -> bool {
        index < self.capacity_spec() && self.used_view()[index as int]
    }

    pub open spec fn is_live(&self, s: Slot) -> bool {
        live(self.used_view(), self.gen_view(), s)
    }

    /// A pool of `n` free slots, all in generation zero.
    pub fn new(n: usize) -> (r: Self)
        ensures
            r.wf(),
            r.used_view() == Seq::new(n as nat, |i: int| false),
            r.gen_view() == Seq::new(n as nat, |i: int| 0u64),
    {
        let mut used: Vec<bool> = Vec::new();
        let mut generations: Vec<u64> = Vec::new();
        let mut i: usize = 0;
        while i < n
            invariant
                i <= n,
                used@ == Seq::new(i as nat, |k: int| false),
                generations@ == Seq::new(i as nat, |k: int| 0u64),
            decreases n - i,
        {
            used.push(false);
            generations.push(0);
            i = i + 1;
            assert(used@ =~= Seq::new(i as nat, |k: int| false));
            assert(generations@ =~= Seq::new(i as nat, |k: int| 0u64));
        }
        SlotAllocator { used, generations }
    }

    /// Number of slots in the pool.
    pub fn capacity(&self) -> (r: usize)
        requires
            self.wf(),
        ensures
            r == self.capacity_spec(),
    {
        self.used.len()
    }

    /// Reserves the lowest free index, in its current generation.
    pub fn alloc_slot(&mut self) -> (r: Result<Slot, SlotError>)
        requires
            old(self).wf(),
        ensures
            final(self).wf(),
            final(self).gen_view() == old(self).gen_view(),
            match lowest_free(old(self).used_view()) {
                Some(i) => {
                    &&& r == Ok::<Slot, SlotError>(
                        Slot { index: i as usize, generation: old(self).gen_view()[i] },
                    )
                    &&& final(self).used_view() == old(self).used_view().update(i, true)
                },
                None => {
                    &&& r == Err::<Slot, SlotError>(SlotError::OutOfSlots)
                    &&& final(self).used_view() == old(self).used_view()
                },
            },
    {
        proof {
            lemma_lowest_free(self.used@);
        }
        let mut i: usize = 0;
        while i < self.used.len()
            invariant
                self.wf(),
                self == old(self),
                i <= self.used@.len(),
                forall|j: int| 0 <= j < i ==> self.used@[j],
            decreases self.used@.len() - i,
        {
            if !self.used[i] {
                proof {
                    lemma_lowest_free(self.used@);
                    if lowest_free(self.used@) != Some(i as int) {
                        let k = lowest_free(self.used@).unwrap();
                        assert(!self.used@[k]);
                    }
                }
                self.used.set(i, true);
                return Ok(Slot { index: i, generation: self.generations[i] });
            }
            i = i + 1;
        }
        Err(SlotError::OutOfSlots)
    }

    /// Why `s` is not live here, or `Ok` when it is.
    pub open spec fn check_spec(&self, s: Slot) -> Result<(), SlotError> {
        if s.index >= self.capacity_spec() {
            Err(SlotError::BadIndex)
        } else if !self.used_view()[s.index as int] {
            Err(SlotError::NotAllocated)
        } else if self.gen_view()[s.index as int] != s.generation {
            Err(SlotError::StaleGeneration)
        } else {
            Ok(())
        }
    }

    /// Why `s` is not live here, or `Ok` when it is.
    pub fn check(&self, s: Slot) -> (r: Result<(), SlotError>)
        requires
            self.wf(),
        ensures
            r == self.check_spec(s),
            r is Ok <==> self.is_live(s),
    {
        if s.index >= self.used.len() {
            Err(SlotError::BadIndex)
        } else if !self.used[s.index] {
            Err(SlotError::NotAllocated)
        } else if self.generations[s.index] != s.generation {
            Err(SlotError::StaleGeneration)
        } else {
            Ok(())
        }
    }

    /// Whether the slot at `index` is held.
    pub fn is_held(&self, index: usize) -> (r: bool)
        requires
            self.wf(),
        ensures
            r == self.is_held_spec(index),
    {
        index < self.used.len() && self.used[index]
    }

    /// Whether `s` is a live handle.
    pub fn is_valid(&self, s: Slot) -> (r: bool)
        requires
            self.wf(),
        ensures
            r == self.is_live(s),
    {
        self.check(s).is_ok()
    }

    /// Returns the slot to the free set and moves its index to the next
    /// generation (wrapping), so every handle made before is refused from
    /// now on. A handle that is not live is refused and changes nothing.
    pub fn free(&mut self, s: Slot) -> (r: Result<(), SlotError>)
        requires
            old(self).wf(),
        ensures
            final(self).wf(),
            r is Ok <==> old(self).is_live(s),
            r is Err ==> r == old(self).check_spec(s) && *final(self) == *old(self),
            r is Ok ==> {
                &&& final(self).used_view() == old(self).used_view().update(s.index as int, false)
                &&& final(self).gen_view() == old(self).gen_view().update(
                    s.index as int,
                    next_generation(s.generation),
                )
            },
    {
        match self.check(s) {
            Err(e) => Err(e),
            Ok(()) => {
                self.used.set(s.index, false);
                self.generations.set(s.index, s.generation.wrapping_add(1));
                Ok(())
            },
        }
    }
}

/// An allocation never hands out an index that is held: every handle that
/// was live before is still live afterwards and names another index, and
/// the new handle is live too.
pub proof fn lemma_alloc_unique(before: SlotAllocator, after: SlotAllocator, s: Slot, t: Slot)
    requires
        before.wf(),
        lowest_free(before.used_view()) == Some(s.index as int),
        s.generation == before.gen_view()[s.index as int],
        after.used_view() == before.used_view().update(s.index as int, true),
        after.gen_view() == before.gen_view(),
        before.is_live(t),
    ensures
        t.index != s.index,
        after.is_live(t),
        after.is_live(s),
{
    lemma_lowest_free(before.used_view());
}

/// A handle of generation `g` whose slot was freed and then handed out again
/// (in the next generation) is refused as stale.
pub proof fn lemma_stale_handle_rejected(
    a0: SlotAllocator,
    a1: SlotAllocator,
    a2: SlotAllocator,
    s: Slot,
    s2: Slot,
)
    requires
        a0.wf(),
        a0.is_live(s),
        a1.used_view() == a0.used_view().update(s.index as int, false),
        a1.gen_view() == a0.gen_view().update(s.index as int, next_generation(s.generation)),
        lowest_free(a1.used_view()) == Some(s2.index as int),
        s2.generation == a1.gen_view()[s2.index as int],
        a2.used_view() == a1.used_view().update(s2.index as int, true),
        a2.gen_view() == a1.gen_view(),
        s2.index == s.index,
    ensures
        s2.generation == next_generation(s.generation),
        s2.generation != s.generation,
        a2.is_live(s2),
        !a1.is_live(s),
        !a2.is_live(s),
        a2.check_spec(s) == Err::<(), SlotError>(SlotError::StaleGeneration),
{
}

} // verus!
