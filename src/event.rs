//! Completion events for GPU work: one slot each, a small state machine
//! driven by firmware notifications, and polled by waiters.
//!
//! A waiter runs its own sleep loop around `wait`, handing it the time it
//! has waited so far; `signal` only writes one state and never allocates.
use vstd::prelude::*;
use crate::slotalloc::{Slot, SlotAllocator, SlotError};

verus! {

/// What firmware reported about a faulting job.
#[derive(Clone, Copy, Debug, PartialEq, Eq, Structural)]
pub struct FaultInfo {
    /// The GPU virtual address that faulted.
    pub address: u64,
    /// The fault type code, or the unrecognised outcome code.
    pub kind: u32,
}

/// Where an event stands. Every state but `Pending` is terminal.
#[derive(Clone, Copy, Debug, PartialEq, Eq, Structural)]
pub enum EventState {
    Pending,
    Signaled,
    Faulted(FaultInfo),
    TimedOut,
}

/// Why a wait or a release did not complete.
#[derive(Clone, Copy, Debug, PartialEq, Eq, Structural)]
pub enum WaitError {
    /// The handle is not a live event.
    InvalidEvent,
    /// The event is still pending and the timeout has elapsed.
    TimedOut,
    /// The event is still pending and time remains: wait and ask again.
    WouldBlock,
}

/// Firmware outcome code: the work completed.
pub const OUTCOME_DONE: u32 = 0;

/// Firmware outcome code: the work faulted.
pub const OUTCOME_FAULT: u32 = 1;

/// Firmware outcome code: firmware gave up on the work.
pub const OUTCOME_TIMEOUT: u32 = 2;

pub open spec fn is_terminal(s: EventState) -> bool {
    !(s is Pending)
}

/// The terminal state a firmware outcome code stands for; a code that is
/// not known is a fault whose kind is that code.
pub open spec fn outcome_state(code: u32, fault: FaultInfo) -> EventState {
    if code == OUTCOME_DONE {
        EventState::Signaled
    } else if code == OUTCOME_FAULT {
        EventState::Faulted(fault)
    } else if code == OUTCOME_TIMEOUT {
        EventState::TimedOut
    } else {
        EventState::Faulted(FaultInfo { address: fault.address, kind: code })
    }
}

/// The terminal state for a firmware outcome code.
pub fn decode_outcome(code: u32, fault: FaultInfo) -> (r: EventState)
    ensures
        r == outcome_state(code, fault),
        is_terminal(r),
{
    if code == OUTCOME_DONE {
        EventState::Signaled
    } else if code == OUTCOME_FAULT {
        EventState::Faulted(fault)
    } else if code == OUTCOME_TIMEOUT {
        EventState::TimedOut
    } else {
        EventState::Faulted(FaultInfo { address: fault.address, kind: code })
    }
}

/// The events of one device, indexed by slot.
pub struct EventTable {
    slots: SlotAllocator,
    states: Vec<EventState>,
}

impl EventTable {
    pub closed spec fn slots_spec(&self) -> SlotAllocator {
        self.slots
    }

    /// The state of each slot's event (meaningful while the slot is held).
    pub closed spec fn states_spec(&self) -> Seq<EventState> {
        self.states@
    }

    pub open spec fn wf(&self) -> bool {
        &&& self.slots_spec().wf()
        &&& self.states_spec().len() == self.slots_spec().capacity_spec()
    }

    pub open spec fn state_of(&self, ev: Slot) -> EventState {
        self.states_spec()[ev.index as int]
    }

    /// What `wait` returns for `ev` after `waited` of `timeout` has passed.
    pub open spec fn wait_outcome(&self, ev: Slot, waited: u64, timeout: u64) -> Result<
        EventState,
        WaitError,
    > {
        if !self.slots_spec().is_live(ev) {
            Err(WaitError::InvalidEvent)
        } else if is_terminal(self.state_of(ev)) {
            Ok(self.state_of(ev))
        } else if waited >= timeout {
            Err(WaitError::TimedOut)
        } else {
            Err(WaitError::WouldBlock)
        }
    }

    /// A table of `n` event slots, none in use.
    pub fn new(n: usize) -> (r: Self)
        ensures
            r.wf(),
            r.slots_spec().capacity_spec() == n,
            forall|i: int| 0 <= i < n ==> !(#[trigger] r.slots_spec().used_view()[i]),
    {
        let slots = SlotAllocator::new(n);
        let mut states: Vec<EventState> = Vec::new();
        let mut i: usize = 0;
        while i < n
            invariant
                i <= n,
                states@.len() == i,
            decreases n - i,
        {
            states.push(EventState::Pending);
            i = i + 1;
        }
        EventTable { slots, states }
    }

    /// A new pending event on the lowest free slot.
    pub fn create(&mut self) -> (r: Result<Slot, SlotError>)
        requires
            old(self).wf(),
        ensures
            final(self).wf(),
            match lowest_free_index(*old(self)) {
                Some(i) => {
                    &&& r == Ok::<Slot, SlotError>(
                        Slot {
                            index: i as usize,
                            generation: old(self).slots_spec().gen_view()[i],
                        },
                    )
                    &&& final(self).slots_spec().used_view() == old(
                        self,
                    ).slots_spec().used_view().update(i, true)
                    &&& final(self).slots_spec().gen_view() == old(self).slots_spec().gen_view()
                    &&& final(self).states_spec() == old(self).states_spec().update(
                        i,
                        EventState::Pending,
                    )
                },
                None => {
                    &&& r == Err::<Slot, SlotError>(SlotError::OutOfSlots)
                    &&& final(self).slots_spec().used_view() == old(self).slots_spec().used_view()
                    &&& final(self).slots_spec().gen_view() == old(self).slots_spec().gen_view()
                    &&& final(self).states_spec() == old(self).states_spec()
                },
            },
    {
        proof {
            crate::slotalloc::lemma_lowest_free(self.slots.used_view());
            self.slots.lemma_capacity_fits();
        }
        match self.slots.alloc_slot() {
            Ok(s) => {
                self.states.set(s.index, EventState::Pending);
                Ok(s)
            },
            Err(e) => Err(e),
        }
    }

    /// Applies a firmware notification to the event on slot `index`. An
    /// event leaves `Pending` for the state the code stands for; a terminal
    /// event, or a slot that is not held, stays as it is. Returns whether
    /// the event changed.
    pub fn signal(&mut self, index: usize, code: u32, fault: FaultInfo) -> (r: bool)
        requires
            old(self).wf(),
        ensures
            final(self).wf(),
            final(self).slots_spec() == old(self).slots_spec(),
            r == (index < old(self).slots_spec().capacity_spec()
                && old(self).slots_spec().used_view()[index as int]
                && old(self).states_spec()[index as int] is Pending),
            r ==> final(self).states_spec() == old(self).states_spec().update(
                index as int,
                outcome_state(code, fault),
            ),
            !r ==> final(self).states_spec() == old(self).states_spec(),
    {
        if index >= self.slots.capacity() {
            return false;
        }
        if !self.slots.is_held(index) {
            return false;
        }
        match self.states[index] {
            EventState::Pending => {
                self.states.set(index, decode_outcome(code, fault));
                true
            },
            _ => false,
        }
    }

    /// Moves a pending event to `TimedOut`, as when its submitter gives up
    /// on it. Returns whether the event changed.
    pub fn expire(&mut self, ev: Slot) -> (r: bool)
        requires
            old(self).wf(),
        ensures
            final(self).wf(),
            final(self).slots_spec() == old(self).slots_spec(),
            r == (old(self).slots_spec().is_live(ev) && old(self).state_of(ev) is Pending),
            r ==> final(self).states_spec() == old(self).states_spec().update(
                ev.index as int,
                EventState::TimedOut,
            ),
            !r ==> final(self).states_spec() == old(self).states_spec(),
    {
        if !self.slots.is_valid(ev) {
            return false;
        }
        match self.states[ev.index] {
            EventState::Pending => {
                self.states.set(ev.index, EventState::TimedOut);
                true
            },
            _ => false,
        }
    }

    /// One poll of a wait on `ev` with `timeout`, after `waited` has passed:
    /// the terminal state once there is one, `TimedOut` once `waited`
    /// reaches `timeout` (at once for a timeout of zero), `WouldBlock`
    /// before. All waiters of one event see the same terminal state.
    pub fn wait(&self, ev: Slot, waited: u64, timeout: u64) -> (r: Result<EventState, WaitError>)
        requires
            self.wf(),
        ensures
            r == self.wait_outcome(ev, waited, timeout),
    {
        if !self.slots.is_valid(ev) {
            return Err(WaitError::InvalidEvent);
        }
        match self.states[ev.index] {
            EventState::Pending => {
                if waited >= timeout {
                    Err(WaitError::TimedOut)
                } else {
                    Err(WaitError::WouldBlock)
                }
            },
            s => Ok(s),
        }
    }

    /// How many event slots the table has.
    pub fn capacity(&self) -> (r: usize)
        requires
            self.wf(),
        ensures
            r == self.slots_spec().capacity_spec(),
    {
        self.slots.capacity()
    }

    /// Whether `ev` is a live event.
    pub fn is_live(&self, ev: Slot) -> (r: bool)
        requires
            self.wf(),
        ensures
            r == self.slots_spec().is_live(ev),
    {
        self.slots.is_valid(ev)
    }

    /// The state of the live event `ev`.
    pub fn state(&self, ev: Slot) -> (r: Option<EventState>)
        requires
            self.wf(),
        ensures
            self.slots_spec().is_live(ev) ==> r == Some(self.state_of(ev)),
            !self.slots_spec().is_live(ev) ==> r == None::<EventState>,
    {
        if self.slots.is_valid(ev) {
            Some(self.states[ev.index])
        } else {
            None
        }
    }

    /// Reclaims the slot of a terminal event; its handle is refused from
    /// then on. A pending event is not released (`WouldBlock`).
    pub fn release(&mut self, ev: Slot) -> (r: Result<(), WaitError>)
        requires
            old(self).wf(),
        ensures
            final(self).wf(),
            final(self).states_spec() == old(self).states_spec(),
            !old(self).slots_spec().is_live(ev) ==> r == Err::<(), WaitError>(
                WaitError::InvalidEvent,
            ) && *final(self) == *old(self),
            old(self).slots_spec().is_live(ev) && !is_terminal(old(self).state_of(ev)) ==> r
                == Err::<(), WaitError>(WaitError::WouldBlock) && *final(self) == *old(self),
            old(self).slots_spec().is_live(ev) && is_terminal(old(self).state_of(ev)) ==> {
                &&& r == Ok::<(), WaitError>(())
                &&& final(self).slots_spec().used_view() == old(
                    self,
                ).slots_spec().used_view().update(ev.index as int, false)
                &&& !final(self).slots_spec().is_live(ev)
            },
    {
        if !self.slots.is_valid(ev) {
            return Err(WaitError::InvalidEvent);
        }
        match self.states[ev.index] {
            EventState::Pending => Err(WaitError::WouldBlock),
            _ => {
                match self.slots.free(ev) {
                    Ok(()) => Ok(()),
                    Err(_) => Err(WaitError::InvalidEvent),
                }
            },
        }
    }
}

/// The lowest free event slot of `t`.
pub open spec fn lowest_free_index(t: EventTable) -> Option<int> {
    crate::slotalloc::lowest_free(t.slots_spec().used_view())
}

/// A wait with a timeout of zero on an event that was never signalled
/// returns `TimedOut` on its first poll, whatever time has passed.
pub proof fn lemma_zero_timeout_wait(t: EventTable, ev: Slot, waited: u64)
    requires
        t.wf(),
        t.slots_spec().is_live(ev),
        t.state_of(ev) is Pending,
    ensures
        t.wait_outcome(ev, waited, 0) == Err::<EventState, WaitError>(WaitError::TimedOut),
{
}

/// A wait on a terminal event returns its state at once, whatever the
/// timeout and the time waited.
pub proof fn lemma_wait_terminal(t: EventTable, ev: Slot, waited: u64, timeout: u64)
    requires
        t.wf(),
        t.slots_spec().is_live(ev),
        is_terminal(t.state_of(ev)),
    ensures
        t.wait_outcome(ev, waited, timeout) == Ok::<EventState, WaitError>(t.state_of(ev)),
{
}

} // verus!
