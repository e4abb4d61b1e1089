//! Per-engine command queue: commands go to firmware through a channel in
//! submission order and retire in that same order.
//!
//! A fault reported for one command fails that command's event only; the
//! commands behind it stay queued and retire as their notices arrive.
use vstd::prelude::*;
use crate::channel::Channel;
use crate::event::{EventTable, FaultInfo, outcome_state};
use crate::slotalloc::Slot;

verus! {

/// Most events one command can wait on.
pub const MAX_WAITS: usize = 8;

/// The message a queue hands to firmware for one submitted command.
#[derive(Clone, Copy, Debug, PartialEq, Eq)]
pub struct JobMessage {
    /// The ticket the submitter got back.
    pub ticket: u64,
    /// GPU address of the already-encoded command buffer.
    pub command: u64,
    /// The event signalled when the command completes.
    pub signal: Slot,
    /// How many entries of `waits` are events to wait on.
    pub wait_count: u32,
    /// The events firmware waits on before it runs the command, then
    /// unused entries of slot 0, generation 0.
    pub waits: [Slot; MAX_WAITS],
}

/// The wait list of a message: `wait_on`, then unused entries.
pub open spec fn packed_waits(wait_on: Seq<Slot>) -> Seq<Slot> {
    wait_on + Seq::new((MAX_WAITS - wait_on.len()) as nat, |i: int| Slot { index: 0, generation: 0 })
}

/// Whether `m` is the message for `command` with ticket `ticket`, waiting
/// on `wait_on` and signalling `signal`.
pub open spec fn message_for(
    m: JobMessage,
    ticket: u64,
    command: u64,
    signal: Slot,
    wait_on: Seq<Slot>,
) -> bool {
    &&& m.ticket == ticket
    &&& m.command == command
    &&& m.signal == signal
    &&& m.wait_count == wait_on.len()
    &&& m.waits@ == packed_waits(wait_on)
}

/// Why a submission was refused.
#[derive(Clone, Copy, Debug, PartialEq, Eq, Structural)]
pub enum SubmitError {
    /// The queue's channel is full.
    Backpressure,
    /// The completion event or a dependency is not a live event.
    InvalidEvent,
    /// Every ticket number has been handed out.
    TicketsExhausted,
    /// The command waits on more than `MAX_WAITS` events.
    TooManyWaits,
    /// The queue stayed full until the timeout elapsed.
    TimedOut,
}

/// Which engine a queue feeds.
#[derive(Clone, Copy, Debug, PartialEq, Eq, Structural)]
pub enum Engine {
    Vertex,
    Fragment,
    Compute,
}

pub struct Workqueue {
    engine: Engine,
    ring: Channel<JobMessage>,
    next_ticket: u64,
}

/// Whether every event of `deps` is live in `events`.
pub open spec fn all_live(events: EventTable, deps: Seq<Slot>) -> bool {
    forall|i: int| 0 <= i < deps.len() ==> events.slots_spec().is_live(#[trigger] deps[i])
}

impl Workqueue {
    /// The commands in flight, oldest first.
    pub closed spec fn view(&self) -> Seq<JobMessage> {
        self.ring.view()
    }

    pub closed spec fn capacity_spec(&self) -> nat {
        self.ring.capacity_spec()
    }

    pub closed spec fn next_ticket_spec(&self) -> u64 {
        self.next_ticket
    }

    pub closed spec fn engine_spec(&self) -> Engine {
        self.engine
    }

    pub closed spec fn wf(&self) -> bool {
        self.ring.wf()
    }

    /// What `submit` returns in this state.
    pub open spec fn submit_outcome(
        &self,
        events: EventTable,
        wait_on: Seq<Slot>,
        signal: Slot,
    ) -> Result<u64, SubmitError> {
        if !events.slots_spec().is_live(signal) || !all_live(events, wait_on) {
            Err(SubmitError::InvalidEvent)
        } else if wait_on.len() > MAX_WAITS {
            Err(SubmitError::TooManyWaits)
        } else if self.next_ticket_spec() == u64::MAX {
            Err(SubmitError::TicketsExhausted)
        } else if self.view().len() >= self.capacity_spec() {
            Err(SubmitError::Backpressure)
        } else {
            Ok(self.next_ticket_spec())
        }
    }

    /// An empty queue for `engine` with room for `capacity` commands.
    pub fn new(engine: Engine, capacity: usize) -> (r: Self)
        requires
            capacity < usize::MAX,
        ensures
            r.wf(),
            r.view() == Seq::<JobMessage>::empty(),
            r.capacity_spec() == capacity,
            r.next_ticket_spec() == 0,
            r.engine_spec() == engine,
    {
        Workqueue { engine, ring: Channel::new(capacity), next_ticket: 0 }
    }

    /// The engine this queue feeds.
    pub fn engine(&self) -> (r: Engine)
        ensures
            r == self.engine_spec(),
    {
        self.engine
    }

    /// How many commands are in flight.
    pub fn len(&self) -> (r: usize)
        requires
            self.wf(),
        ensures
            r == self.view().len(),
    {
        self.ring.len()
    }

    /// Queues `command`, to run once every event of `wait_on` has been
    /// signalled and to signal `signal` when it completes; the message
    /// firmware reads carries both. Never blocks: a full queue is
    /// `Backpressure`. Returns the command's ticket.
    pub fn submit(&mut self, command: u64, wait_on: &[Slot], signal: Slot, events: &EventTable) -> (r:
        Result<u64, SubmitError>)
        requires
            old(self).wf(),
            events.wf(),
        ensures
            final(self).wf(),
            final(self).capacity_spec() == old(self).capacity_spec(),
            final(self).engine_spec() == old(self).engine_spec(),
            r == old(self).submit_outcome(*events, wait_on@, signal),
            r matches Ok(t) ==> {
                &&& final(self).view().len() == old(self).view().len() + 1
                &&& final(self).view().drop_last() == old(self).view()
                &&& message_for(final(self).view().last(), t, command, signal, wait_on@)
                &&& final(self).next_ticket_spec() == t + 1
            },
            r is Err ==> final(self).view() == old(self).view() && final(self).next_ticket_spec()
                == old(self).next_ticket_spec(),
    {
        if !events.is_live(signal) {
            return Err(SubmitError::InvalidEvent);
        }
        let mut i: usize = 0;
        while i < wait_on.len()
            invariant
                i <= wait_on@.len(),
                self == old(self),
                self.wf(),
                events.wf(),
                forall|j: int| 0 <= j < i ==> events.slots_spec().is_live(#[trigger] wait_on@[j]),
            decreases wait_on@.len() - i,
        {
            if !events.is_live(wait_on[i]) {
                return Err(SubmitError::InvalidEvent);
            }
            i = i + 1;
        }
        if wait_on.len() > MAX_WAITS {
            return Err(SubmitError::TooManyWaits);
        }
        if self.next_ticket == u64::MAX {
            return Err(SubmitError::TicketsExhausted);
        }
        let ticket = self.next_ticket;
        let mut waits = [Slot { index: 0, generation: 0 }; MAX_WAITS];
        let mut k: usize = 0;
        while k < wait_on.len()
            invariant
                wait_on@.len() <= MAX_WAITS,
                k <= wait_on@.len(),
                waits@.len() == MAX_WAITS,
                forall|j: int| 0 <= j < k ==> waits@[j] == wait_on@[j],
                forall|j: int|
                    k <= j < MAX_WAITS ==> waits@[j] == (Slot { index: 0, generation: 0 }),
            decreases wait_on@.len() - k,
        {
            waits[k] = wait_on[k];
            k = k + 1;
        }
        assert(waits@ =~= packed_waits(wait_on@));
        let msg = JobMessage {
            ticket,
            command,
            signal,
            wait_count: wait_on.len() as u32,
            waits,
        };
        match self.ring.send(msg) {
            Ok(()) => {
                self.next_ticket = ticket + 1;
                assert(self.view().drop_last() =~= old(self).view());
                Ok(ticket)
            },
            Err(_) => Err(SubmitError::Backpressure),
        }
    }

    /// One step of a blocking submission: `submit`, except that a full
    /// queue is `TimedOut` once `waited` has reached `timeout`, so that the
    /// caller stops retrying.
    pub fn submit_blocking_step(
        &mut self,
        command: u64,
        wait_on: &[Slot],
        signal: Slot,
        events: &EventTable,
        waited: u64,
        timeout: u64,
    ) -> (r: Result<u64, SubmitError>)
        requires
            old(self).wf(),
            events.wf(),
        ensures
            final(self).wf(),
            final(self).capacity_spec() == old(self).capacity_spec(),
            final(self).engine_spec() == old(self).engine_spec(),
            r == (match old(self).submit_outcome(*events, wait_on@, signal) {
                Err(SubmitError::Backpressure) => if waited >= timeout {
                    Err(SubmitError::TimedOut)
                } else {
                    Err(SubmitError::Backpressure)
                },
                other => other,
            }),
            r matches Ok(t) ==> {
                &&& final(self).view().len() == old(self).view().len() + 1
                &&& final(self).view().drop_last() == old(self).view()
                &&& message_for(final(self).view().last(), t, command, signal, wait_on@)
                &&& final(self).next_ticket_spec() == t + 1
            },
            r is Err ==> final(self).view() == old(self).view() && final(self).next_ticket_spec()
                == old(self).next_ticket_spec(),
    {
        match self.submit(command, wait_on, signal, events) {
            Err(SubmitError::Backpressure) => if waited >= timeout {
                Err(SubmitError::TimedOut)
            } else {
                Err(SubmitError::Backpressure)
            },
            other => other,
        }
    }

    /// Retires the oldest command in flight, on its completion notice.
    pub fn retire(&mut self) -> (r: Option<JobMessage>)
        requires
            old(self).wf(),
        ensures
            final(self).wf(),
            final(self).capacity_spec() == old(self).capacity_spec(),
            final(self).engine_spec() == old(self).engine_spec(),
            final(self).next_ticket_spec() == old(self).next_ticket_spec(),
            old(self).view().len() == 0 ==> r == None::<JobMessage> && final(self).view() == old(
                self,
            ).view(),
            old(self).view().len() > 0 ==> r == Some(old(self).view()[0]) && final(self).view()
                == old(self).view().drop_first(),
    {
        self.ring.poll_receive()
    }

    /// Handles firmware's completion notice for this queue: retires the
    /// oldest command and applies the outcome `code` to its event.
    pub fn complete(&mut self, events: &mut EventTable, code: u32, fault: FaultInfo) -> (r: Option<
        JobMessage,
    >)
        requires
            old(self).wf(),
            old(events).wf(),
        ensures
            final(self).wf(),
            final(events).wf(),
            final(self).capacity_spec() == old(self).capacity_spec(),
            final(self).engine_spec() == old(self).engine_spec(),
            final(self).next_ticket_spec() == old(self).next_ticket_spec(),
            final(events).slots_spec() == old(events).slots_spec(),
            old(self).view().len() == 0 ==> r == None::<JobMessage> && final(self).view() == old(
                self,
            ).view() && final(events).states_spec() == old(events).states_spec(),
            old(self).view().len() > 0 ==> {
                let m = old(self).view()[0];
                &&& r == Some(m)
                &&& final(self).view() == old(self).view().drop_first()
                &&& if old(events).slots_spec().is_held_spec(m.signal.index)
                    && old(events).states_spec()[m.signal.index as int] is Pending {
                    final(events).states_spec() == old(events).states_spec().update(
                        m.signal.index as int,
                        outcome_state(code, fault),
                    )
                } else {
                    final(events).states_spec() == old(events).states_spec()
                }
            },
    {
        let r = self.ring.poll_receive();
        if let Some(m) = r {
            events.signal(m.signal.index, code, fault);
        }
        r
    }
}

proof fn lemma_submits(subs: Seq<Workqueue>, submitted: Seq<JobMessage>, i: int)
    requires
        subs.len() == submitted.len() + 1,
        subs[0].view() == Seq::<JobMessage>::empty(),
        forall|k: int|
            0 <= k < submitted.len() ==> (#[trigger] subs[k + 1]).view() == subs[k].view().push(
                submitted[k],
            ),
        0 <= i <= submitted.len(),
    ensures
        subs[i].view() == submitted.subrange(0, i),
    decreases i,
{
    if i == 0 {
        assert(submitted.subrange(0, 0) =~= Seq::<JobMessage>::empty());
    } else {
        lemma_submits(subs, submitted, i - 1);
        assert(subs[i].view() == subs[i - 1].view().push(submitted[i - 1]));
        assert(submitted.subrange(0, i - 1).push(submitted[i - 1]) =~= submitted.subrange(0, i));
    }
}

proof fn lemma_retires(rets: Seq<Workqueue>, retired: Seq<JobMessage>, whole: Seq<JobMessage>, j: int)
    requires
        rets.len() == retired.len() + 1,
        retired.len() == whole.len(),
        rets[0].view() == whole,
        forall|k: int|
            0 <= k < retired.len() ==> (#[trigger] rets[k + 1]).view() == rets[k].view().drop_first(),
        0 <= j <= whole.len(),
    ensures
        rets[j].view() == whole.subrange(j, whole.len() as int),
    decreases j,
{
    if j == 0 {
        assert(whole.subrange(0, whole.len() as int) =~= whole);
    } else {
        lemma_retires(rets, retired, whole, j - 1);
        let k = j - 1;
        assert(0 <= k < retired.len());
        assert(rets[k + 1].view() == rets[k].view().drop_first());
        assert(whole.subrange(j - 1, whole.len() as int).drop_first() =~= whole.subrange(
            j,
            whole.len() as int,
        ));
    }
}

/// Commands submitted one by one to an empty queue (each `submit` adds its
/// message at the back) and then retired one by one as their completions
/// arrive (each `retire` hands out the front one) retire in the order they
/// were submitted. `subs` are the queue's states along the submissions,
/// `rets` along the retirements.
pub proof fn lemma_fifo_retirement(
    subs: Seq<Workqueue>,
    submitted: Seq<JobMessage>,
    rets: Seq<Workqueue>,
    retired: Seq<JobMessage>,
)
    requires
        subs.len() == submitted.len() + 1,
        subs[0].view() == Seq::<JobMessage>::empty(),
        forall|k: int|
            0 <= k < submitted.len() ==> (#[trigger] subs[k + 1]).view() == subs[k].view().push(
                submitted[k],
            ),
        retired.len() == submitted.len(),
        rets.len() == retired.len() + 1,
        rets[0].view() == subs[submitted.len() as int].view(),
        forall|k: int|
            0 <= k < retired.len() ==> {
                &&& #[trigger] retired[k] == rets[k].view()[0]
                &&& rets[k + 1].view() == rets[k].view().drop_first()
            },
    ensures
        retired == submitted,
{
    let n = submitted.len() as int;
    lemma_submits(subs, submitted, n);
    assert(submitted.subrange(0, n) =~= submitted);
    assert forall|k: int| 0 <= k < retired.len() implies (#[trigger] rets[k + 1]).view() == rets[k].view().drop_first() by {
        assert(retired[k] == rets[k].view()[0]);
    }
    assert forall|k: int| 0 <= k < n implies retired[k] == submitted[k] by {
        lemma_retires(rets, retired, submitted, k);
        assert(retired[k] == rets[k].view()[0]);
    }
    assert(retired =~= submitted);
}

} // verus!
