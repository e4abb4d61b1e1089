//! Fixed-capacity ring of message slots shared with firmware, one writer side
//! and one reader side.
//!
//! The ring has one slot more than its capacity, so that a full ring and an
//! empty one have different index pairs. The writer publishes a message
//! before it advances the write index; the caller rings the doorbell after
//! `send` returns.
use vstd::prelude::*;

verus! {

/// Why a message could not be sent.
#[derive(Clone, Copy, Debug, PartialEq, Eq, Structural)]
pub enum ChannelError {
    /// The ring holds `capacity` messages.
    ChannelFull,
    /// The ring stayed full until the timeout elapsed.
    TimedOut,
}

pub struct Channel<T> {
    ring: Vec<Option<T>>,
    wptr: usize,
    rptr: usize,
    pending: Ghost<Seq<T>>,
}

/// The index after `i` in a ring of `len` slots.
pub open spec fn ring_next(i: int, len: int) -> int {
    if i + 1 == len {
        0
    } else {
        i + 1
    }
}

/// How far the write index `w` is ahead of the read index `r`, modulo `len`.
pub open spec fn ring_distance(w: int, r: int, len: int) -> int {
    if w >= r {
        w - r
    } else {
        w + len - r
    }
}

/// Slot of the `k`-th pending message, counted from the read index `r`.
pub open spec fn ring_pos(r: int, k: int, len: int) -> int {
    if r + k < len {
        r + k
    } else {
        r + k - len
    }
}

impl<T: Copy> Channel<T> {
    /// The messages written and not yet read, oldest first.
    pub closed spec fn view(&self) -> Seq<T> {
        self.pending@
    }

    /// How many messages the ring can hold.
    pub closed spec fn capacity_spec(&self) -> nat {
        (self.ring@.len() - 1) as nat
    }

    /// Write index minus read index, modulo the ring's length.
    pub closed spec fn index_distance(&self) -> int {
        ring_distance(self.wptr as int, self.rptr as int, self.ring@.len() as int)
    }

    pub closed spec fn wf(&self) -> bool {
        let len = self.ring@.len() as int;
        &&& len >= 1
        &&& self.wptr < len
        &&& self.rptr < len
        &&& self.pending@.len() == ring_distance(self.wptr as int, self.rptr as int, len)
        &&& forall|k: int|
            0 <= k < self.pending@.len() ==> #[trigger] self.ring@[ring_pos(
                self.rptr as int,
                k,
                len,
            )] == Some(self.pending@[k])
    }

    /// What a non-blocking `send` returns in this state.
    pub open spec fn send_outcome(&self) -> Result<(), ChannelError> {
        if self.view().len() < self.capacity_spec() {
            Ok(())
        } else {
            Err(ChannelError::ChannelFull)
        }
    }

    /// An empty channel that holds up to `capacity` messages; with a
    /// capacity of zero every `send` is refused.
    pub fn new(capacity: usize) -> (r: Self)
        requires
            capacity < usize::MAX,
        ensures
            r.wf(),
            r.view() == Seq::<T>::empty(),
            r.capacity_spec() == capacity,
    {
        let mut ring: Vec<Option<T>> = Vec::new();
        let mut i: usize = 0;
        while i <= capacity
            invariant
                i <= capacity + 1,
                capacity < usize::MAX,
                ring@.len() == i,
            decreases capacity + 1 - i,
        {
            ring.push(None);
            i = i + 1;
        }
        Channel { ring, wptr: 0, rptr: 0, pending: Ghost(Seq::empty()) }
    }

    /// How many messages the ring can hold.
    pub fn capacity(&self) -> (r: usize)
        requires
            self.wf(),
        ensures
            r == self.capacity_spec(),
    {
        self.ring.len() - 1
    }

    /// How many messages wait to be read.
    pub fn len(&self) -> (r: usize)
        requires
            self.wf(),
        ensures
            r == self.view().len(),
    {
        if self.wptr >= self.rptr {
            self.wptr - self.rptr
        } else {
            self.wptr + (self.ring.len() - self.rptr)
        }
    }

    /// Whether a `send` would be refused now.
    pub fn is_full(&self) -> (r: bool)
        requires
            self.wf(),
        ensures
            r == (self.view().len() == self.capacity_spec()),
    {
        proof {
            self.lemma_distance_bounded();
        }
        self.len() == self.ring.len() - 1
    }

    proof fn lemma_distance_bounded(&self)
        requires
            self.wf(),
        ensures
            0 <= self.index_distance() <= self.capacity_spec(),
            self.view().len() == self.index_distance(),
    {
    }

    /// Writes `msg` behind the pending messages, or refuses it when the ring
    /// is full and leaves the channel as it was.
    pub fn send(&mut self, msg: T) -> (r: Result<(), ChannelError>)
        requires
            old(self).wf(),
        ensures
            final(self).wf(),
            final(self).capacity_spec() == old(self).capacity_spec(),
            r == old(self).send_outcome(),
            r is Ok ==> final(self).view() == old(self).view().push(msg),
            r is Err ==> final(self).view() == old(self).view(),
    {
        if self.is_full() {
            return Err(ChannelError::ChannelFull);
        }
        let len = self.ring.len();
        let w = self.wptr;
        proof {
            assert forall|k: int| 0 <= k < self.pending@.len() implies ring_pos(
                self.rptr as int,
                k,
                len as int,
            ) != w as int by {}
        }
        self.ring.set(w, Some(msg));
        self.wptr = if w + 1 == len {
            0
        } else {
            w + 1
        };
        self.pending = Ghost(self.pending@.push(msg));
        proof {
            let p = self.pending@;
            assert forall|k: int| 0 <= k < p.len() implies #[trigger] self.ring@[ring_pos(
                self.rptr as int,
                k,
                len as int,
            )] == Some(p[k]) by {
                if k < p.len() - 1 {
                    assert(self.ring@[ring_pos(self.rptr as int, k, len as int)] == old(self).ring@[ring_pos(self.rptr as int, k, len as int)]);
                }
            }
        }
        Ok(())
    }

    /// Takes the oldest pending message, if there is one.
    pub fn poll_receive(&mut self) -> (r: Option<T>)
        requires
            old(self).wf(),
        ensures
            final(self).wf(),
            final(self).capacity_spec() == old(self).capacity_spec(),
            old(self).view().len() == 0 ==> r == None::<T> && final(self).view() == old(self).view(),
            old(self).view().len() > 0 ==> r == Some(old(self).view()[0]) && final(self).view()
                == old(self).view().drop_first(),
    {
        if self.wptr == self.rptr {
            return None;
        }
        let len = self.ring.len();
        let rd = self.rptr;
        proof {
            assert(self.ring@[ring_pos(rd as int, 0, len as int)] == Some(self.pending@[0]));
        }
        let slot = self.ring[rd];
        let msg = slot.unwrap();
        self.ring.set(rd, None);
        self.rptr = if rd + 1 == len {
            0
        } else {
            rd + 1
        };
        self.pending = Ghost(self.pending@.drop_first());
        proof {
            let p = self.pending@;
            assert forall|k: int| 0 <= k < p.len() implies #[trigger] self.ring@[ring_pos(
                self.rptr as int,
                k,
                len as int,
            )] == Some(p[k]) by {
                assert(ring_pos(self.rptr as int, k, len as int) == ring_pos(
                    rd as int,
                    k + 1,
                    len as int,
                ));
                assert(old(self).ring@[ring_pos(rd as int, k + 1, len as int)] == Some(
                    old(self).pending@[k + 1],
                ));
            }
        }
        Some(msg)
    }

    /// One step of a blocking send: sends when there is room; otherwise
    /// reports `TimedOut` once `waited` has reached `timeout` and
    /// `ChannelFull` before, so that the caller sleeps and tries again.
    pub fn send_blocking_step(&mut self, msg: T, waited: u64, timeout: u64) -> (r: Result<
        (),
        ChannelError,
    >)
        requires
            old(self).wf(),
        ensures
            final(self).wf(),
            final(self).capacity_spec() == old(self).capacity_spec(),
            old(self).send_outcome() is Ok ==> r is Ok && final(self).view() == old(self).view().push(msg),
            old(self).send_outcome() is Err ==> final(self).view() == old(self).view() && r == (
            if waited >= timeout {
                Err::<(), ChannelError>(ChannelError::TimedOut)
            } else {
                Err::<(), ChannelError>(ChannelError::ChannelFull)
            }),
    {
        match self.send(msg) {
            Ok(()) => Ok(()),
            Err(e) => {
                if waited >= timeout {
                    Err(ChannelError::TimedOut)
                } else {
                    Err(e)
                }
            },
        }
    }
}

/// In every well-formed channel the write index is at most `capacity`
/// slots ahead of the read index, and the distance is the number of pending
/// messages; `new`, `send` and `poll_receive` all keep a channel well formed.
pub proof fn lemma_index_distance_bounded<T: Copy>(c: Channel<T>)
    requires
        c.wf(),
    ensures
        0 <= c.index_distance() <= c.capacity_spec(),
        c.index_distance() == c.view().len(),
{
    c.lemma_distance_bounded();
}

/// A channel filled to capacity refuses one more `send`; once one message
/// has been received from it, the next `send` succeeds. (A channel of
/// capacity zero holds no message to receive.)
pub proof fn lemma_backpressure<T: Copy>(full: Channel<T>, drained: Channel<T>)
    requires
        full.wf(),
        drained.wf(),
        full.capacity_spec() >= 1,
        full.view().len() == full.capacity_spec(),
        drained.capacity_spec() == full.capacity_spec(),
        drained.view() == full.view().drop_first(),
    ensures
        full.send_outcome() == Err::<(), ChannelError>(ChannelError::ChannelFull),
        drained.send_outcome() == Ok::<(), ChannelError>(()),
{
    full.lemma_distance_bounded();
}

} // verus!
