//! Microsequences: linear scripts of fixed-size micro-operations that
//! firmware runs to step a job through its states.
//!
//! Every operation is 16 bytes: its opcode byte, three zero bytes, a 32-bit
//! operand and a 64-bit operand, both little-endian.
use vstd::prelude::*;
use crate::event::EventTable;
use crate::slotalloc::Slot;

verus! {

/// One micro-operation.
#[derive(Clone, Copy, Debug, PartialEq, Eq, Structural)]
pub enum MicroOp {
    /// Writes `value` to the GPU register at `addr`.
    RegWrite { addr: u64, value: u32 },
    /// Waits until the event `event` is signalled.
    WaitEvent { event: Slot },
    /// Continues at the operation with index `target`.
    Jump { target: u32 },
    /// Stores the GPU timestamp at `addr`.
    Timestamp { addr: u64 },
}

/// Why a sequence could not be encoded; `at` is the operation's index.
#[derive(Clone, Copy, Debug, PartialEq, Eq, Structural)]
pub enum EncodeError {
    /// The operation waits on an event that is not live, or whose slot does
    /// not fit the operand.
    DanglingEvent { at: usize },
    /// The operation jumps past the end of the sequence.
    BadJump { at: usize },
}

pub const OP_REG_WRITE: u8 = 1;

pub const OP_WAIT_EVENT: u8 = 2;

pub const OP_JUMP: u8 = 3;

pub const OP_TIMESTAMP: u8 = 4;

/// Size in bytes of one encoded operation.
pub const OP_SIZE: usize = 16;

/// The little-endian bytes of `v`.
pub open spec fn le32(v: u32) -> Seq<u8> {
    seq![
        (v & 0xff) as u8,
        ((v >> 8u32) & 0xff) as u8,
        ((v >> 16u32) & 0xff) as u8,
        ((v >> 24u32) & 0xff) as u8,
    ]
}

/// The little-endian bytes of `v`.
pub open spec fn le64(v: u64) -> Seq<u8> {
    le32((v & 0xffff_ffff) as u32) + le32((v >> 32u64) as u32)
}

/// One operation in the wire format.
pub open spec fn op_bytes(opcode: u8, a: u32, b: u64) -> Seq<u8> {
    seq![opcode, 0u8, 0u8, 0u8] + le32(a) + le64(b)
}

pub open spec fn encode_op(op: MicroOp) -> Seq<u8> {
    match op {
        MicroOp::RegWrite { addr, value } => op_bytes(OP_REG_WRITE, value, addr),
        MicroOp::WaitEvent { event } => op_bytes(OP_WAIT_EVENT, event.index as u32, 0),
        MicroOp::Jump { target } => op_bytes(OP_JUMP, target, 0),
        MicroOp::Timestamp { addr } => op_bytes(OP_TIMESTAMP, 0, addr),
    }
}

/// The encoding of a whole sequence: its operations' encodings in order.
pub open spec fn encode_all(ops: Seq<MicroOp>) -> Seq<u8>
    decreases ops.len(),
{
    if ops.len() == 0 {
        Seq::empty()
    } else {
        encode_all(ops.drop_last()) + encode_op(ops.last())
    }
}

/// Why the operation `op` at index `at` of a sequence of `n` operations
/// cannot be encoded, if it cannot.
pub open spec fn op_error(op: MicroOp, at: usize, n: nat, events: EventTable) -> Option<
    EncodeError,
> {
    match op {
        MicroOp::WaitEvent { event } => if !events.slots_spec().is_live(event) || event.index
            > u32::MAX {
            Some(EncodeError::DanglingEvent { at })
        } else {
            None
        },
        MicroOp::Jump { target } => if target >= n {
            Some(EncodeError::BadJump { at })
        } else {
            None
        },
        _ => None,
    }
}

/// The first error among the operations from index `from` on.
pub open spec fn first_error(ops: Seq<MicroOp>, from: int, events: EventTable) -> Option<
    EncodeError,
>
    decreases ops.len() - from,
{
    if from < 0 || from >= ops.len() {
        None
    } else {
        match op_error(ops[from], from as usize, ops.len(), events) {
            Some(e) => Some(e),
            None => first_error(ops, from + 1, events),
        }
    }
}

/// What building `ops` against `events` gives.
pub open spec fn build_outcome(ops: Seq<MicroOp>, events: EventTable) -> Result<
    Seq<u8>,
    EncodeError,
> {
    match first_error(ops, 0, events) {
        Some(e) => Err(e),
        None => Ok(encode_all(ops)),
    }
}

fn push_le32(out: &mut Vec<u8>, v: u32)
    ensures
        final(out)@ == old(out)@ + le32(v),
{
    out.push((v & 0xff) as u8);
    out.push(((v >> 8u32) & 0xff) as u8);
    out.push(((v >> 16u32) & 0xff) as u8);
    out.push(((v >> 24u32) & 0xff) as u8);
    assert(final(out)@ =~= old(out)@ + le32(v));
}

fn push_op(out: &mut Vec<u8>, opcode: u8, a: u32, b: u64)
    ensures
        final(out)@ == old(out)@ + op_bytes(opcode, a, b),
{
    out.push(opcode);
    out.push(0);
    out.push(0);
    out.push(0);
    push_le32(out, a);
    push_le32(out, (b & 0xffff_ffff) as u32);
    push_le32(out, (b >> 32u64) as u32);
    assert(final(out)@ =~= old(out)@ + op_bytes(opcode, a, b));
}

/// Appends the encoding of `op` to `out`.
pub fn encode_into(out: &mut Vec<u8>, op: MicroOp)
    ensures
        final(out)@ == old(out)@ + encode_op(op),
{
    match op {
        MicroOp::RegWrite { addr, value } => push_op(out, OP_REG_WRITE, value, addr),
        MicroOp::WaitEvent { event } => push_op(out, OP_WAIT_EVENT, event.index as u32, 0),
        MicroOp::Jump { target } => push_op(out, OP_JUMP, target, 0),
        MicroOp::Timestamp { addr } => push_op(out, OP_TIMESTAMP, 0, addr),
    }
}

/// A sequence under construction.
pub struct MicroSequenceBuilder {
    ops: Vec<MicroOp>,
}

impl MicroSequenceBuilder {
    /// The operations added so far, in order.
    pub closed spec fn view(&self) -> Seq<MicroOp> {
        self.ops@
    }

    /// An empty sequence.
    pub fn new() -> (r: Self)
        ensures
            r.view() == Seq::<MicroOp>::empty(),
    {
        MicroSequenceBuilder { ops: Vec::new() }
    }

    /// Appends `op`; returns its index, the target a `Jump` to it names.
    pub fn add(&mut self, op: MicroOp) -> (r: usize)
        requires
            old(self).view().len() < usize::MAX,
        ensures
            final(self).view() == old(self).view().push(op),
            r == old(self).view().len(),
    {
        let at = self.ops.len();
        self.ops.push(op);
        at
    }

    /// How many operations have been added.
    pub fn len(&self) -> (r: usize)
        ensures
            r == self.view().len(),
    {
        self.ops.len()
    }

    /// Checks every operation against `events` and the sequence's length,
    /// then encodes the sequence; the first operation that names a dead
    /// event or jumps past the end is the error.
    pub fn build(&self, events: &EventTable) -> (r: Result<Vec<u8>, EncodeError>)
        requires
            events.wf(),
        ensures
            match build_outcome(self.view(), *events) {
                Ok(bytes) => r matches Ok(v) && v@ == bytes,
                Err(e) => r == Err::<Vec<u8>, EncodeError>(e),
            },
    {
        let n = self.ops.len();
        let mut i: usize = 0;
        while i < n
            invariant
                n == self.ops@.len(),
                i <= n,
                events.wf(),
                first_error(self.ops@, 0, *events) == first_error(self.ops@, i as int, *events),
            decreases n - i,
        {
            let op = self.ops[i];
            match op {
                MicroOp::WaitEvent { event } => {
                    if !events.is_live(event) || event.index > u32::MAX as usize {
                        return Err(EncodeError::DanglingEvent { at: i });
                    }
                },
                MicroOp::Jump { target } => {
                    if target as usize >= n {
                        return Err(EncodeError::BadJump { at: i });
                    }
                },
                _ => {},
            }
            i = i + 1;
        }
        let mut out: Vec<u8> = Vec::new();
        let mut k: usize = 0;
        while k < n
            invariant
                n == self.ops@.len(),
                k <= n,
                out@ == encode_all(self.ops@.subrange(0, k as int)),
            decreases n - k,
        {
            encode_into(&mut out, self.ops[k]);
            proof {
                let s = self.ops@.subrange(0, k + 1);
                assert(s.drop_last() =~= self.ops@.subrange(0, k as int));
            }
            k = k + 1;
        }
        assert(self.ops@.subrange(0, n as int) =~= self.ops@);
        Ok(out)
    }
}

proof fn lemma_encode_len(ops: Seq<MicroOp>)
    ensures
        encode_all(ops).len() == OP_SIZE * ops.len(),
    decreases ops.len(),
{
    if ops.len() > 0 {
        lemma_encode_len(ops.drop_last());
    }
}

/// Building the same operations against the same events twice gives the
/// same result, byte for byte; a built sequence is 16 bytes per operation.
pub proof fn lemma_encode_deterministic(
    a: MicroSequenceBuilder,
    b: MicroSequenceBuilder,
    events: EventTable,
)
    requires
        a.view() == b.view(),
    ensures
        build_outcome(a.view(), events) == build_outcome(b.view(), events),
        build_outcome(a.view(), events) matches Ok(bytes) ==> bytes.len() == OP_SIZE * a.view().len(),
{
    lemma_encode_len(a.view());
}

} // verus!
