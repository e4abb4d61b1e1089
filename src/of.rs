//! Device-tree nodes and their properties.
//!
//! Reading a node's raw bytes is the platform's job; this module holds
//! what is decided on handles and decoded from bytes.
use vstd::prelude::*;
use crate::error::Error;

verus! {

/// A device-tree node, by its non-zero handle.
#[derive(Clone, Copy, Debug, PartialEq, Eq, Structural)]
pub struct Node {
    pub raw_node: i32,
}

impl Node {
    /// The node with handle `handle`; zero names no node.
    pub fn from_handle(handle: i32) -> (r: Option<Node>)
        ensures
            handle == 0 ==> r is None,
            handle != 0 ==> r == Some(Node { raw_node: handle }),
    {
        if handle == 0 {
            None
        } else {
            Some(Node { raw_node: handle })
        }
    }

    /// The node's handle.
    pub fn handle(&self) -> (r: i32)
        ensures
            r == self.raw_node,
    {
        self.raw_node
    }

    /// The node's children, starting from `first_child`, the handle the
    /// platform gives as the node's first child (zero: none).
    pub fn child(&self, first_child: i32) -> (r: NodeIter)
        ensures
            r.curr_spec() == first_child,
            !r.halted_spec(),
            r.first_spec(),
    {
        NodeIter { curr: first_child, is_halt: false, is_first: true }
    }

    /// The node's parent, from the handle the platform gives (zero: none).
    pub fn parent(&self, parent_handle: i32) -> (r: Option<Node>)
        ensures
            r == (if parent_handle == 0 {
                None
            } else {
                Some(Node { raw_node: parent_handle })
            }),
    {
        Node::from_handle(parent_handle)
    }

    /// Decodes property `found` of this node as a sequence of units;
    /// `NotFound` when the node has no such property.
    pub fn get_property<T: PropertyUnit>(&self, found: Option<Property>) -> (r: Result<
        Vec<T>,
        Error,
    >)
        ensures
            found is None ==> r == Err::<Vec<T>, Error>(Error::NotFound),
            found matches Some(p) ==> units_outcome::<T>(p.view(), r),
    {
        match found {
            Some(p) => p.to_units(),
            None => Err(Error::NotFound),
        }
    }

    /// Decodes property `found` of this node, if the node has it.
    pub fn get_opt_property<T: PropertyUnit>(&self, found: Option<Property>) -> (r: Result<
        Option<Vec<T>>,
        Error,
    >)
        ensures
            found is None ==> r matches Ok(None),
            found matches Some(p) ==> match r {
                Ok(Some(v)) => units_outcome::<T>(p.view(), Ok(v)),
                Ok(None) => false,
                Err(e) => units_outcome::<T>(p.view(), Err(e)),
            },
    {
        match found {
            Some(p) => match p.to_units() {
                Ok(v) => Ok(Some(v)),
                Err(e) => Err(e),
            },
            None => Ok(None),
        }
    }
}

/// Walks the siblings of a first child.
pub struct NodeIter {
    curr: i32,
    is_halt: bool,
    is_first: bool,
}

impl NodeIter {
    pub closed spec fn curr_spec(&self) -> i32 {
        self.curr
    }

    pub closed spec fn halted_spec(&self) -> bool {
        self.is_halt
    }

    pub closed spec fn first_spec(&self) -> bool {
        self.is_first
    }

    /// The handle whose next sibling the platform must look up for the
    /// following call of `next`.
    pub fn current(&self) -> (r: i32)
        ensures
            r == self.curr_spec(),
    {
        self.curr
    }

    /// The next node of the walk. The first call yields the first child;
    /// each later one moves to `peer`, the next sibling of `current()`, and
    /// the walk ends at the first zero handle.
    pub fn next(&mut self, peer: i32) -> (r: Option<Node>)
        ensures
            old(self).halted_spec() ==> r is None && *final(self) == *old(self),
            !old(self).halted_spec() && old(self).first_spec() ==> {
                &&& !final(self).first_spec()
                &&& final(self).curr_spec() == old(self).curr_spec()
                &&& final(self).halted_spec() == (old(self).curr_spec() == 0)
                &&& r == Node::from_handle_spec(old(self).curr_spec())
            },
            !old(self).halted_spec() && !old(self).first_spec() ==> {
                &&& !final(self).first_spec()
                &&& final(self).curr_spec() == peer
                &&& final(self).halted_spec() == (peer == 0)
                &&& r == Node::from_handle_spec(peer)
            },
            (final(self).curr_spec(), final(self).halted_spec(), final(self).first_spec(), r)
                == walk_step(old(self).curr_spec(), old(self).halted_spec(), old(self).first_spec(), peer),
    {
        if self.is_halt {
            None
        } else if self.is_first {
            self.is_first = false;
            if self.curr == 0 {
                self.is_halt = true;
                None
            } else {
                Some(Node { raw_node: self.curr })
            }
        } else {
            self.curr = peer;
            self.is_halt = peer == 0;
            Node::from_handle(peer)
        }
    }
}

impl Node {
    pub open spec fn from_handle_spec(handle: i32) -> Option<Node> {
        if handle == 0 {
            None
        } else {
            Some(Node { raw_node: handle })
        }
    }
}

/// One call of `NodeIter::next` on the state `(curr, halted, first)` with
/// `peer` as the next sibling: the new state and the node yielded.
pub open spec fn walk_step(curr: i32, halted: bool, first: bool, peer: i32) -> (
    i32,
    bool,
    bool,
    Option<Node>,
) {
    if halted {
        (curr, halted, first, None)
    } else if first {
        (curr, curr == 0, false, Node::from_handle_spec(curr))
    } else {
        (peer, peer == 0, false, Node::from_handle_spec(peer))
    }
}

/// What successive calls of `next` yield from state `(curr, halted, first)`
/// when the platform hands them `peers`, in order.
pub open spec fn walk(curr: i32, halted: bool, first: bool, peers: Seq<i32>) -> Seq<Option<Node>>
    decreases peers.len(),
{
    if peers.len() == 0 {
        Seq::empty()
    } else {
        let (c, h, f, o) = walk_step(curr, halted, first, peers[0]);
        seq![o] + walk(c, h, f, peers.drop_first())
    }
}

/// The nodes of `handles`, in order.
pub open spec fn nodes_of(handles: Seq<i32>) -> Seq<Option<Node>> {
    handles.map_values(|h: i32| Some(Node { raw_node: h }))
}

proof fn lemma_walk_rest(c: i32, xs: Seq<i32>)
    requires
        forall|j: int| 0 <= j < xs.len() ==> xs[j] != 0,
    ensures
        walk(c, false, false, xs.push(0)) == nodes_of(xs).push(None),
    decreases xs.len(),
{
    if xs.len() == 0 {
        assert(walk(0, true, false, Seq::<i32>::empty()) == Seq::<Option<Node>>::empty());
        assert(seq![0i32].drop_first() =~= Seq::<i32>::empty());
        assert(walk_step(c, false, false, 0) == (0i32, true, false, None::<Node>));
        assert(walk(c, false, false, seq![0i32]) =~= seq![None::<Node>]);
        assert(xs.push(0) =~= seq![0i32]);
        assert(nodes_of(xs).push(None) =~= seq![None::<Node>]);
    } else {
        let ys = xs.drop_first();
        lemma_walk_rest(xs[0], ys);
        assert(xs.push(0).drop_first() =~= ys.push(0));
        assert(nodes_of(xs).push(None) =~= seq![Some(Node { raw_node: xs[0] })] + nodes_of(
            ys,
        ).push(None));
    }
}

/// Walking the children of a node yields its first child, then each next
/// sibling the platform reports, in that order, and ends at the first zero
/// handle: none is skipped, repeated or reordered. The first call needs no
/// sibling, so `ignored` stands for whatever is handed to it.
pub proof fn lemma_children_in_order(first_child: i32, ignored: i32, siblings: Seq<i32>)
    requires
        first_child != 0,
        forall|j: int| 0 <= j < siblings.len() ==> siblings[j] != 0,
    ensures
        walk(first_child, false, true, seq![ignored] + siblings.push(0)) == seq![
            Some(Node { raw_node: first_child }),
        ] + nodes_of(siblings).push(None),
{
    lemma_walk_rest(first_child, siblings);
    assert((seq![ignored] + siblings.push(0)).drop_first() =~= siblings.push(0));
}

/// A node without children yields nothing.
pub proof fn lemma_no_children(peer: i32)
    ensures
        walk(0, false, true, seq![peer]) == seq![None::<Node>],
{
    assert(walk(0, true, false, Seq::<i32>::empty()) == Seq::<Option<Node>>::empty());
    assert(seq![peer].drop_first() =~= Seq::<i32>::empty());
    assert(walk_step(0, false, true, peer) == (0i32, true, false, None::<Node>));
    assert(walk(0, false, true, seq![peer]) =~= seq![None::<Node>]);
}

/// The raw bytes of a property.
pub struct Property {
    value: Vec<u8>,
}

/// A fixed-size integer that a property holds in big-endian order.
pub trait PropertyUnit: Sized {
    /// Bytes per unit.
    spec fn unit_size_spec() -> nat;

    /// The unit that `data`, `unit_size_spec()` bytes, encodes.
    spec fn decode_spec(data: Seq<u8>) -> Self;

    fn unit_size() -> (r: usize)
        ensures
            r == Self::unit_size_spec(),
            1 <= r <= 8;

    /// Decodes exactly one unit; other lengths are `InvalidArgument`.
    fn from_bytes(data: &[u8]) -> (r: Result<Self, Error>)
        ensures
            data@.len() == Self::unit_size_spec() ==> r == Ok::<Self, Error>(
                Self::decode_spec(data@),
            ),
            data@.len() != Self::unit_size_spec() ==> r == Err::<Self, Error>(
                Error::InvalidArgument,
            );
}

/// The value of big-endian bytes `s`, kept to 64 bits.
pub open spec fn be_u64(s: Seq<u8>) -> u64
    decreases s.len(),
{
    if s.len() == 0 {
        0
    } else {
        ((be_u64(s.drop_last()) << 8u64) | (s.last() as u64)) as u64
    }
}

/// Big-endian value of `data`, of at most eight bytes.
pub fn read_be(data: &[u8]) -> (r: u64)
    ensures
        r == be_u64(data@),
{
    let mut v: u64 = 0;
    let mut i: usize = 0;
    while i < data.len()
        invariant
            i <= data@.len(),
            v == be_u64(data@.subrange(0, i as int)),
        decreases data@.len() - i,
    {
        proof {
            assert(data@.subrange(0, i + 1).drop_last() =~= data@.subrange(0, i as int));
        }
        v = (v << 8u64) | (data[i] as u64);
        i = i + 1;
    }
    assert(data@.subrange(0, data@.len() as int) =~= data@);
    v
}

/// Whether `r` is what decoding a property of bytes `value` into units of
/// `T` gives: `InvalidArgument` unless the length is a multiple of the unit,
/// else each unit decoded in order.
pub open spec fn units_outcome<T: PropertyUnit>(value: Seq<u8>, r: Result<Vec<T>, Error>) -> bool {
    let u = T::unit_size_spec();
    if value.len() % u != 0 {
        r == Err::<Vec<T>, Error>(Error::InvalidArgument)
    } else {
        r matches Ok(v) && v@.len() == value.len() / u && forall|k: int|
            0 <= k < v@.len() ==> #[trigger] v@[k] == T::decode_spec(
                value.subrange(k * u, k * u + u),
            )
    }
}

impl Property {
    /// The property's bytes.
    pub closed spec fn view(&self) -> Seq<u8> {
        self.value@
    }

    /// The property holding `data`.
    pub fn from_vec(data: Vec<u8>) -> (r: Self)
        ensures
            r.view() == data@,
    {
        Property { value: data }
    }

    /// Number of bytes.
    pub fn len(&self) -> (r: usize)
        ensures
            r == self.view().len(),
    {
        self.value.len()
    }

    /// The bytes.
    pub fn value(&self) -> (r: &[u8])
        ensures
            r@ == self.view(),
    {
        self.value.as_slice()
    }

    /// The property read as one unit; `InvalidArgument` unless it is exactly
    /// one unit long.
    pub fn to_value<T: PropertyUnit>(&self) -> (r: Result<T, Error>)
        ensures
            self.view().len() == T::unit_size_spec() ==> r == Ok::<T, Error>(
                T::decode_spec(self.view()),
            ),
            self.view().len() != T::unit_size_spec() ==> r == Err::<T, Error>(
                Error::InvalidArgument,
            ),
    {
        T::from_bytes(self.value.as_slice())
    }

    /// The property read as a sequence of units.
    pub fn to_units<T: PropertyUnit>(&self) -> (r: Result<Vec<T>, Error>)
        ensures
            units_outcome::<T>(self.view(), r),
    {
        let u = T::unit_size();
        let n = self.value.len();
        if n % u != 0 {
            return Err(Error::InvalidArgument);
        }
        let mut out: Vec<T> = Vec::new();
        let mut i: usize = 0;
        let mut k: usize = 0;
        while i < n
            invariant
                n == self.value@.len(),
                u == T::unit_size_spec(),
                1 <= u <= 8,
                n % u == 0,
                i == k * u,
                i <= n,
                out@.len() == k,
                forall|j: int|
                    0 <= j < k ==> #[trigger] out@[j] == T::decode_spec(
                        self.value@.subrange(j * u, j * u + u),
                    ),
            decreases n - i,
        {
            assert(i + u <= n) by (nonlinear_arith)
                requires
                    i == k * u,
                    i < n,
                    n % u == 0,
                    u >= 1,
            {
                assert(n == (n / u) * u);
                assert(k < n / u) by {
                    if k >= n / u {
                        assert(k * u >= (n / u) * u);
                    }
                }
                assert((k + 1) * u <= (n / u) * u);
            }
            let unit = vstd::slice::slice_subrange(self.value.as_slice(), i, i + u);
            let x = T::from_bytes(unit);
            match x {
                Ok(val) => out.push(val),
                Err(e) => return Err(e),
            }
            proof {
                assert((k + 1) * u == k * u + u) by (nonlinear_arith);
                assert(k + 1 <= i + u) by (nonlinear_arith)
                    requires
                        i == k * u,
                        u >= 1,
                ;
            }
            i = i + u;
            k = k + 1;
        }
        proof {
            assert(k == n / u) by (nonlinear_arith)
                requires
                    i == k * u,
                    i == n,
                    u >= 1,
            ;
        }
        Ok(out)
    }
}

impl PropertyUnit for u8 {
    open spec fn unit_size_spec() -> nat {
        1
    }

    open spec fn decode_spec(data: Seq<u8>) -> u8 {
        be_u64(data) as u8
    }

    fn unit_size() -> (r: usize) {
        1
    }

    fn from_bytes(data: &[u8]) -> (r: Result<u8, Error>) {
        if data.len() != 1 {
            return Err(Error::InvalidArgument);
        }
        Ok(read_be(data) as u8)
    }
}

impl PropertyUnit for u16 {
    open spec fn unit_size_spec() -> nat {
        2
    }

    open spec fn decode_spec(data: Seq<u8>) -> u16 {
        be_u64(data) as u16
    }

    fn unit_size() -> (r: usize) {
        2
    }

    fn from_bytes(data: &[u8]) -> (r: Result<u16, Error>) {
        if data.len() != 2 {
            return Err(Error::InvalidArgument);
        }
        Ok(read_be(data) as u16)
    }
}

impl PropertyUnit for u32 {
    open spec fn unit_size_spec() -> nat {
        4
    }

    open spec fn decode_spec(data: Seq<u8>) -> u32 {
        be_u64(data) as u32
    }

    fn unit_size() -> (r: usize) {
        4
    }

    fn from_bytes(data: &[u8]) -> (r: Result<u32, Error>) {
        if data.len() != 4 {
            return Err(Error::InvalidArgument);
        }
        Ok(read_be(data) as u32)
    }
}

impl PropertyUnit for u64 {
    open spec fn unit_size_spec() -> nat {
        8
    }

    open spec fn decode_spec(data: Seq<u8>) -> u64 {
        be_u64(data) as u64
    }

    fn unit_size() -> (r: usize) {
        8
    }

    fn from_bytes(data: &[u8]) -> (r: Result<u64, Error>) {
        if data.len() != 8 {
            return Err(Error::InvalidArgument);
        }
        Ok(read_be(data) as u64)
    }
}

impl PropertyUnit for i8 {
    open spec fn unit_size_spec() -> nat {
        1
    }

    open spec fn decode_spec(data: Seq<u8>) -> i8 {
        be_u64(data) as u8 as i8
    }

    fn unit_size() -> (r: usize) {
        1
    }

    fn from_bytes(data: &[u8]) -> (r: Result<i8, Error>) {
        if data.len() != 1 {
            return Err(Error::InvalidArgument);
        }
        Ok(read_be(data) as u8 as i8)
    }
}

impl PropertyUnit for i16 {
    open spec fn unit_size_spec() -> nat {
        2
    }

    open spec fn decode_spec(data: Seq<u8>) -> i16 {
        be_u64(data) as u16 as i16
    }

    fn unit_size() -> (r: usize) {
        2
    }

    fn from_bytes(data: &[u8]) -> (r: Result<i16, Error>) {
        if data.len() != 2 {
            return Err(Error::InvalidArgument);
        }
        Ok(read_be(data) as u16 as i16)
    }
}

impl PropertyUnit for i32 {
    open spec fn unit_size_spec() -> nat {
        4
    }

    open spec fn decode_spec(data: Seq<u8>) -> i32 {
        be_u64(data) as u32 as i32
    }

    fn unit_size() -> (r: usize) {
        4
    }

    fn from_bytes(data: &[u8]) -> (r: Result<i32, Error>) {
        if data.len() != 4 {
            return Err(Error::InvalidArgument);
        }
        Ok(read_be(data) as u32 as i32)
    }
}

impl PropertyUnit for i64 {
    open spec fn unit_size_spec() -> nat {
        8
    }

    open spec fn decode_spec(data: Seq<u8>) -> i64 {
        be_u64(data) as u64 as i64
    }

    fn unit_size() -> (r: usize) {
        8
    }

    fn from_bytes(data: &[u8]) -> (r: Result<i64, Error>) {
        if data.len() != 8 {
            return Err(Error::InvalidArgument);
        }
        Ok(read_be(data) as u64 as i64)
    }
}

} // verus!
