//! Memory-mapped IO windows: the resource a window maps and the bounds
//! checks on every access through it.
use vstd::prelude::*;
use crate::error::Error;

verus! {

/// The type of a `Resource`.
#[derive(Clone, Copy, Debug, PartialEq, Eq, Structural)]
pub enum IoResource {
    /// IO memory.
    Mem,
}

/// A physical memory range `[offset, offset + size)` of a device.
#[derive(Clone, Copy, Debug, PartialEq, Eq, Structural)]
pub struct Resource {
    offset: u64,
    size: u64,
    flags: u64,
}

impl Resource {
    pub closed spec fn offset_spec(&self) -> u64 {
        self.offset
    }

    pub closed spec fn size_spec(&self) -> u64 {
        self.size
    }

    pub closed spec fn flags_spec(&self) -> u64 {
        self.flags
    }

    /// The range from `start` to `end` inclusive; `None` when `start` is
    /// zero, `end` is below `start`, or the size does not fit 64 bits.
    pub fn new(start: u64, end: u64, flags: u64) -> (r: Option<Self>)
        ensures
            start == 0 || end < start || end - start + 1 > u64::MAX ==> r is None,
            start != 0 && start <= end && end - start + 1 <= u64::MAX ==> (r matches Some(res)
                && res.offset_spec() == start && res.size_spec() == end - start + 1
                && res.flags_spec() == flags),
    {
        if start == 0 {
            return None;
        }
        let diff = match end.checked_sub(start) {
            Some(d) => d,
            None => return None,
        };
        let size = match diff.checked_add(1) {
            Some(s) => s,
            None => return None,
        };
        Some(Resource { offset: start, size, flags })
    }

    /// Start of the range.
    pub fn offset(&self) -> (r: u64)
        ensures
            r == self.offset_spec(),
    {
        self.offset
    }

    /// Length of the range in bytes.
    pub fn size(&self) -> (r: u64)
        ensures
            r == self.size_spec(),
    {
        self.size
    }
}

/// A mapped window of at least `SIZE` bytes of a resource, at the virtual
/// address `ptr`: non-zero, and 8-byte aligned in physical memory.
pub struct IoMem<const SIZE: usize> {
    ptr: usize,
    res: Resource,
}

/// Whether an access of `len` bytes at `offset`, aligned to `align`, stays
/// inside a window of `size` bytes.
pub open spec fn access_ok(offset: usize, len: nat, align: nat, size: nat) -> bool {
    offset + len <= size && (offset as int) % (align as int) == 0
}

impl<const SIZE: usize> IoMem<SIZE> {
    pub closed spec fn ptr_spec(&self) -> usize {
        self.ptr
    }

    pub closed spec fn res_spec(&self) -> Resource {
        self.res
    }

    /// What `try_new` decides for `res` mapped at `vaddr`.
    pub open spec fn new_outcome(res: Resource, vaddr: usize) -> Result<(), Error> {
        if (res.size_spec() as int) < SIZE as int {
            Err(Error::InvalidArgument)
        } else if res.offset_spec() % 8 != 0 {
            Err(Error::OutOfDomain)
        } else if vaddr == 0 {
            Err(Error::OutOfMemory)
        } else {
            Ok(())
        }
    }

    /// The checks made before a resource is mapped: it must hold `SIZE`
    /// bytes (`InvalidArgument`) and start 8-byte aligned (`OutOfDomain`).
    pub fn check_resource(res: &Resource) -> (r: Result<(), Error>)
        ensures
            r == Self::new_outcome(*res, 1),
    {
        if (res.size as u128) < (SIZE as u128) {
            return Err(Error::InvalidArgument);
        }
        if res.offset % 8 != 0 {
            return Err(Error::OutOfDomain);
        }
        Ok(())
    }

    /// The window of `res` once it is mapped at `vaddr`; a zero address
    /// means the mapping failed (`OutOfMemory`).
    pub fn try_new(res: Resource, vaddr: usize) -> (r: Result<Self, Error>)
        ensures
            Self::new_outcome(res, vaddr) is Err ==> r == Err::<Self, Error>(
                Self::new_outcome(res, vaddr)->Err_0,
            ),
            Self::new_outcome(res, vaddr) is Ok ==> (r matches Ok(m) && m.ptr_spec() == vaddr
                && m.res_spec() == res),
    {
        Self::check_resource(&res)?;
        if vaddr == 0 {
            return Err(Error::OutOfMemory);
        }
        Ok(IoMem { ptr: vaddr, res })
    }

    /// Whether an access to a `T` at `offset` stays inside the window and
    /// is aligned to the size of `T`.
    pub fn offset_ok<T>(offset: usize) -> (r: bool)
        requires
            vstd::layout::size_of::<T>() > 0,
        ensures
            r == access_ok(
                offset,
                vstd::layout::size_of::<T>(),
                vstd::layout::size_of::<T>(),
                SIZE as nat,
            ),
    {
        let type_size = core::mem::size_of::<T>();
        match offset.checked_add(type_size) {
            Some(end) => end <= SIZE && offset % type_size == 0,
            None => false,
        }
    }

    /// Whether the bytes of `value`, copied to or from `offset`, stay
    /// inside the window.
    pub fn offset_ok_of_val(offset: usize, value: &[u8]) -> (r: bool)
        ensures
            r == access_ok(offset, value@.len(), 1, SIZE as nat),
    {
        match offset.checked_add(value.len()) {
            Some(end) => end <= SIZE,
            None => false,
        }
    }

    /// Stands for an access to a `T` at `offset` that is known to be in
    /// bounds: callers must show it.
    pub fn check_offset<T>(offset: usize)
        requires
            vstd::layout::size_of::<T>() > 0,
            access_ok(
                offset,
                vstd::layout::size_of::<T>(),
                vstd::layout::size_of::<T>(),
                SIZE as nat,
            ),
    {
    }

    /// The resource the window maps.
    pub fn resource(&self) -> (r: &Resource)
        ensures
            *r == self.res_spec(),
    {
        &self.res
    }

    /// The virtual address of the window.
    pub fn vaddr(&self) -> (r: usize)
        ensures
            r == self.ptr_spec(),
    {
        self.ptr
    }
}

} // verus!
