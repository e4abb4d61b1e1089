//! Platform devices: which of a device's resources have been claimed.
use vstd::prelude::*;
use crate::error::Error;
use crate::io_mem::{IoMem, Resource};

verus! {

/// A platform device, as far as claiming its resources goes: bit `k` of
/// the mask is set once resource `k` has been handed out.
pub struct Device {
    used_resource: u64,
}

/// Whether bit `index` of `mask` is set.
pub open spec fn bit_set(mask: u64, index: u64) -> bool {
    (mask >> index) & 1 == 1
}

/// Whether `[start, end]` is a valid resource range.
pub open spec fn valid_range(start: u64, end: u64) -> bool {
    start != 0 && start <= end && end - start + 1 <= u64::MAX
}

/// What claiming resource `index` at `[start, end]` for a window of
/// `size` bytes gives on a device with claim mask `mask`, before anything is
/// mapped.
pub open spec fn claim_outcome(mask: u64, index: u64, start: u64, end: u64, size: usize) -> Result<
    (),
    Error,
> {
    if bit_set(mask, index) {
        Err(Error::Busy)
    } else if !valid_range(start, end) {
        Err(Error::InvalidArgument)
    } else if end - start + 1 < size {
        Err(Error::InvalidArgument)
    } else if start % 8 != 0 {
        Err(Error::OutOfDomain)
    } else {
        Ok(())
    }
}

impl Device {
    pub closed spec fn used_mask(&self) -> u64 {
        self.used_resource
    }

    /// A device none of whose resources is claimed yet.
    pub fn new() -> (r: Self)
        ensures
            r.used_mask() == 0,
    {
        Device { used_resource: 0 }
    }

    /// Sets the DMA masks (normal and coherent); the platform takes any mask.
    pub fn set_dma_masks(&mut self, mask: u64) -> (r: Result<(), Error>)
        ensures
            r == Ok::<(), Error>(()),
            final(self).used_mask() == old(self).used_mask(),
    {
        Ok(())
    }

    /// Claims resource `index`, found at `[start, end]`: `Busy` if it was
    /// claimed before, `InvalidArgument` if the range is not a valid
    /// resource; a refused claim leaves the mask as it was.
    pub fn get_resource(&mut self, index: u64, start: u64, end: u64) -> (r: Result<
        Resource,
        Error,
    >)
        requires
            index < 64,
        ensures
            bit_set(old(self).used_mask(), index) ==> r == Err::<Resource, Error>(Error::Busy)
                && final(self).used_mask() == old(self).used_mask(),
            !bit_set(old(self).used_mask(), index) ==> final(self).used_mask() == old(
                self).used_mask() | (1u64 << index),
            !bit_set(old(self).used_mask(), index) && (start == 0 || end < start) ==> r == Err::<
                Resource,
                Error,
            >(Error::InvalidArgument),
            !bit_set(old(self).used_mask(), index) && start != 0 && start <= end && end - start
                + 1 <= u64::MAX ==> (r matches Ok(res) && res.offset_spec() == start
                && res.size_spec() == end - start + 1 && res.flags_spec() == 0),
            !bit_set(old(self).used_mask(), index) && start != 0 && start <= end && end - start
                + 1 > u64::MAX ==> r == Err::<Resource, Error>(Error::InvalidArgument),
    {
        if (self.used_resource >> index) & 1 == 1 {
            return Err(Error::Busy);
        }
        self.used_resource = self.used_resource | (1u64 << index);
        match Resource::new(start, end, 0) {
            Some(res) => Ok(res),
            None => Err(Error::InvalidArgument),
        }
    }

    /// First step of mapping memory resource `index`, found at `[start,
    /// end]`, as a window of `SIZE` bytes: claims it and checks it, before
    /// anything is mapped. A resource the checks refuse is given back (the
    /// mask is restored); a range that is not a resource at all stays
    /// marked, as `get_resource` leaves it.
    pub fn claim_io_resource<const SIZE: usize>(
        &mut self,
        index: u64,
        start: u64,
        end: u64,
    ) -> (r: Result<Resource, Error>)
        requires
            index < 64,
        ensures
            r is Ok || (!bit_set(old(self).used_mask(), index) && !valid_range(start, end))
                ==> final(self).used_mask() == old(self).used_mask() | (1u64 << index),
            r is Err && (bit_set(old(self).used_mask(), index) || valid_range(start, end))
                ==> final(self).used_mask() == old(self).used_mask(),
            match claim_outcome(old(self).used_mask(), index, start, end, SIZE) {
                Ok(()) => r matches Ok(res) && res.offset_spec() == start && res.size_spec() == end
                    - start + 1 && res.flags_spec() == 0,
                Err(e) => r == Err::<Resource, Error>(e),
            },
    {
        let mask = self.used_resource;
        let res = self.get_resource(index, start, end)?;
        match IoMem::<SIZE>::check_resource(&res) {
            Ok(()) => Ok(res),
            Err(e) => {
                self.used_resource = mask;
                Err(e)
            },
        }
    }

    /// Second step: the window of `res`, claimed as resource `index`, once
    /// it is mapped at `vaddr`. A zero address means the mapping failed
    /// (`OutOfMemory`); the claim is then given back.
    pub fn ioremap_resource<const SIZE: usize>(
        &mut self,
        index: u64,
        res: Resource,
        vaddr: usize,
    ) -> (r: Result<IoMem<SIZE>, Error>)
        requires
            index < 64,
        ensures
            r is Ok ==> final(self).used_mask() == old(self).used_mask(),
            r is Err ==> final(self).used_mask() == old(self).used_mask() & !(1u64 << index),
            match IoMem::<SIZE>::new_outcome(res, vaddr) {
                Ok(()) => r matches Ok(m) && m.ptr_spec() == vaddr && m.res_spec() == res,
                Err(e) => r == Err::<IoMem<SIZE>, Error>(e),
            },
    {
        let iomem = IoMem::<SIZE>::try_new(res, vaddr);
        if iomem.is_err() {
            self.used_resource = self.used_resource & !(1u64 << index);
        }
        iomem
    }
}

/// Giving a claim back clears its own bit and keeps every other bit: after
/// a claim and its release the mask is as before the claim.
pub proof fn lemma_release_restores(mask: u64, index: u64, other: u64)
    requires
        index < 64,
        other < 64,
    ensures
        !bit_set(mask, index) ==> (mask | (1u64 << index)) & !(1u64 << index) == mask,
        other != index ==> (bit_set(mask & !(1u64 << index), other) <==> bit_set(mask, other)),
        !bit_set(mask & !(1u64 << index), index),
{
    assert((mask >> index) & 1 != 1 ==> (mask | (1u64 << index)) & !(1u64 << index) == mask)
        by (bit_vector)
        requires
            index < 64,
    ;
    assert(other != index ==> ((((mask & !(1u64 << index)) >> other) & 1 == 1) <==> ((mask
        >> other) & 1 == 1))) by (bit_vector)
        requires
            index < 64,
            other < 64,
    ;
    assert(((mask & !(1u64 << index)) >> index) & 1 != 1) by (bit_vector)
        requires
            index < 64,
    ;
}

/// A claim sets its own bit and keeps every bit already set: a resource
/// that was claimed, this one included, is refused as `Busy` from then on,
/// and two resources held at once never share an index.
pub proof fn lemma_claim_keeps_claims(mask: u64, index: u64, other: u64)
    requires
        index < 64,
        other < 64,
    ensures
        bit_set(mask | (1u64 << index), index),
        bit_set(mask, other) ==> bit_set(mask | (1u64 << index), other),
        !bit_set(mask, other) && other != index ==> !bit_set(mask | (1u64 << index), other),
{
    assert(((mask | (1u64 << index)) >> index) & 1 == 1) by (bit_vector)
        requires
            index < 64,
    ;
    assert((mask >> other) & 1 == 1 ==> ((mask | (1u64 << index)) >> other) & 1 == 1)
        by (bit_vector)
        requires
            index < 64,
            other < 64,
    ;
    assert((mask >> other) & 1 != 1 && other != index ==> ((mask | (1u64 << index)) >> other) & 1
        != 1) by (bit_vector)
        requires
            index < 64,
            other < 64,
    ;
}

} // verus!
