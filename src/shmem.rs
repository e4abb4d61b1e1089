//! Shared-memory objects: memory that both the CPU and the GPU see, given a
//! stable IOVA in an address space for as long as its owner keeps it.
//!
//! The backing pages and their CPU mapping come from the buffer-object
//! layer; this module places them in the IOVA space and takes them out.
use vstd::prelude::*;
use crate::io_pgtable::{IoPageTableInner, Mapping, MmuError, PROT_READ, PROT_WRITE, remove_within};

verus! {

/// Page size of shared-memory mappings: 16 KiB.
pub const SHMEM_PAGE: u64 = 0x4000;

/// Why an object could not be created or destroyed.
#[derive(Clone, Copy, Debug, PartialEq, Eq, Structural)]
pub enum AllocError {
    /// An object of zero bytes was asked for.
    ZeroSize,
    /// The size, rounded up to whole pages, does not fit 64 bits.
    TooLarge,
    /// The address space refused the mapping (or, on destruction, holds no
    /// mapping of the object).
    Mapping(MmuError),
    /// Firmware still holds references to the object.
    StillReferenced,
}

/// One object: `size` bytes (whole pages) at `iova` in the GPU's view, at
/// `cpu_addr` in the CPU's, backed at `paddr`.
#[derive(Clone, Copy, Debug, PartialEq, Eq, Structural)]
pub struct ShmemObject {
    pub iova: u64,
    pub paddr: u64,
    pub size: u64,
    pub cpu_addr: usize,
    /// Whether CPU writes reach the GPU without an explicit flush.
    pub coherent: bool,
}

/// Number of pages that `size` bytes take.
pub open spec fn pages_for(size: u64) -> int {
    (size as int + SHMEM_PAGE - 1) / SHMEM_PAGE as int
}

/// Places objects one after the other in an address space, from a cursor
/// that only moves up, so an object's IOVA is never handed out twice.
pub struct ShmemAllocator {
    cursor: u64,
}

impl ShmemAllocator {
    /// The IOVA the next object gets.
    pub closed spec fn cursor_spec(&self) -> u64 {
        self.cursor
    }

    /// An allocator that places its first object at `start`.
    pub fn new(start: u64) -> (r: Self)
        ensures
            r.cursor_spec() == start,
    {
        ShmemAllocator { cursor: start }
    }

    /// Maps `size` bytes backed at `paddr` (CPU address `cpu_addr`) at the
    /// cursor, rounded up to whole pages and readable and writable by the
    /// GPU, and moves the cursor past them.
    pub fn allocate(
        &mut self,
        table: &mut IoPageTableInner,
        paddr: u64,
        cpu_addr: usize,
        size: u64,
        coherent: bool,
    ) -> (r: Result<ShmemObject, AllocError>)
        requires
            old(table).wf(),
        ensures
            final(table).wf(),
            final(table).base_spec() == old(table).base_spec(),
            final(table).limit_spec() == old(table).limit_spec(),
            final(table).pgsize_bitmap_spec() == old(table).pgsize_bitmap_spec(),
            size == 0 ==> r == Err::<ShmemObject, AllocError>(AllocError::ZeroSize),
            size != 0 && pages_for(size) * SHMEM_PAGE > u64::MAX ==> r == Err::<
                ShmemObject,
                AllocError,
            >(AllocError::TooLarge),
            r is Err ==> final(table).view() == old(table).view() && final(self).cursor_spec()
                == old(self).cursor_spec(),
            size != 0 && pages_for(size) * SHMEM_PAGE <= u64::MAX ==> match old(table).map_outcome(
                old(self).cursor_spec(),
                paddr,
                SHMEM_PAGE,
                pages_for(size) as u64,
            ) {
                Ok(mapped) => {
                    let obj = ShmemObject {
                        iova: old(self).cursor_spec(),
                        paddr,
                        size: mapped as u64,
                        cpu_addr,
                        coherent,
                    };
                    &&& r == Ok::<ShmemObject, AllocError>(obj)
                    &&& mapped == pages_for(size) * SHMEM_PAGE
                    &&& final(table).view() == old(table).view().push(
                        Mapping {
                            iova: obj.iova,
                            paddr,
                            size: obj.size,
                            prot: PROT_READ | PROT_WRITE,
                        },
                    )
                    &&& final(self).cursor_spec() == old(self).cursor_spec() + mapped
                },
                Err(e) => r == Err::<ShmemObject, AllocError>(AllocError::Mapping(e)),
            },
    {
        if size == 0 {
            return Err(AllocError::ZeroSize);
        }
        let pages: u64 = size / SHMEM_PAGE + if size % SHMEM_PAGE != 0 {
            1u64
        } else {
            0u64
        };
        assert(pages == pages_for(size));
        if pages > u64::MAX / SHMEM_PAGE {
            assert(pages * SHMEM_PAGE > u64::MAX);
            return Err(AllocError::TooLarge);
        }
        let iova = self.cursor;
        match table.map_pages(iova, paddr, SHMEM_PAGE, pages, PROT_READ | PROT_WRITE) {
            Ok(mapped) => {
                self.cursor = iova + mapped;
                Ok(ShmemObject { iova, paddr, size: mapped, cpu_addr, coherent })
            },
            Err(e) => Err(AllocError::Mapping(e)),
        }
    }

    /// Unmaps `obj`, once firmware holds no reference to it (`fw_refs` is
    /// zero); its IOVA is not handed out again. The object's range must be
    /// whole pages made up of whole mappings.
    pub fn destroy(&mut self, table: &mut IoPageTableInner, obj: ShmemObject, fw_refs: u32) -> (r:
        Result<(), AllocError>)
        requires
            old(table).wf(),
        ensures
            final(table).wf(),
            final(table).base_spec() == old(table).base_spec(),
            final(table).limit_spec() == old(table).limit_spec(),
            final(table).pgsize_bitmap_spec() == old(table).pgsize_bitmap_spec(),
            final(self).cursor_spec() == old(self).cursor_spec(),
            fw_refs != 0 ==> r == Err::<(), AllocError>(AllocError::StillReferenced)
                && final(table).view() == old(table).view(),
            fw_refs == 0 && obj.size % SHMEM_PAGE != 0 ==> r == Err::<(), AllocError>(
                AllocError::Mapping(MmuError::NotMapped),
            ) && final(table).view() == old(table).view(),
            fw_refs == 0 && obj.size % SHMEM_PAGE == 0 ==> match old(table).unmap_outcome(
                obj.iova,
                SHMEM_PAGE,
                obj.size / SHMEM_PAGE,
            ) {
                Ok(n) => r == Ok::<(), AllocError>(()) && n == obj.size && final(table).view()
                    == remove_within(old(table).view(), obj.iova as int, obj.iova + n),
                Err(e) => r == Err::<(), AllocError>(AllocError::Mapping(e)) && final(
                    table).view() == old(table).view(),
            },
    {
        if fw_refs != 0 {
            return Err(AllocError::StillReferenced);
        }
        if obj.size % SHMEM_PAGE != 0 {
            return Err(AllocError::Mapping(MmuError::NotMapped));
        }
        let pages = obj.size / SHMEM_PAGE;
        assert(pages * SHMEM_PAGE == obj.size);
        match table.unmap_pages(obj.iova, SHMEM_PAGE, pages) {
            Ok(_) => Ok(()),
            Err(e) => Err(AllocError::Mapping(e)),
        }
    }
}

} // verus!
