use asahi::gpu::{FirmwareVersion, GpuManager, RequestError};
use asahi::hw::hw_config;
use asahi::io_pgtable::{Config, IoPageTableInner, MmuError};
use asahi::shmem::{AllocError, ShmemAllocator, ShmemObject};

fn table() -> IoPageTableInner {
    let c = Config { quirks: 0, pgsize_bitmap: 0x4000, ias: 39, oas: 40, coherent_walk: true };
    IoPageTableInner::new(&c, 0x10_0000, 0x20_0000).unwrap()
}

#[test]
fn objects_get_stable_distinct_iovas() {
    let mut t = table();
    let mut a = ShmemAllocator::new(0x10_0000);
    let o1 = a.allocate(&mut t, 0x8000_0000, 0x1000, 100, true).unwrap();
    let o2 = a.allocate(&mut t, 0x9000_0000, 0x2000, 0x4001, false).unwrap();
    assert_eq!(o1, ShmemObject { iova: 0x10_0000, paddr: 0x8000_0000, size: 0x4000, cpu_addr: 0x1000, coherent: true });
    assert_eq!(o2.iova, 0x10_4000);
    assert_eq!(o2.size, 0x8000);
    assert_eq!(t.iova_to_phys(0x10_0010), Some(0x8000_0010));
    assert_eq!(t.iova_to_phys(0x10_8004), Some(0x9000_4004));
}

#[test]
fn allocation_errors() {
    let mut t = table();
    let mut a = ShmemAllocator::new(0x10_0000);
    assert_eq!(a.allocate(&mut t, 0x8000_0000, 0, 0, true), Err(AllocError::ZeroSize));
    assert_eq!(a.allocate(&mut t, 0x8000_0000, 0, u64::MAX, true), Err(AllocError::TooLarge));
    assert_eq!(a.allocate(&mut t, 0x8000_0001, 0, 10, true), Err(AllocError::Mapping(MmuError::Misaligned)));
    assert_eq!(a.allocate(&mut t, 0x8000_0000, 0, 0x10_0001, true), Err(AllocError::Mapping(MmuError::OutOfRange)));
    let o = a.allocate(&mut t, 0x8000_0000, 0, 10, true).unwrap();
    assert_eq!(o.iova, 0x10_0000);
}

#[test]
fn destruction_waits_for_firmware_references() {
    let mut t = table();
    let mut a = ShmemAllocator::new(0x10_0000);
    let o = a.allocate(&mut t, 0x8000_0000, 0, 10, true).unwrap();
    assert_eq!(a.destroy(&mut t, o, 1), Err(AllocError::StillReferenced));
    assert_eq!(t.iova_to_phys(o.iova), Some(0x8000_0000));
    assert_eq!(a.destroy(&mut t, o, 0), Ok(()));
    assert_eq!(t.iova_to_phys(o.iova), None);
    assert_eq!(a.destroy(&mut t, o, 0), Err(AllocError::Mapping(MmuError::NotMapped)));
    let next = a.allocate(&mut t, 0x8000_0000, 0, 10, true).unwrap();
    assert_eq!(next.iova, 0x10_4000);
}

#[test]
fn manager_owns_shared_memory_in_kernel_space() {
    let mut m = GpuManager::new(hw_config(0x8112).unwrap(), &[12, 4, 0], 4, 4, 1, 2).unwrap();
    assert_eq!(m.alloc_shared(0x8000_0000, 0, 10, true), Err(RequestError::NotInitialized));
    m.init(FirmwareVersion { major: 12, minor: 4, patch: 0 }).unwrap();
    assert_eq!(m.alloc_shared(0x8000_0000, 0, 0, true), Err(RequestError::Alloc(AllocError::ZeroSize)));
    assert_eq!(m.alloc_shared(0x8000_0001, 0, 10, true), Err(RequestError::Alloc(AllocError::Mapping(MmuError::Misaligned))));
    let o = m.alloc_shared(0x8000_0000, 0x1234, 10, true).unwrap();
    assert_eq!(o.iova, 0xffff_ffa0_0000_0000);
    assert_eq!(m.free_shared(o, 2), Err(RequestError::Alloc(AllocError::StillReferenced)));
    assert_eq!(m.free_shared(o, 0), Ok(()));
    assert_eq!(m.free_shared(o, 0), Err(RequestError::Alloc(AllocError::Mapping(MmuError::NotMapped))));
}
