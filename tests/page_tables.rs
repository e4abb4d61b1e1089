use std::cell::Cell;

use asahi::io_pgtable::{AppleUAT, Config, FlushOps, IoPageTableInner, MmuError, PROT_READ, PROT_WRITE};
use asahi::error::Error;

const PG: u64 = 0x4000;

fn config() -> Config {
    Config { quirks: 0, pgsize_bitmap: 0x4000, ias: 39, oas: 40, coherent_walk: true }
}

fn table() -> IoPageTableInner {
    IoPageTableInner::new(&config(), 0x1_0000_0000, 0x2_0000_0000).unwrap()
}

#[test]
fn map_then_translate_returns_physical_address() {
    let mut t = table();
    assert_eq!(t.map_pages(0x1_0000_0000, 0x8000_0000, PG, 2, PROT_READ | PROT_WRITE), Ok(2 * PG));
    assert_eq!(t.iova_to_phys(0x1_0000_0000), Some(0x8000_0000));
    assert_eq!(t.iova_to_phys(0x1_0000_0000 + PG + 0x10), Some(0x8000_0000 + PG + 0x10));
    assert_eq!(t.iova_to_phys(0x1_0000_0000 + 2 * PG), None);
}

#[test]
fn unmap_then_translate_returns_none() {
    let mut t = table();
    t.map_pages(0x1_0000_0000, 0x8000_0000, PG, 1, PROT_READ).unwrap();
    t.map_pages(0x1_0000_4000, 0x9000_0000, PG, 1, PROT_READ).unwrap();
    assert_eq!(t.unmap_pages(0x1_0000_0000, PG, 1), Ok(PG));
    assert_eq!(t.iova_to_phys(0x1_0000_0000), None);
    assert_eq!(t.iova_to_phys(0x1_0000_4000), Some(0x9000_0000));
}

#[test]
fn map_refuses_overlap_misalignment_and_bad_sizes() {
    let mut t = table();
    t.map_pages(0x1_0000_0000, 0x8000_0000, PG, 4, PROT_READ).unwrap();
    assert_eq!(t.map_pages(0x1_0000_8000, 0xa000_0000, PG, 1, PROT_READ), Err(MmuError::Overlap));
    assert_eq!(t.map_pages(0x1_0010_0001, 0xa000_0000, PG, 1, PROT_READ), Err(MmuError::Misaligned));
    assert_eq!(t.map_pages(0x1_0010_0000, 0xa000_0001, PG, 1, PROT_READ), Err(MmuError::Misaligned));
    assert_eq!(t.map_pages(0x1_0010_0000, 0xa000_0000, PG, 0, PROT_READ), Err(MmuError::Misaligned));
    assert_eq!(t.map_pages(0x1_0010_0000, 0xa000_0000, 0x1000, 1, PROT_READ), Err(MmuError::BadPageSize));
    assert_eq!(t.map_pages(0x1_0010_0000, 0xa000_0000, 0x6000, 1, PROT_READ), Err(MmuError::BadPageSize));
    assert_eq!(t.map_pages(0x0_f000_0000, 0xa000_0000, PG, 1, PROT_READ), Err(MmuError::OutOfRange));
    assert_eq!(t.map_pages(0x1_ffff_c000, 0xa000_0000, PG, 2, PROT_READ), Err(MmuError::OutOfRange));
    assert_eq!(t.iova_to_phys(0x1_0010_0000), None);
}

#[test]
fn unmap_must_match_a_whole_mapping() {
    let mut t = table();
    t.map_pages(0x1_0000_0000, 0x8000_0000, PG, 2, PROT_READ).unwrap();
    assert_eq!(t.unmap_pages(0x1_0000_0000, PG, 1), Err(MmuError::NotMapped));
    assert_eq!(t.unmap_pages(0x1_0000_4000, PG, 1), Err(MmuError::NotMapped));
    assert_eq!(t.iova_to_phys(0x1_0000_4000), Some(0x8000_4000));
    assert_eq!(t.unmap_pages(0x1_0000_0000, PG, 2), Ok(2 * PG));
    assert_eq!(t.unmap_pages(0x1_0000_0000, PG, 2), Err(MmuError::NotMapped));
}

#[test]
fn table_config_is_checked() {
    let mut c = config();
    c.pgsize_bitmap = 0;
    assert!(matches!(IoPageTableInner::new(&c, 0, 0x1000), Err(Error::InvalidArgument)));
    assert!(matches!(IoPageTableInner::new(&config(), 0x1000, 0x1000), Err(Error::InvalidArgument)));
    let mut wide = config();
    wide.ias = (u32::MAX as usize) + 1;
    assert_eq!(wide.to_raw(), Err(Error::InvalidArgument));
    let raw = config().to_raw().unwrap();
    assert_eq!(raw.ias, 39);
    assert_eq!(raw.oas, 40);
    assert_eq!(raw.pgsize_bitmap, 0x4000);
}

struct Counter {
    walks: Cell<u32>,
    last: Cell<(u64, u64, u64)>,
    all: Cell<u32>,
}

impl FlushOps for Counter {
    fn tlb_flush_all(&self) {
        self.all.set(self.all.get() + 1);
    }

    fn tlb_flush_walk(&self, iova: u64, size: u64, granule: u64) {
        self.walks.set(self.walks.get() + 1);
        self.last.set((iova, size, granule));
    }

    fn tlb_add_page(&self, _iova: u64, _granule: u64) {}
}

#[test]
fn unmap_flushes_the_range() {
    let data = Counter { walks: Cell::new(0), last: Cell::new((0, 0, 0)), all: Cell::new(0) };
    let mut t = AppleUAT::new(&config(), 0x1_0000_0000, 0x2_0000_0000, data).unwrap();
    t.map_pages(0x1_0000_0000, 0x8000_0000, PG, 3, PROT_READ).unwrap();
    assert_eq!(t.iova_to_phys(0x1_0000_8000), Some(0x8000_8000));
    assert_eq!(t.unmap_pages(0x1_0000_0000, PG, 1), Err(MmuError::NotMapped));
    assert_eq!(t.unmap_pages(0x1_0000_0000, PG, 3), Ok(3 * PG));
    assert_eq!(t.iova_to_phys(0x1_0000_8000), None);
    assert_eq!(t.data().walks.get(), 1);
    assert_eq!(t.data().last.get(), (0x1_0000_0000, 3 * PG, PG));
    t.flush_all();
    assert_eq!(t.data().all.get(), 1);
}

#[test]
fn unmap_accepts_a_run_of_whole_mappings() {
    let mut t = table();
    t.map_pages(0x1_0000_0000, 0x8000_0000, PG, 1, PROT_READ).unwrap();
    t.map_pages(0x1_0000_4000, 0x9000_0000, PG, 2, PROT_READ).unwrap();
    t.map_pages(0x1_0001_0000, 0xa000_0000, PG, 1, PROT_READ).unwrap();
    assert_eq!(t.unmap_pages(0x1_0000_0000, PG, 2), Err(MmuError::NotMapped));
    assert_eq!(t.unmap_pages(0x1_0000_0000, PG, 5), Err(MmuError::NotMapped));
    assert_eq!(t.unmap_pages(0x1_0000_0000, PG, 3), Ok(3 * PG));
    assert_eq!(t.iova_to_phys(0x1_0000_0000), None);
    assert_eq!(t.iova_to_phys(0x1_0000_8000), None);
    assert_eq!(t.iova_to_phys(0x1_0001_0000), Some(0xa000_0000));
}

#[test]
fn unmap_refuses_a_range_with_a_gap() {
    let mut t = table();
    t.map_pages(0x1_0000_0000, 0x8000_0000, PG, 1, PROT_READ).unwrap();
    t.map_pages(0x1_0000_8000, 0x9000_0000, PG, 1, PROT_READ).unwrap();
    assert_eq!(t.unmap_pages(0x1_0000_0000, PG, 3), Err(MmuError::NotMapped));
    assert_eq!(t.iova_to_phys(0x1_0000_0000), Some(0x8000_0000));
    assert_eq!(t.iova_to_phys(0x1_0000_8000), Some(0x9000_0000));
}
