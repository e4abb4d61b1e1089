//! IO page tables: one IOVA space per context, mapped in runs of pages,
//! with the TLB-maintenance hooks that the table calls while it changes.
use vstd::prelude::*;
use crate::error::Error;

verus! {

/// Permission bit: the device may read through the mapping.
pub const PROT_READ: u32 = 1;

/// Permission bit: the device may write through the mapping.
pub const PROT_WRITE: u32 = 2;

/// The configuration a page table is created with.
pub struct Config {
    pub quirks: usize,
    /// Bit `k` set: pages of `1 << k` bytes are supported.
    pub pgsize_bitmap: usize,
    /// Input (IOVA) address size in bits.
    pub ias: usize,
    /// Output (physical) address size in bits.
    pub oas: usize,
    pub coherent_walk: bool,
}

/// The configuration in the field widths of the page-table engine.
#[derive(Clone, Copy, Debug, PartialEq, Eq, Structural)]
pub struct RawConfig {
    pub quirks: u64,
    pub pgsize_bitmap: u64,
    pub ias: u32,
    pub oas: u32,
    pub coherent_walk: bool,
}

impl Config {
    /// Whether every field fits its width in the engine's configuration.
    pub open spec fn fits_spec(&self) -> bool {
        &&& self.quirks <= u64::MAX
        &&& self.pgsize_bitmap <= u64::MAX
        &&& self.ias <= u32::MAX
        &&& self.oas <= u32::MAX
    }

    /// The configuration in the engine's field widths, when it fits.
    pub open spec fn raw_spec(&self) -> RawConfig {
        RawConfig {
            quirks: self.quirks as u64,
            pgsize_bitmap: self.pgsize_bitmap as u64,
            ias: self.ias as u32,
            oas: self.oas as u32,
            coherent_walk: self.coherent_walk,
        }
    }

    /// Converts to the engine's field widths; a value that does not fit is
    /// `InvalidArgument`.
    pub fn to_raw(&self) -> (r: Result<RawConfig, Error>)
        ensures
            self.fits_spec() ==> r == Ok::<RawConfig, Error>(self.raw_spec()),
            !self.fits_spec() ==> r == Err::<RawConfig, Error>(Error::InvalidArgument),
    {
        if self.quirks as u128 > u64::MAX as u128 || self.pgsize_bitmap as u128 > u64::MAX as u128
            || self.ias > u32::MAX as usize || self.oas > u32::MAX as usize {
            return Err(Error::InvalidArgument);
        }
        Ok(
            RawConfig {
                quirks: self.quirks as u64,
                pgsize_bitmap: self.pgsize_bitmap as u64,
                ias: self.ias as u32,
                oas: self.oas as u32,
                coherent_walk: self.coherent_walk,
            },
        )
    }
}

/// TLB maintenance that a page table calls while it changes, before the
/// change is reported to its caller.
pub trait FlushOps {
    /// Invalidates every cached translation of the address space.
    fn tlb_flush_all(&self);

    /// Invalidates the cached translations of `size` bytes at `iova`, walked
    /// in steps of `granule` bytes.
    fn tlb_flush_walk(&self, iova: u64, size: u64, granule: u64);

    /// Notes that the page of `granule` bytes at `iova` changed.
    fn tlb_add_page(&self, iova: u64, granule: u64);
}

/// One installed mapping: `size` bytes at `iova` onto `paddr`.
#[derive(Clone, Copy, Debug, PartialEq, Eq, Structural)]
pub struct Mapping {
    pub iova: u64,
    pub paddr: u64,
    pub size: u64,
    pub prot: u32,
}

/// Why a mapping change was refused.
#[derive(Clone, Copy, Debug, PartialEq, Eq, Structural)]
pub enum MmuError {
    /// The page size is not one of the table's page sizes.
    BadPageSize,
    /// The IOVA or the physical address is not a multiple of the page size,
    /// or the page count is zero.
    Misaligned,
    /// The range leaves the table's IOVA window or the address width.
    OutOfRange,
    /// The range overlaps an installed mapping.
    Overlap,
    /// The range is not exactly one installed mapping.
    NotMapped,
}

pub open spec fn covers(m: Mapping, iova: int) -> bool {
    m.iova <= iova < m.iova + m.size
}

pub open spec fn ranges_overlap(a_start: int, a_size: int, b_start: int, b_size: int) -> bool {
    a_start < b_start + b_size && b_start < a_start + a_size
}

/// No two mappings share an IOVA.
pub open spec fn disjoint(s: Seq<Mapping>) -> bool {
    forall|i: int, j: int|
        0 <= i < s.len() && 0 <= j < s.len() && i != j ==> !ranges_overlap(
            #[trigger] s[i].iova as int,
            s[i].size as int,
            #[trigger] s[j].iova as int,
            s[j].size as int,
        )
}

/// The physical address that `iova` translates to, looked up from the
/// newest mapping back.
pub open spec fn translate_in(s: Seq<Mapping>, iova: int) -> Option<int>
    decreases s.len(),
{
    if s.len() == 0 {
        None
    } else if covers(s.last(), iova) {
        Some(s.last().paddr + (iova - s.last().iova))
    } else {
        translate_in(s.drop_last(), iova)
    }
}

/// Whether `pgsize` is a single bit that `bitmap` holds.
pub open spec fn page_size_ok(bitmap: u64, pgsize: u64) -> bool {
    &&& pgsize != 0
    &&& pgsize & sub1(pgsize) == 0
    &&& bitmap & pgsize == pgsize
}

pub open spec fn sub1(x: u64) -> u64 {
    (x - 1) as u64
}

proof fn lemma_translate_none(s: Seq<Mapping>, iova: int)
    requires
        forall|j: int| 0 <= j < s.len() ==> !covers(#[trigger] s[j], iova),
    ensures
        translate_in(s, iova) == None::<int>,
    decreases s.len(),
{
    if s.len() > 0 {
        assert(!covers(s[s.len() - 1], iova));
        lemma_translate_none(s.drop_last(), iova);
    }
}

proof fn lemma_translate_unique(s: Seq<Mapping>, iova: int, i: int)
    requires
        0 <= i < s.len(),
        covers(s[i], iova),
        forall|j: int| 0 <= j < s.len() && j != i ==> !covers(#[trigger] s[j], iova),
    ensures
        translate_in(s, iova) == Some(s[i].paddr + (iova - s[i].iova)),
    decreases s.len(),
{
    if i != s.len() - 1 {
        assert(!covers(s[s.len() - 1], iova));
        let t = s.drop_last();
        assert forall|j: int| 0 <= j < t.len() && j != i implies !covers(#[trigger] t[j], iova) by {
            assert(t[j] == s[j]);
        }
        lemma_translate_unique(t, iova, i);
    }
}

proof fn lemma_disjoint_covers(s: Seq<Mapping>, iova: int, i: int)
    requires
        disjoint(s),
        0 <= i < s.len(),
        covers(s[i], iova),
    ensures
        forall|j: int| 0 <= j < s.len() && j != i ==> !covers(#[trigger] s[j], iova),
{
    assert forall|j: int| 0 <= j < s.len() && j != i implies !covers(#[trigger] s[j], iova) by {
        assert(!ranges_overlap(s[i].iova as int, s[i].size as int, s[j].iova as int, s[j].size as int));
    }
}

/// Whether `m` lies inside `[start, end)`.
pub open spec fn contained(m: Mapping, start: int, end: int) -> bool {
    start <= m.iova && m.iova + m.size <= end
}

/// Index of the first mapping of `s`, from index `from` on, that starts at
/// `pos`.
pub open spec fn find_start(s: Seq<Mapping>, pos: int, from: int) -> Option<int>
    decreases s.len() - from,
{
    if from < 0 || from >= s.len() {
        None
    } else if s[from].iova == pos {
        Some(from)
    } else {
        find_start(s, pos, from + 1)
    }
}

/// Whether whole mappings of `s`, laid end to end from `pos`, make up
/// exactly `[pos, end)`.
pub open spec fn tiled(s: Seq<Mapping>, pos: int, end: int) -> bool
    decreases end - pos,
{
    if pos >= end {
        pos == end
    } else {
        match find_start(s, pos, 0) {
            Some(j) => if s[j].size == 0 || pos + s[j].size > end {
                false
            } else {
                tiled(s, pos + s[j].size, end)
            },
            None => false,
        }
    }
}

/// `s` without the mappings that lie inside `[start, end)`, the others
/// kept in order.
pub open spec fn remove_within(s: Seq<Mapping>, start: int, end: int) -> Seq<Mapping>
    decreases s.len(),
{
    if s.len() == 0 {
        s
    } else if contained(s.last(), start, end) {
        remove_within(s.drop_last(), start, end)
    } else {
        remove_within(s.drop_last(), start, end).push(s.last())
    }
}

proof fn lemma_find_start(s: Seq<Mapping>, pos: int, from: int)
    requires
        0 <= from,
    ensures
        match find_start(s, pos, from) {
            Some(j) => from <= j < s.len() && s[j].iova == pos,
            None => forall|i: int| from <= i < s.len() ==> (#[trigger] s[i]).iova != pos,
        },
    decreases s.len() - from,
{
    if from < s.len() && s[from].iova != pos {
        lemma_find_start(s, pos, from + 1);
    }
}

proof fn lemma_tiled_le(s: Seq<Mapping>, pos: int, end: int)
    requires
        tiled(s, pos, end),
    ensures
        pos <= end,
    decreases end - pos,
{
}

/// When `[pos, end)` is tiled by whole mappings of a disjoint `s`, every
/// mapping that reaches into it lies inside it.
proof fn lemma_tiled_contained(s: Seq<Mapping>, pos: int, end: int, k: int)
    requires
        disjoint(s),
        forall|i: int| 0 <= i < s.len() ==> (#[trigger] s[i]).size > 0,
        tiled(s, pos, end),
        0 <= k < s.len(),
        pos < end,
        s[k].iova < end,
        pos < s[k].iova + s[k].size,
    ensures
        contained(s[k], pos, end),
    decreases end - pos,
{
    lemma_find_start(s, pos, 0);
    let j = find_start(s, pos, 0).unwrap();
    let next = pos + s[j].size;
    lemma_tiled_le(s, next, end);
    if k != j {
        assert(!ranges_overlap(s[k].iova as int, s[k].size as int, s[j].iova as int, s[j].size as int));
        lemma_tiled_contained(s, next, end, k);
    }
}

proof fn lemma_remove_within_from(s: Seq<Mapping>, start: int, end: int)
    ensures
        forall|j: int|
            0 <= j < remove_within(s, start, end).len() ==> exists|i: int|
                0 <= i < s.len() && #[trigger] remove_within(s, start, end)[j] == s[i] && !contained(
                    s[i],
                    start,
                    end,
                ),
    decreases s.len(),
{
    if s.len() > 0 {
        let t = s.drop_last();
        lemma_remove_within_from(t, start, end);
        let rt = remove_within(t, start, end);
        let r = remove_within(s, start, end);
        assert forall|j: int| 0 <= j < r.len() implies exists|i: int|
            0 <= i < s.len() && #[trigger] r[j] == s[i] && !contained(s[i], start, end) by {
            if j < rt.len() {
                assert(r[j] == rt[j]);
                let i = choose|i: int|
                    0 <= i < t.len() && #[trigger] rt[j] == t[i] && !contained(t[i], start, end);
                assert(s[i] == t[i]);
            } else {
                assert(r[j] == s[s.len() - 1]);
            }
        }
    }
}

proof fn lemma_remove_within_keeps(s: Seq<Mapping>, start: int, end: int)
    ensures
        forall|i: int|
            0 <= i < s.len() && !contained(#[trigger] s[i], start, end) ==> exists|j: int|
                0 <= j < remove_within(s, start, end).len() && remove_within(s, start, end)[j]
                    == s[i],
    decreases s.len(),
{
    if s.len() > 0 {
        let t = s.drop_last();
        lemma_remove_within_keeps(t, start, end);
        let rt = remove_within(t, start, end);
        let r = remove_within(s, start, end);
        assert forall|i: int| 0 <= i < s.len() && !contained(#[trigger] s[i], start, end) implies exists|j: int|
            0 <= j < r.len() && r[j] == s[i] by {
            if i < s.len() - 1 {
                assert(s[i] == t[i]);
                let j = choose|j: int| 0 <= j < rt.len() && rt[j] == t[i];
                assert(r[j] == rt[j]);
            } else {
                assert(r[r.len() - 1] == s[i]);
            }
        }
    }
}

proof fn lemma_remove_within_disjoint(s: Seq<Mapping>, start: int, end: int)
    requires
        disjoint(s),
    ensures
        disjoint(remove_within(s, start, end)),
    decreases s.len(),
{
    if s.len() > 0 {
        let t = s.drop_last();
        assert(disjoint(t)) by {
            assert forall|a: int, b: int|
                0 <= a < t.len() && 0 <= b < t.len() && a != b implies !ranges_overlap(
                #[trigger] t[a].iova as int,
                t[a].size as int,
                #[trigger] t[b].iova as int,
                t[b].size as int,
            ) by {
                assert(t[a] == s[a] && t[b] == s[b]);
            }
        }
        lemma_remove_within_disjoint(t, start, end);
        lemma_remove_within_from(t, start, end);
        let rt = remove_within(t, start, end);
        let r = remove_within(s, start, end);
        if !contained(s.last(), start, end) {
            let last = s.len() - 1;
            assert forall|a: int, b: int|
                0 <= a < r.len() && 0 <= b < r.len() && a != b implies !ranges_overlap(
                #[trigger] r[a].iova as int,
                r[a].size as int,
                #[trigger] r[b].iova as int,
                r[b].size as int,
            ) by {
                if a < rt.len() && b < rt.len() {
                    assert(r[a] == rt[a] && r[b] == rt[b]);
                } else if a < rt.len() {
                    assert(r[a] == rt[a]);
                    let i = choose|i: int|
                        0 <= i < t.len() && #[trigger] rt[a] == t[i] && !contained(t[i], start, end);
                    assert(s[i] == t[i]);
                    assert(r[b] == s[last]);
                    assert(!ranges_overlap(s[i].iova as int, s[i].size as int, s[last].iova as int, s[last].size as int));
                } else {
                    assert(r[b] == rt[b]);
                    let i = choose|i: int|
                        0 <= i < t.len() && #[trigger] rt[b] == t[i] && !contained(t[i], start, end);
                    assert(s[i] == t[i]);
                    assert(r[a] == s[last]);
                    assert(!ranges_overlap(s[last].iova as int, s[last].size as int, s[i].iova as int, s[i].size as int));
                }
            }
        }
    }
}

/// The mappings of one address space, confined to the IOVA window
/// `[va_base, va_limit)`.
pub struct IoPageTableInner {
    cfg: RawConfig,
    pgsizes: u64,
    va_base: u64,
    va_limit: u64,
    entries: Vec<Mapping>,
}

impl IoPageTableInner {
    /// The installed mappings, oldest first.
    pub closed spec fn view(&self) -> Seq<Mapping> {
        self.entries@
    }

    pub closed spec fn cfg_spec(&self) -> RawConfig {
        self.cfg
    }

    /// The page sizes the table supports, one bit each.
    pub closed spec fn pgsize_bitmap_spec(&self) -> u64 {
        self.pgsizes
    }

    pub closed spec fn base_spec(&self) -> u64 {
        self.va_base
    }

    pub closed spec fn limit_spec(&self) -> u64 {
        self.va_limit
    }

    pub open spec fn wf(&self) -> bool {
        &&& disjoint(self.view())
        &&& forall|i: int|
            0 <= i < self.view().len() ==> {
                &&& #[trigger] self.view()[i].size > 0
                &&& self.base_spec() <= self.view()[i].iova
                &&& self.view()[i].iova + self.view()[i].size <= self.limit_spec()
                &&& self.view()[i].paddr + self.view()[i].size <= u64::MAX
            }
    }

    /// The physical address `iova` translates to, if it is mapped.
    pub open spec fn translate(&self, iova: u64) -> Option<int> {
        translate_in(self.view(), iova as int)
    }

    /// What mapping `pgcount` pages of `pgsize` bytes at `iova` onto `paddr`
    /// does: the mapping installed, or why it is refused.
    pub open spec fn map_outcome(
        &self,
        iova: u64,
        paddr: u64,
        pgsize: u64,
        pgcount: u64,
    ) -> Result<int, MmuError> {
        let size = pgsize * pgcount;
        if !page_size_ok(self.pgsize_bitmap_spec(), pgsize) {
            Err(MmuError::BadPageSize)
        } else if pgcount == 0 || iova % pgsize != 0 || paddr % pgsize != 0 {
            Err(MmuError::Misaligned)
        } else if size > u64::MAX || iova + size > u64::MAX || paddr + size > u64::MAX
            || iova < self.base_spec() || iova + size > self.limit_spec() {
            Err(MmuError::OutOfRange)
        } else if exists|j: int|
            0 <= j < self.view().len() && ranges_overlap(
                iova as int,
                size,
                #[trigger] self.view()[j].iova as int,
                self.view()[j].size as int,
            ) {
            Err(MmuError::Overlap)
        } else {
            Ok(size)
        }
    }

    /// An empty table over `[va_base, va_limit)`; the configuration must fit
    /// the engine's widths and offer at least one page size.
    pub fn new(config: &Config, va_base: u64, va_limit: u64) -> (r: Result<Self, Error>)
        ensures
            r is Ok <==> config.fits_spec() && config.pgsize_bitmap != 0 && va_base < va_limit,
            r matches Ok(t) ==> {
                &&& t.wf()
                &&& t.view() == Seq::<Mapping>::empty()
                &&& t.base_spec() == va_base
                &&& t.limit_spec() == va_limit
                &&& t.pgsize_bitmap_spec() == config.pgsize_bitmap as u64
                &&& t.cfg_spec() == config.raw_spec()
            },
            r is Err ==> r == Err::<Self, Error>(Error::InvalidArgument),
    {
        let cfg = config.to_raw()?;
        if cfg.pgsize_bitmap == 0 || va_base >= va_limit {
            return Err(Error::InvalidArgument);
        }
        Ok(
            IoPageTableInner {
                cfg,
                pgsizes: config.pgsize_bitmap as u64,
                va_base,
                va_limit,
                entries: Vec::new(),
            },
        )
    }

    /// Maps `pgcount` pages of `pgsize` bytes at `iova` onto `paddr` with
    /// permissions `prot`, and returns the number of bytes mapped.
    pub fn map_pages(
        &mut self,
        iova: u64,
        paddr: u64,
        pgsize: u64,
        pgcount: u64,
        prot: u32,
    ) -> (r: Result<u64, MmuError>)
        requires
            old(self).wf(),
        ensures
            final(self).wf(),
            final(self).cfg_spec() == old(self).cfg_spec(),
            final(self).pgsize_bitmap_spec() == old(self).pgsize_bitmap_spec(),
            final(self).base_spec() == old(self).base_spec(),
            final(self).limit_spec() == old(self).limit_spec(),
            match old(self).map_outcome(iova, paddr, pgsize, pgcount) {
                Ok(size) => {
                    &&& r == Ok::<u64, MmuError>(size as u64)
                    &&& final(self).view() == old(self).view().push(
                        Mapping { iova, paddr, size: size as u64, prot },
                    )
                },
                Err(e) => r == Err::<u64, MmuError>(e) && final(self).view() == old(self).view(),
            },
    {
        let bitmap = self.pgsizes;
        if pgsize == 0 || pgsize & (pgsize - 1) != 0 || bitmap & pgsize != pgsize {
            return Err(MmuError::BadPageSize);
        }
        if pgcount == 0 || iova % pgsize != 0 || paddr % pgsize != 0 {
            return Err(MmuError::Misaligned);
        }
        let size = match pgsize.checked_mul(pgcount) {
            Some(s) => s,
            None => return Err(MmuError::OutOfRange),
        };
        let end = match iova.checked_add(size) {
            Some(e) => e,
            None => return Err(MmuError::OutOfRange),
        };
        if paddr.checked_add(size).is_none() || iova < self.va_base || end > self.va_limit {
            return Err(MmuError::OutOfRange);
        }
        let mut i: usize = 0;
        while i < self.entries.len()
            invariant
                self == old(self),
                self.wf(),
                i <= self.entries@.len(),
                size == pgsize * pgcount,
                end == iova + size,
                page_size_ok(self.pgsizes, pgsize),
                pgcount > 0,
                iova % pgsize == 0,
                paddr % pgsize == 0,
                paddr + size <= u64::MAX,
                self.va_base <= iova,
                end <= self.va_limit,
                forall|j: int|
                    0 <= j < i ==> !ranges_overlap(
                        iova as int,
                        size as int,
                        #[trigger] self.entries@[j].iova as int,
                        self.entries@[j].size as int,
                    ),
            decreases self.entries@.len() - i,
        {
            let e = self.entries[i];
            assert(self.view()[i as int].size > 0);
            if iova < e.iova + e.size && e.iova < end {
                assert(ranges_overlap(
                    iova as int,
                    size as int,
                    self.view()[i as int].iova as int,
                    self.view()[i as int].size as int,
                ));
                return Err(MmuError::Overlap);
            }
            i = i + 1;
        }
        assert(size > 0) by (nonlinear_arith)
            requires
                size == pgsize * pgcount,
                pgsize > 0,
                pgcount > 0,
        ;
        let m = Mapping { iova, paddr, size, prot };
        self.entries.push(m);
        proof {
            let s = self.entries@;
            assert forall|a: int, b: int|
                0 <= a < s.len() && 0 <= b < s.len() && a != b implies !ranges_overlap(
                #[trigger] s[a].iova as int,
                s[a].size as int,
                #[trigger] s[b].iova as int,
                s[b].size as int,
            ) by {
                let o = old(self).entries@;
                if a < s.len() - 1 && b < s.len() - 1 {
                    assert(s[a] == o[a]);
                    assert(s[b] == o[b]);
                    assert(!ranges_overlap(o[a].iova as int, o[a].size as int, o[b].iova as int, o[b].size as int));
                } else if a < s.len() - 1 {
                    assert(s[a] == o[a]);
                    assert(!ranges_overlap(iova as int, size as int, o[a].iova as int, o[a].size as int));
                } else {
                    assert(s[b] == o[b]);
                    assert(!ranges_overlap(iova as int, size as int, o[b].iova as int, o[b].size as int));
                }
            }
            assert forall|a: int| 0 <= a < s.len() implies {
                &&& #[trigger] s[a].size > 0
                &&& self.va_base <= s[a].iova
                &&& s[a].iova + s[a].size <= self.va_limit
                &&& s[a].paddr + s[a].size <= u64::MAX
            } by {
                if a < s.len() - 1 {
                    assert(s[a] == old(self).entries@[a]);
                    assert(old(self).view()[a].size > 0);
                }
            }
        }
        Ok(size)
    }

    /// What unmapping `pgcount` pages of `pgsize` bytes at `iova` does: the
    /// number of bytes removed, when whole mappings laid end to end make up
    /// exactly that range, and `NotMapped` otherwise.
    pub open spec fn unmap_outcome(&self, iova: u64, pgsize: u64, pgcount: u64) -> Result<
        int,
        MmuError,
    > {
        let size = pgsize * pgcount;
        if size == 0 || size > u64::MAX || iova + size > u64::MAX || !tiled(
            self.view(),
            iova as int,
            iova + size,
        ) {
            Err(MmuError::NotMapped)
        } else {
            Ok(size)
        }
    }

    /// Removes the mappings that make up exactly `pgcount` pages of `pgsize`
    /// bytes at `iova`, one or more whole mappings laid end to end, and
    /// returns the number of bytes unmapped. A range that cuts through a
    /// mapping or holds a gap is refused and changes nothing.
    pub fn unmap_pages(&mut self, iova: u64, pgsize: u64, pgcount: u64) -> (r: Result<
        u64,
        MmuError,
    >)
        requires
            old(self).wf(),
        ensures
            final(self).wf(),
            final(self).cfg_spec() == old(self).cfg_spec(),
            final(self).pgsize_bitmap_spec() == old(self).pgsize_bitmap_spec(),
            final(self).base_spec() == old(self).base_spec(),
            final(self).limit_spec() == old(self).limit_spec(),
            match old(self).unmap_outcome(iova, pgsize, pgcount) {
                Ok(n) => r == Ok::<u64, MmuError>(n as u64) && final(self).view() == remove_within(
                    old(self).view(),
                    iova as int,
                    iova + n,
                ),
                Err(e) => r == Err::<u64, MmuError>(e) && final(self).view() == old(self).view(),
            },
    {
        let size = match pgsize.checked_mul(pgcount) {
            Some(s) => s,
            None => return Err(MmuError::NotMapped),
        };
        if size == 0 {
            return Err(MmuError::NotMapped);
        }
        let end = match iova.checked_add(size) {
            Some(e) => e,
            None => return Err(MmuError::NotMapped),
        };
        let ghost v = self.entries@;
        let n = self.entries.len();
        let mut pos = iova;
        while pos < end
            invariant
                self == old(self),
                self.wf(),
                v == self.entries@,
                n == v.len(),
                iova <= pos <= end,
                size == pgsize * pgcount,
                size > 0,
                end == iova + size,
                tiled(v, iova as int, end as int) == tiled(v, pos as int, end as int),
            decreases end - pos,
        {
            let mut i: usize = 0;
            while i < n && self.entries[i].iova != pos
                invariant
                    self.wf(),
                    v == self.entries@,
                    n == v.len(),
                    i <= n,
                    find_start(v, pos as int, 0) == find_start(v, pos as int, i as int),
                decreases n - i,
            {
                i = i + 1;
            }
            if i == n {
                proof {
                    assert(find_start(v, pos as int, 0) == None::<int>);
                    assert(!tiled(v, pos as int, end as int));
                }
                return Err(MmuError::NotMapped);
            }
            let m = self.entries[i];
            assert(v[i as int].size > 0);
            if m.size > end - pos {
                proof {
                    assert(find_start(v, pos as int, 0) == Some(i as int));
                    assert(!tiled(v, pos as int, end as int));
                }
                return Err(MmuError::NotMapped);
            }
            proof {
                assert(find_start(v, pos as int, 0) == Some(i as int));
            }
            pos = pos + m.size;
        }
        let mut kept: Vec<Mapping> = Vec::new();
        let mut i: usize = 0;
        while i < n
            invariant
                self == old(self),
                self.wf(),
                v == self.entries@,
                n == v.len(),
                i <= n,
                kept@ == remove_within(v.subrange(0, i as int), iova as int, end as int),
            decreases n - i,
        {
            let m = self.entries[i];
            assert(v[i as int].size > 0);
            proof {
                assert(v.subrange(0, i + 1).drop_last() =~= v.subrange(0, i as int));
            }
            if !(iova <= m.iova && m.iova + m.size <= end) {
                kept.push(m);
            }
            i = i + 1;
        }
        proof {
            assert(v.subrange(0, n as int) =~= v);
            lemma_remove_within_from(v, iova as int, end as int);
            lemma_remove_within_disjoint(v, iova as int, end as int);
            let r = kept@;
            assert forall|a: int| 0 <= a < r.len() implies {
                &&& #[trigger] r[a].size > 0
                &&& self.va_base <= r[a].iova
                &&& r[a].iova + r[a].size <= self.va_limit
                &&& r[a].paddr + r[a].size <= u64::MAX
            } by {
                let k = choose|k: int|
                    0 <= k < v.len() && #[trigger] r[a] == v[k] && !contained(v[k], iova as int, end as int);
                assert(v[k].size > 0);
            }
        }
        self.entries = kept;
        Ok(size)
    }

    /// The physical address that `iova` translates to, if it is mapped.
    pub fn iova_to_phys(&self, iova: u64) -> (r: Option<u64>)
        requires
            self.wf(),
        ensures
            match self.translate(iova) {
                Some(p) => r == Some(p as u64),
                None => r == None::<u64>,
            },
    {
        let mut i: usize = 0;
        while i < self.entries.len()
            invariant
                self.wf(),
                i <= self.entries@.len(),
                forall|j: int| 0 <= j < i ==> !covers(#[trigger] self.entries@[j], iova as int),
            decreases self.entries@.len() - i,
        {
            let e = self.entries[i];
            if e.iova <= iova && iova < e.iova + e.size {
                proof {
                    lemma_disjoint_covers(self.entries@, iova as int, i as int);
                    lemma_translate_unique(self.entries@, iova as int, i as int);
                }
                return Some(e.paddr + (iova - e.iova));
            }
            i = i + 1;
        }
        proof {
            lemma_translate_none(self.entries@, iova as int);
        }
        None
    }
}

/// A table of the Apple UAT format, which calls `data`'s TLB maintenance
/// while its mappings change.
pub struct AppleUAT<T: FlushOps> {
    inner: IoPageTableInner,
    data: T,
    flushes: Ghost<Seq<(u64, u64, u64)>>,
}

impl<T: FlushOps> AppleUAT<T> {
    /// The mappings and window of the table.
    pub closed spec fn table(&self) -> IoPageTableInner {
        self.inner
    }

    /// The range flushes issued through `tlb_flush_walk`, oldest first, as
    /// `(iova, size, granule)`.
    pub closed spec fn flush_log(&self) -> Seq<(u64, u64, u64)> {
        self.flushes@
    }

    pub open spec fn wf(&self) -> bool {
        self.table().wf()
    }

    /// An empty table over `[va_base, va_limit)`, see `IoPageTableInner::new`.
    pub fn new(config: &Config, va_base: u64, va_limit: u64, data: T) -> (r: Result<
        Self,
        Error,
    >)
        ensures
            r is Ok <==> config.fits_spec() && config.pgsize_bitmap != 0 && va_base < va_limit,
            r matches Ok(t) ==> {
                &&& t.wf()
                &&& t.table().view() == Seq::<Mapping>::empty()
                &&& t.table().base_spec() == va_base
                &&& t.table().limit_spec() == va_limit
                &&& t.table().pgsize_bitmap_spec() == config.pgsize_bitmap as u64
                &&& t.table().cfg_spec() == config.raw_spec()
                &&& t.flush_log() == Seq::<(u64, u64, u64)>::empty()
            },
            r is Err ==> r == Err::<Self, Error>(Error::InvalidArgument),
    {
        let inner = IoPageTableInner::new(config, va_base, va_limit)?;
        Ok(AppleUAT { inner, data, flushes: Ghost(Seq::empty()) })
    }

    /// The table's mappings and window.
    pub fn inner(&self) -> (r: &IoPageTableInner)
        ensures
            *r == self.table(),
    {
        &self.inner
    }

    /// See `IoPageTableInner::map_pages`. Installing a translation leaves
    /// no stale entry to invalidate, so no TLB maintenance is called.
    pub fn map_pages(
        &mut self,
        iova: u64,
        paddr: u64,
        pgsize: u64,
        pgcount: u64,
        prot: u32,
    ) -> (r: Result<u64, MmuError>)
        requires
            old(self).wf(),
        ensures
            final(self).wf(),
            final(self).table().pgsize_bitmap_spec() == old(self).table().pgsize_bitmap_spec(),
            final(self).table().base_spec() == old(self).table().base_spec(),
            final(self).table().limit_spec() == old(self).table().limit_spec(),
            final(self).table().cfg_spec() == old(self).table().cfg_spec(),
            final(self).flush_log() == old(self).flush_log(),
            match old(self).table().map_outcome(iova, paddr, pgsize, pgcount) {
                Ok(size) => {
                    &&& r == Ok::<u64, MmuError>(size as u64)
                    &&& final(self).table().view() == old(self).table().view().push(
                        Mapping { iova, paddr, size: size as u64, prot },
                    )
                },
                Err(e) => r == Err::<u64, MmuError>(e) && final(self).table().view() == old(self).table().view(),
            },
    {
        self.inner.map_pages(iova, paddr, pgsize, pgcount, prot)
    }

    /// See `IoPageTableInner::unmap_pages`. Before this returns, the
    /// removed range is flushed from the TLB with one `tlb_flush_walk` call
    /// over all of it, which the flush log records.
    pub fn unmap_pages(&mut self, iova: u64, pgsize: u64, pgcount: u64) -> (r: Result<
        u64,
        MmuError,
    >)
        requires
            old(self).wf(),
        ensures
            final(self).wf(),
            final(self).table().pgsize_bitmap_spec() == old(self).table().pgsize_bitmap_spec(),
            final(self).table().base_spec() == old(self).table().base_spec(),
            final(self).table().limit_spec() == old(self).table().limit_spec(),
            final(self).table().cfg_spec() == old(self).table().cfg_spec(),
            match old(self).table().unmap_outcome(iova, pgsize, pgcount) {
                Ok(n) => {
                    &&& r == Ok::<u64, MmuError>(n as u64)
                    &&& final(self).table().view() == remove_within(
                        old(self).table().view(),
                        iova as int,
                        iova + n,
                    )
                    &&& final(self).flush_log() == old(self).flush_log().push(
                        (iova, n as u64, pgsize),
                    )
                },
                Err(e) => {
                    &&& r == Err::<u64, MmuError>(e)
                    &&& final(self).table().view() == old(self).table().view()
                    &&& final(self).flush_log() == old(self).flush_log()
                },
            },
    {
        let r = self.inner.unmap_pages(iova, pgsize, pgcount);
        if let Ok(n) = r {
            self.data.tlb_flush_walk(iova, n, pgsize);
            self.flushes = Ghost(self.flushes@.push((iova, n, pgsize)));
        }
        r
    }

    /// The TLB-maintenance data the table calls.
    pub fn data(&self) -> &T {
        &self.data
    }

    /// Drops every cached translation of the address space.
    pub fn flush_all(&self) {
        self.data.tlb_flush_all();
    }

    /// See `IoPageTableInner::iova_to_phys`.
    pub fn iova_to_phys(&self, iova: u64) -> (r: Option<u64>)
        requires
            self.wf(),
        ensures
            match self.table().translate(iova) {
                Some(p) => r == Some(p as u64),
                None => r == None::<u64>,
            },
    {
        self.inner.iova_to_phys(iova)
    }
}

/// After a run is mapped, every address inside it translates to the
/// matching physical address; its first address translates to `paddr`.
pub proof fn lemma_map_then_translate(
    before: IoPageTableInner,
    after: IoPageTableInner,
    m: Mapping,
    iova: u64,
)
    requires
        after.view() == before.view().push(m),
        covers(m, iova as int),
    ensures
        after.translate(iova) == Some(m.paddr + (iova - m.iova)),
        after.translate(m.iova) == Some(m.paddr as int),
{
    assert(after.view().last() == m);
}

/// Every address inside an installed mapping translates to the matching
/// physical address, however many other mappings were added or removed
/// since it was installed.
pub proof fn lemma_translate_mapped(t: IoPageTableInner, k: int, iova: u64)
    requires
        t.wf(),
        0 <= k < t.view().len(),
        covers(t.view()[k], iova as int),
    ensures
        t.translate(iova) == Some(t.view()[k].paddr + (iova - t.view()[k].iova)),
{
    lemma_disjoint_covers(t.view(), iova as int, k);
    lemma_translate_unique(t.view(), iova as int, k);
}

proof fn lemma_unmap_inside(s: Seq<Mapping>, start: int, end: int, iova: int)
    requires
        disjoint(s),
        forall|i: int| 0 <= i < s.len() ==> (#[trigger] s[i]).size > 0,
        tiled(s, start, end),
        start <= iova < end,
    ensures
        translate_in(remove_within(s, start, end), iova) == None::<int>,
{
    let t = remove_within(s, start, end);
    lemma_remove_within_from(s, start, end);
    assert forall|j: int| 0 <= j < t.len() implies !covers(#[trigger] t[j], iova) by {
        let i = choose|i: int|
            0 <= i < s.len() && #[trigger] t[j] == s[i] && !contained(s[i], start, end);
        if covers(s[i], iova) {
            lemma_tiled_contained(s, start, end, i);
        }
    }
    lemma_translate_none(t, iova);
}

proof fn lemma_unmap_outside_covered(s: Seq<Mapping>, start: int, end: int, iova: int, i: int)
    requires
        disjoint(s),
        !(start <= iova < end),
        0 <= i < s.len(),
        covers(s[i], iova),
    ensures
        translate_in(remove_within(s, start, end), iova) == translate_in(s, iova),
{
    let t = remove_within(s, start, end);
    lemma_remove_within_keeps(s, start, end);
    lemma_remove_within_disjoint(s, start, end);
    lemma_disjoint_covers(s, iova, i);
    lemma_translate_unique(s, iova, i);
    assert(!contained(s[i], start, end));
    let j = choose|j: int| 0 <= j < t.len() && t[j] == s[i];
    lemma_disjoint_covers(t, iova, j);
    lemma_translate_unique(t, iova, j);
}

proof fn lemma_unmap_outside_uncovered(s: Seq<Mapping>, start: int, end: int, iova: int)
    requires
        forall|i: int| 0 <= i < s.len() ==> !covers(#[trigger] s[i], iova),
    ensures
        translate_in(remove_within(s, start, end), iova) == translate_in(s, iova),
{
    let t = remove_within(s, start, end);
    lemma_remove_within_from(s, start, end);
    lemma_translate_none(s, iova);
    assert forall|j: int| 0 <= j < t.len() implies !covers(#[trigger] t[j], iova) by {
        let i = choose|i: int|
            0 <= i < s.len() && #[trigger] t[j] == s[i] && !contained(s[i], start, end);
    }
    lemma_translate_none(t, iova);
}

/// After a range made of whole mappings is unmapped, no address inside it
/// translates, and every address outside it translates as before.
pub proof fn lemma_unmap_then_translate(
    before: IoPageTableInner,
    after: IoPageTableInner,
    start: u64,
    size: nat,
    iova: u64,
)
    requires
        before.wf(),
        tiled(before.view(), start as int, start + size),
        after.view() == remove_within(before.view(), start as int, start + size),
    ensures
        start <= iova < start + size ==> after.translate(iova) == None::<int>,
        !(start <= iova < start + size) ==> after.translate(iova) == before.translate(iova),
{
    if start <= iova < start + size {
        assert forall|i: int| 0 <= i < before.view().len() implies (#[trigger] before.view()[i]).size > 0 by {}
        lemma_unmap_inside(before.view(), start as int, start + size, iova as int);
    } else if exists|i: int| 0 <= i < before.view().len() && covers(#[trigger] before.view()[i], iova as int) {
        let i = choose|i: int| 0 <= i < before.view().len() && covers(#[trigger] before.view()[i], iova as int);
        lemma_unmap_outside_covered(before.view(), start as int, start + size, iova as int, i);
    } else {
        lemma_unmap_outside_uncovered(before.view(), start as int, start + size, iova as int);
    }
}

} // verus!
