//! The GPU manager: one per device, owning the events, the workqueues, the
//! kernel address space and the user address-space handles, with the
//! constants of its generation and firmware version.
use vstd::prelude::*;
use crate::event::{EventTable, EventState, FaultInfo};
use crate::hw::{GpuGen, GpuVariant, HwConfig, ManagerKind, select_spec, select_manager};
use crate::io_pgtable::{Config, IoPageTableInner, Mapping, MmuError, remove_within};
use crate::shmem::{AllocError, ShmemAllocator, ShmemObject, SHMEM_PAGE, pages_for};
use crate::slotalloc::{Slot, SlotAllocator, SlotError};
use crate::workqueue::{Engine, JobMessage, SubmitError, Workqueue};

verus! {

/// Why bringing the device up failed; the device is then unusable.
#[derive(Clone, Copy, Debug, PartialEq, Eq, Structural)]
pub enum InitError {
    /// No manager variant drives this GPU with this firmware.
    Unsupported,
    /// `init` already ran.
    AlreadyInitialized,
    /// Firmware answered the handshake with another version than expected.
    HandshakeMismatch,
    /// The kernel address space could not be set up.
    AddressSpace,
    /// An earlier bring-up failed; the device stays unusable.
    DeviceUnusable,
}

/// Why a request from a client was refused.
#[derive(Clone, Copy, Debug, PartialEq, Eq, Structural)]
pub enum RequestError {
    /// `init` has not completed.
    NotInitialized,
    /// No queue has this id.
    InvalidQueue,
    /// The queue refused the command.
    Submit(SubmitError),
    /// No address-space handle is free, or the handle is not live.
    Vm(SlotError),
    /// The table has no queue slot left.
    TooManyQueues,
    /// The kernel address space refused the mapping.
    Mapping(MmuError),
    /// A shared-memory object could not be created or destroyed.
    Alloc(AllocError),
}

/// A firmware version: major, minor, patch.
#[derive(Clone, Copy, Debug, PartialEq, Eq, Structural)]
pub struct FirmwareVersion {
    pub major: u32,
    pub minor: u32,
    pub patch: u32,
}

/// The device's static capabilities, as reported to clients.
#[derive(Clone, Copy, Debug, PartialEq, Eq, Structural)]
pub struct DeviceParams {
    pub chip_id: u32,
    pub gpu_gen: GpuGen,
    pub gpu_variant: GpuVariant,
    pub firmware_version: FirmwareVersion,
    /// Page size of GPU mappings in bytes.
    pub page_size: u64,
    /// Output address size of the GPU page tables, in bits.
    pub output_address_bits: usize,
    pub max_events: usize,
    pub max_vms: usize,
    pub max_queues: usize,
}

/// GPU page size: 16 KiB.
pub const UAT_PGSIZE: u64 = 0x4000;

/// Input address size of the GPU page tables, in bits.
pub const UAT_IAS: usize = 39;

/// Start of the IOVA window of a user VM.
pub const USER_VA_BASE: u64 = 0x100_0000;

/// End (exclusive) of the IOVA window of a user VM.
pub const USER_VA_LIMIT: u64 = 0x80_0000_0000;

/// Start of the kernel and firmware IOVA window.
pub const KERNEL_VA_BASE: u64 = 0xffff_ffa0_0000_0000;

/// End (exclusive) of the kernel and firmware IOVA window.
pub const KERNEL_VA_LIMIT: u64 = 0xffff_ffa0_8000_0000;

/// Output address size of the GPU page tables for a generation.
pub open spec fn oas_spec(gen: GpuGen) -> usize {
    match gen {
        GpuGen::G13 => 40,
        GpuGen::G14 => 42,
    }
}

/// The firmware version a manager variant speaks.
pub open spec fn firmware_version_spec(kind: ManagerKind) -> FirmwareVersion {
    match kind {
        ManagerKind::G13V12_3 => FirmwareVersion { major: 12, minor: 3, patch: 0 },
        ManagerKind::G14V12_4 => FirmwareVersion { major: 12, minor: 4, patch: 0 },
        _ => FirmwareVersion { major: 13, minor: 5, patch: 0 },
    }
}

/// The firmware version a manager variant speaks.
pub fn firmware_version(kind: ManagerKind) -> (r: FirmwareVersion)
    ensures
        r == firmware_version_spec(kind),
{
    match kind {
        ManagerKind::G13V12_3 => FirmwareVersion { major: 12, minor: 3, patch: 0 },
        ManagerKind::G14V12_4 => FirmwareVersion { major: 12, minor: 4, patch: 0 },
        _ => FirmwareVersion { major: 13, minor: 5, patch: 0 },
    }
}

pub struct GpuManager {
    kind: ManagerKind,
    cfg: HwConfig,
    events: EventTable,
    queues: Vec<Workqueue>,
    max_queues: usize,
    queue_capacity: usize,
    vms: SlotAllocator,
    vm_tables: Vec<Option<IoPageTableInner>>,
    kernel_vm: Option<IoPageTableInner>,
    shmem: ShmemAllocator,
    failed: bool,
}

impl GpuManager {
    pub closed spec fn kind_spec(&self) -> ManagerKind {
        self.kind
    }

    pub closed spec fn cfg_spec(&self) -> HwConfig {
        self.cfg
    }

    pub closed spec fn events_spec(&self) -> EventTable {
        self.events
    }

    pub closed spec fn queues_spec(&self) -> Seq<Workqueue> {
        self.queues@
    }

    pub closed spec fn max_queues_spec(&self) -> usize {
        self.max_queues
    }

    pub closed spec fn queue_capacity_spec(&self) -> usize {
        self.queue_capacity
    }

    pub closed spec fn vms_spec(&self) -> SlotAllocator {
        self.vms
    }

    /// The address space of each user VM slot, present while the VM exists.
    pub closed spec fn vm_tables_spec(&self) -> Seq<Option<IoPageTableInner>> {
        self.vm_tables@
    }

    /// The kernel address space, once `init` has set it up.
    pub closed spec fn kernel_vm_spec(&self) -> Option<IoPageTableInner> {
        self.kernel_vm
    }

    /// Where the next shared-memory object goes in the kernel address space.
    pub closed spec fn shmem_cursor(&self) -> u64 {
        self.shmem.cursor_spec()
    }

    /// Whether a bring-up failed, which leaves the device unusable for good.
    pub closed spec fn failed_spec(&self) -> bool {
        self.failed
    }

    pub open spec fn initialized(&self) -> bool {
        self.kernel_vm_spec() is Some
    }

    pub closed spec fn wf(&self) -> bool {
        &&& self.events.wf()
        &&& self.vms.wf()
        &&& self.vm_tables@.len() == self.vms.capacity_spec()
        &&& forall|i: int|
            0 <= i < self.vm_tables@.len() ==> match #[trigger] self.vm_tables@[i] {
                Some(t) => t.wf(),
                None => true,
            }
        &&& self.queues@.len() <= self.max_queues
        &&& self.queue_capacity < usize::MAX
        &&& forall|i: int| 0 <= i < self.queues@.len() ==> (#[trigger] self.queues@[i]).wf()
        &&& match self.kernel_vm {
            Some(t) => t.wf(),
            None => true,
        }
    }

    /// A manager for the GPU `cfg` running firmware `compat`, with `n_events`
    /// event slots, up to `n_vms` user address spaces and up to `max_queues`
    /// queues of `queue_capacity` commands each; `Unsupported` for a
    /// combination no variant drives.
    pub fn new(
        cfg: HwConfig,
        compat: &[u32],
        n_events: usize,
        n_vms: usize,
        max_queues: usize,
        queue_capacity: usize,
    ) -> (r: Result<Self, InitError>)
        requires
            queue_capacity < usize::MAX,
        ensures
            select_spec(cfg.gpu_gen, cfg.gpu_variant, compat@) is None ==> r == Err::<
                Self,
                InitError,
            >(InitError::Unsupported),
            select_spec(cfg.gpu_gen, cfg.gpu_variant, compat@) matches Some(kind) ==> (r matches Ok(
                m,
            ) && {
                &&& m.wf()
                &&& m.kind_spec() == kind
                &&& m.cfg_spec() == cfg
                &&& !m.initialized()
                &&& !m.failed_spec()
                &&& m.queues_spec().len() == 0
                &&& m.max_queues_spec() == max_queues
                &&& m.queue_capacity_spec() == queue_capacity
                &&& m.events_spec().slots_spec().capacity_spec() == n_events
                &&& m.vms_spec().capacity_spec() == n_vms
                &&& forall|i: int| 0 <= i < n_vms ==> (#[trigger] m.vm_tables_spec()[i]) is None
            }),
    {
        let kind = match select_manager(cfg.gpu_gen, cfg.gpu_variant, compat) {
            Some(k) => k,
            None => return Err(InitError::Unsupported),
        };
        let mut vm_tables: Vec<Option<IoPageTableInner>> = Vec::new();
        let mut i: usize = 0;
        while i < n_vms
            invariant
                i <= n_vms,
                vm_tables@.len() == i,
                forall|j: int| 0 <= j < i ==> (#[trigger] vm_tables@[j]) is None,
            decreases n_vms - i,
        {
            vm_tables.push(None);
            i = i + 1;
        }
        Ok(
            GpuManager {
                kind,
                cfg,
                vm_tables,
                events: EventTable::new(n_events),
                queues: Vec::new(),
                max_queues,
                queue_capacity,
                vms: SlotAllocator::new(n_vms),
                kernel_vm: None,
                shmem: ShmemAllocator::new(KERNEL_VA_BASE),
                failed: false,
            },
        )
    }

    /// The page-table configuration of this manager's generation.
    pub fn uat_config(&self) -> (r: Config)
        ensures
            r.pgsize_bitmap == UAT_PGSIZE as usize,
            r.ias == UAT_IAS,
            r.oas == oas_spec(self.cfg_spec().gpu_gen),
            r.quirks == 0,
            r.coherent_walk,
    {
        let oas: usize = match self.cfg.gpu_gen {
            GpuGen::G13 => 40,
            GpuGen::G14 => 42,
        };
        Config { quirks: 0, pgsize_bitmap: 0x4000, ias: UAT_IAS, oas, coherent_walk: true }
    }

    /// One-time bring-up, given the firmware version that firmware reported
    /// in its handshake: checks it against this variant's, then sets up the
    /// kernel address space. Any failure leaves the device unusable: every
    /// later `init` is refused with `DeviceUnusable`.
    pub fn init(&mut self, reported: FirmwareVersion) -> (r: Result<(), InitError>)
        requires
            old(self).wf(),
        ensures
            final(self).wf(),
            final(self).kind_spec() == old(self).kind_spec(),
            final(self).cfg_spec() == old(self).cfg_spec(),
            final(self).queues_spec() == old(self).queues_spec(),
            final(self).events_spec() == old(self).events_spec(),
            final(self).vms_spec() == old(self).vms_spec(),
            old(self).failed_spec() ==> r == Err::<(), InitError>(InitError::DeviceUnusable)
                && final(self).kernel_vm_spec() == old(self).kernel_vm_spec() && final(
                self).failed_spec(),
            !old(self).failed_spec() && old(self).initialized() ==> r == Err::<(), InitError>(
                InitError::AlreadyInitialized,
            ) && final(self).kernel_vm_spec() == old(self).kernel_vm_spec() && !final(
                self).failed_spec(),
            !old(self).failed_spec() && !old(self).initialized() && reported
                != firmware_version_spec(old(self).kind_spec()) ==> r == Err::<(), InitError>(
                InitError::HandshakeMismatch,
            ) && !final(self).initialized() && final(self).failed_spec(),
            !old(self).failed_spec() && !old(self).initialized() && reported
                == firmware_version_spec(old(self).kind_spec()) ==> r == Ok::<(), InitError>(())
                && !final(self).failed_spec() && (final(self).kernel_vm_spec() matches Some(t)
                && t.view() == Seq::<Mapping>::empty() && t.base_spec() == KERNEL_VA_BASE
                && t.limit_spec() == KERNEL_VA_LIMIT && t.pgsize_bitmap_spec() == UAT_PGSIZE),
    {
        if self.failed {
            return Err(InitError::DeviceUnusable);
        }
        if self.kernel_vm.is_some() {
            return Err(InitError::AlreadyInitialized);
        }
        let expected = firmware_version(self.kind);
        if reported != expected {
            self.failed = true;
            return Err(InitError::HandshakeMismatch);
        }
        let config = self.uat_config();
        match IoPageTableInner::new(&config, KERNEL_VA_BASE, KERNEL_VA_LIMIT) {
            Ok(t) => {
                self.kernel_vm = Some(t);
                Ok(())
            },
            Err(_) => {
                self.failed = true;
                Err(InitError::AddressSpace)
            },
        }
    }

    /// Creates a queue feeding `engine`; returns its id.
    pub fn queue_create(&mut self, engine: Engine) -> (r: Result<usize, RequestError>)
        requires
            old(self).wf(),
        ensures
            final(self).wf(),
            final(self).kind_spec() == old(self).kind_spec(),
            final(self).events_spec() == old(self).events_spec(),
            final(self).vms_spec() == old(self).vms_spec(),
            final(self).kernel_vm_spec() == old(self).kernel_vm_spec(),
            !old(self).initialized() ==> r == Err::<usize, RequestError>(
                RequestError::NotInitialized,
            ) && final(self).queues_spec() == old(self).queues_spec(),
            old(self).initialized() && old(self).queues_spec().len() >= old(self).max_queues_spec()
                ==> r == Err::<usize, RequestError>(RequestError::TooManyQueues) && final(
                self).queues_spec() == old(self).queues_spec(),
            old(self).initialized() && old(self).queues_spec().len() < old(self).max_queues_spec()
                ==> {
                &&& r == Ok::<usize, RequestError>(old(self).queues_spec().len() as usize)
                &&& final(self).queues_spec().len() == old(self).queues_spec().len() + 1
                &&& final(self).queues_spec().drop_last() == old(self).queues_spec()
                &&& final(self).queues_spec().last().view() == Seq::<JobMessage>::empty()
                &&& final(self).queues_spec().last().engine_spec() == engine
                &&& final(self).queues_spec().last().capacity_spec() == old(
                    self).queue_capacity_spec()
                &&& final(self).queues_spec().last().next_ticket_spec() == 0
            },
    {
        if self.kernel_vm.is_none() {
            return Err(RequestError::NotInitialized);
        }
        if self.queues.len() >= self.max_queues {
            return Err(RequestError::TooManyQueues);
        }
        let id = self.queues.len();
        self.queues.push(Workqueue::new(engine, self.queue_capacity));
        proof {
            assert(self.queues@.drop_last() =~= old(self).queues@);
        }
        Ok(id)
    }

    /// A new pending event, for a submission to signal.
    pub fn create_event(&mut self) -> (r: Result<Slot, SlotError>)
        requires
            old(self).wf(),
        ensures
            final(self).wf(),
            final(self).queues_spec() == old(self).queues_spec(),
            final(self).vms_spec() == old(self).vms_spec(),
            final(self).kernel_vm_spec() == old(self).kernel_vm_spec(),
            match crate::slotalloc::lowest_free(old(self).events_spec().slots_spec().used_view()) {
                Some(i) => {
                    &&& r == Ok::<Slot, SlotError>(
                        Slot {
                            index: i as usize,
                            generation: old(self).events_spec().slots_spec().gen_view()[i],
                        },
                    )
                    &&& final(self).events_spec().slots_spec().is_live(r->Ok_0)
                    &&& final(self).events_spec().state_of(r->Ok_0) == EventState::Pending
                },
                None => {
                    &&& r == Err::<Slot, SlotError>(SlotError::OutOfSlots)
                    &&& final(self).events_spec().states_spec() == old(
                        self).events_spec().states_spec()
                },
            },
    {
        proof {
            crate::slotalloc::lemma_lowest_free(self.events.slots_spec().used_view());
            self.events.slots_spec().lemma_capacity_fits();
        }
        self.events.create()
    }

    /// Submits `command` to queue `queue_id`, after the events `wait_on` and
    /// signalling `signal`; the queue's own checks follow those of the
    /// device and the queue id.
    pub fn submit(
        &mut self,
        queue_id: usize,
        command: u64,
        wait_on: &[Slot],
        signal: Slot,
    ) -> (r: Result<u64, RequestError>)
        requires
            old(self).wf(),
        ensures
            final(self).wf(),
            final(self).events_spec() == old(self).events_spec(),
            final(self).kernel_vm_spec() == old(self).kernel_vm_spec(),
            final(self).queues_spec().len() == old(self).queues_spec().len(),
            !old(self).initialized() ==> r == Err::<u64, RequestError>(
                RequestError::NotInitialized,
            ) && final(self).queues_spec() == old(self).queues_spec(),
            old(self).initialized() && queue_id >= old(self).queues_spec().len() ==> r == Err::<
                u64,
                RequestError,
            >(RequestError::InvalidQueue) && final(self).queues_spec() == old(self).queues_spec(),
            old(self).initialized() && queue_id < old(self).queues_spec().len() ==> {
                let q = old(self).queues_spec()[queue_id as int];
                let q2 = final(self).queues_spec()[queue_id as int];
                &&& forall|i: int|
                    0 <= i < old(self).queues_spec().len() && i != queue_id ==> final(
                        self).queues_spec()[i] == old(self).queues_spec()[i]
                &&& match q.submit_outcome(old(self).events_spec(), wait_on@, signal) {
                    Ok(t) => r == Ok::<u64, RequestError>(t) && q2.view().len() == q.view().len() + 1
                        && q2.view().drop_last() == q.view() && crate::workqueue::message_for(
                        q2.view().last(),
                        t,
                        command,
                        signal,
                        wait_on@,
                    ),
                    Err(e) => r == Err::<u64, RequestError>(RequestError::Submit(e)) && q2.view()
                        == q.view(),
                }
            },
    {
        if self.kernel_vm.is_none() {
            return Err(RequestError::NotInitialized);
        }
        if queue_id >= self.queues.len() {
            return Err(RequestError::InvalidQueue);
        }
        let r = self.queues[queue_id].submit(command, wait_on, signal, &self.events);
        match r {
            Ok(t) => Ok(t),
            Err(e) => Err(RequestError::Submit(e)),
        }
    }

    /// Handles firmware's completion notice for queue `queue_id`: retires
    /// its oldest command and applies the outcome to that command's event.
    pub fn complete(&mut self, queue_id: usize, code: u32, fault: FaultInfo) -> (r: Result<
        Option<JobMessage>,
        RequestError,
    >)
        requires
            old(self).wf(),
        ensures
            final(self).wf(),
            final(self).kernel_vm_spec() == old(self).kernel_vm_spec(),
            final(self).queues_spec().len() == old(self).queues_spec().len(),
            final(self).events_spec().slots_spec() == old(self).events_spec().slots_spec(),
            queue_id >= old(self).queues_spec().len() ==> r == Err::<
                Option<JobMessage>,
                RequestError,
            >(RequestError::InvalidQueue) && final(self).queues_spec() == old(self).queues_spec(),
            queue_id < old(self).queues_spec().len() ==> {
                let q = old(self).queues_spec()[queue_id as int];
                let q2 = final(self).queues_spec()[queue_id as int];
                &&& forall|i: int|
                    0 <= i < old(self).queues_spec().len() && i != queue_id ==> final(
                        self).queues_spec()[i] == old(self).queues_spec()[i]
                &&& q.view().len() == 0 ==> r == Ok::<Option<JobMessage>, RequestError>(None)
                    && q2.view() == q.view()
                &&& q.view().len() == 0 ==> final(self).events_spec().states_spec() == old(
                    self).events_spec().states_spec()
                &&& q.view().len() > 0 ==> r == Ok::<Option<JobMessage>, RequestError>(
                    Some(q.view()[0]),
                ) && q2.view() == q.view().drop_first()
                &&& q.view().len() > 0 ==> {
                    let ev = q.view()[0].signal.index;
                    let before = old(self).events_spec();
                    if before.slots_spec().is_held_spec(ev)
                        && before.states_spec()[ev as int] is Pending {
                        final(self).events_spec().states_spec() == before.states_spec().update(
                            ev as int,
                            crate::event::outcome_state(code, fault),
                        )
                    } else {
                        final(self).events_spec().states_spec() == before.states_spec()
                    }
                }
            },
    {
        if queue_id >= self.queues.len() {
            return Err(RequestError::InvalidQueue);
        }
        let r = self.queues[queue_id].complete(&mut self.events, code, fault);
        Ok(r)
    }

    /// One poll of a wait on `ev`; see `EventTable::wait`.
    pub fn wait(&self, ev: Slot, waited: u64, timeout: u64) -> (r: Result<
        EventState,
        crate::event::WaitError,
    >)
        requires
            self.wf(),
        ensures
            r == self.events_spec().wait_outcome(ev, waited, timeout),
    {
        self.events.wait(ev, waited, timeout)
    }

    /// Reclaims a terminal event; see `EventTable::release`.
    pub fn release_event(&mut self, ev: Slot) -> (r: Result<(), crate::event::WaitError>)
        requires
            old(self).wf(),
        ensures
            final(self).wf(),
            final(self).queues_spec() == old(self).queues_spec(),
            final(self).kernel_vm_spec() == old(self).kernel_vm_spec(),
            r is Ok <==> old(self).events_spec().slots_spec().is_live(ev)
                && crate::event::is_terminal(old(self).events_spec().state_of(ev)),
            r is Ok ==> !final(self).events_spec().slots_spec().is_live(ev),
    {
        self.events.release(ev)
    }

    /// A new user VM: a handle, and an empty address space of its own over
    /// `[USER_VA_BASE, USER_VA_LIMIT)` with this generation's page tables.
    pub fn create_vm(&mut self) -> (r: Result<Slot, RequestError>)
        requires
            old(self).wf(),
        ensures
            final(self).wf(),
            final(self).queues_spec() == old(self).queues_spec(),
            final(self).events_spec() == old(self).events_spec(),
            final(self).kernel_vm_spec() == old(self).kernel_vm_spec(),
            !old(self).initialized() ==> r == Err::<Slot, RequestError>(
                RequestError::NotInitialized,
            ) && final(self).vm_tables_spec() == old(self).vm_tables_spec(),
            old(self).initialized() ==> match crate::slotalloc::lowest_free(
                old(self).vms_spec().used_view(),
            ) {
                Some(i) => {
                    &&& r == Ok::<Slot, RequestError>(
                        Slot { index: i as usize, generation: old(self).vms_spec().gen_view()[i] },
                    )
                    &&& final(self).vms_spec().is_live(r->Ok_0)
                    &&& final(self).vm_tables_spec() == old(self).vm_tables_spec().update(
                        i,
                        final(self).vm_tables_spec()[i],
                    )
                    &&& final(self).vm_tables_spec()[i] matches Some(t) && {
                        &&& t.view() == Seq::<Mapping>::empty()
                        &&& t.base_spec() == USER_VA_BASE
                        &&& t.limit_spec() == USER_VA_LIMIT
                        &&& t.pgsize_bitmap_spec() == UAT_PGSIZE
                        &&& t.cfg_spec().oas == oas_spec(old(self).cfg_spec().gpu_gen)
                    }
                },
                None => r == Err::<Slot, RequestError>(RequestError::Vm(SlotError::OutOfSlots))
                    && final(self).vm_tables_spec() == old(self).vm_tables_spec(),
            },
    {
        if self.kernel_vm.is_none() {
            return Err(RequestError::NotInitialized);
        }
        let config = self.uat_config();
        let table = match IoPageTableInner::new(&config, USER_VA_BASE, USER_VA_LIMIT) {
            Ok(t) => t,
            Err(_) => return Err(RequestError::Vm(SlotError::OutOfSlots)),
        };
        proof {
            crate::slotalloc::lemma_lowest_free(self.vms.used_view());
            self.vms.lemma_capacity_fits();
        }
        match self.vms.alloc_slot() {
            Ok(s) => {
                self.vm_tables.set(s.index, Some(table));
                Ok(s)
            },
            Err(e) => Err(RequestError::Vm(e)),
        }
    }

    /// Destroys a user VM and its address space; a handle that is not live
    /// is refused with the reason.
    pub fn destroy_vm(&mut self, vm: Slot) -> (r: Result<(), RequestError>)
        requires
            old(self).wf(),
        ensures
            final(self).wf(),
            final(self).queues_spec() == old(self).queues_spec(),
            final(self).events_spec() == old(self).events_spec(),
            final(self).kernel_vm_spec() == old(self).kernel_vm_spec(),
            match old(self).vms_spec().check_spec(vm) {
                Ok(()) => r == Ok::<(), RequestError>(()) && !final(self).vms_spec().is_live(vm)
                    && final(self).vm_tables_spec() == old(self).vm_tables_spec().update(
                    vm.index as int,
                    None,
                ),
                Err(e) => r == Err::<(), RequestError>(RequestError::Vm(e)) && final(
                    self).vm_tables_spec() == old(self).vm_tables_spec(),
            },
    {
        match self.vms.free(vm) {
            Ok(()) => {
                self.vm_tables.set(vm.index, None);
                Ok(())
            },
            Err(e) => Err(RequestError::Vm(e)),
        }
    }

    /// The device's static capabilities.
    pub fn query_params(&self) -> (r: DeviceParams)
        requires
            self.wf(),
        ensures
            r.chip_id == self.cfg_spec().chip_id,
            r.gpu_gen == self.cfg_spec().gpu_gen,
            r.gpu_variant == self.cfg_spec().gpu_variant,
            r.firmware_version == firmware_version_spec(self.kind_spec()),
            r.page_size == UAT_PGSIZE,
            r.output_address_bits == oas_spec(self.cfg_spec().gpu_gen),
            r.max_events == self.events_spec().slots_spec().capacity_spec(),
            r.max_vms == self.vms_spec().capacity_spec(),
            r.max_queues == self.max_queues_spec(),
    {
        let config = self.uat_config();
        DeviceParams {
            chip_id: self.cfg.chip_id,
            gpu_gen: self.cfg.gpu_gen,
            gpu_variant: self.cfg.gpu_variant,
            firmware_version: firmware_version(self.kind),
            page_size: UAT_PGSIZE,
            output_address_bits: config.oas,
            max_events: self.events.capacity(),
            max_vms: self.vms.capacity(),
            max_queues: self.max_queues,
        }
    }

    /// Creates a shared-memory object of `size` bytes, backed at `paddr`
    /// and seen by the CPU at `cpu_addr`, in the kernel address space.
    pub fn alloc_shared(&mut self, paddr: u64, cpu_addr: usize, size: u64, coherent: bool) -> (r:
        Result<ShmemObject, RequestError>)
        requires
            old(self).wf(),
        ensures
            final(self).wf(),
            final(self).queues_spec() == old(self).queues_spec(),
            final(self).events_spec() == old(self).events_spec(),
            final(self).vms_spec() == old(self).vms_spec(),
            !old(self).initialized() ==> r == Err::<ShmemObject, RequestError>(
                RequestError::NotInitialized,
            ),
            old(self).kernel_vm_spec() matches Some(t) ==> (final(self).kernel_vm_spec() matches Some(
                t2,
            ) && {
                &&& r is Ok <==> size != 0 && pages_for(size) * SHMEM_PAGE <= u64::MAX
                    && t.map_outcome(
                    old(self).shmem_cursor(),
                    paddr,
                    SHMEM_PAGE,
                    pages_for(size) as u64,
                ) is Ok
                &&& r matches Ok(obj) ==> {
                    &&& obj.iova == old(self).shmem_cursor()
                    &&& obj.size == pages_for(size) * SHMEM_PAGE
                    &&& obj.paddr == paddr
                    &&& obj.cpu_addr == cpu_addr
                    &&& obj.coherent == coherent
                    &&& t2.view() == t.view().push(
                        Mapping {
                            iova: obj.iova,
                            paddr,
                            size: obj.size,
                            prot: crate::io_pgtable::PROT_READ | crate::io_pgtable::PROT_WRITE,
                        },
                    )
                }
                &&& r is Err ==> t2.view() == t.view()
                &&& size == 0 ==> r == Err::<ShmemObject, RequestError>(
                    RequestError::Alloc(AllocError::ZeroSize),
                )
                &&& size != 0 && pages_for(size) * SHMEM_PAGE > u64::MAX ==> r == Err::<
                    ShmemObject,
                    RequestError,
                >(RequestError::Alloc(AllocError::TooLarge))
                &&& size != 0 && pages_for(size) * SHMEM_PAGE <= u64::MAX ==> (t.map_outcome(
                    old(self).shmem_cursor(),
                    paddr,
                    SHMEM_PAGE,
                    pages_for(size) as u64,
                ) matches Err(e) ==> r == Err::<ShmemObject, RequestError>(
                    RequestError::Alloc(AllocError::Mapping(e)),
                ))
            }),
    {
        match &mut self.kernel_vm {
            Some(t) => match self.shmem.allocate(t, paddr, cpu_addr, size, coherent) {
                Ok(obj) => Ok(obj),
                Err(e) => Err(RequestError::Alloc(e)),
            },
            None => Err(RequestError::NotInitialized),
        }
    }

    /// Destroys a shared-memory object of the kernel address space, once
    /// firmware holds no reference to it (`fw_refs` is zero). The object
    /// must be whole pages made up of whole mappings.
    pub fn free_shared(&mut self, obj: ShmemObject, fw_refs: u32) -> (r: Result<(), RequestError>)
        requires
            old(self).wf(),
        ensures
            final(self).wf(),
            final(self).queues_spec() == old(self).queues_spec(),
            final(self).events_spec() == old(self).events_spec(),
            final(self).vms_spec() == old(self).vms_spec(),
            !old(self).initialized() ==> r == Err::<(), RequestError>(
                RequestError::NotInitialized,
            ),
            old(self).initialized() && fw_refs != 0 ==> r == Err::<(), RequestError>(
                RequestError::Alloc(AllocError::StillReferenced),
            ),
            old(self).kernel_vm_spec() matches Some(t) ==> (final(self).kernel_vm_spec() matches Some(
                t2,
            ) && {
                &&& r is Ok <==> fw_refs == 0 && obj.size % SHMEM_PAGE == 0 && t.unmap_outcome(
                    obj.iova,
                    SHMEM_PAGE,
                    obj.size / SHMEM_PAGE,
                ) is Ok
                &&& r is Ok ==> t2.view() == remove_within(
                    t.view(),
                    obj.iova as int,
                    obj.iova + obj.size,
                )
                &&& r is Err ==> t2.view() == t.view()
                &&& fw_refs == 0 && obj.size % SHMEM_PAGE != 0 ==> r == Err::<(), RequestError>(
                    RequestError::Alloc(AllocError::Mapping(MmuError::NotMapped)),
                )
                &&& fw_refs == 0 && obj.size % SHMEM_PAGE == 0 ==> (t.unmap_outcome(
                    obj.iova,
                    SHMEM_PAGE,
                    obj.size / SHMEM_PAGE,
                ) matches Err(e) ==> r == Err::<(), RequestError>(
                    RequestError::Alloc(AllocError::Mapping(e)),
                ))
            }),
    {
        match &mut self.kernel_vm {
            Some(t) => {
                let r = self.shmem.destroy(t, obj, fw_refs);
                match r {
                    Ok(()) => Ok(()),
                    Err(e) => Err(RequestError::Alloc(e)),
                }
            },
            None => Err(RequestError::NotInitialized),
        }
    }

    /// Maps firmware-visible memory into the kernel address space.
    pub fn map_kernel(&mut self, iova: u64, paddr: u64, pgcount: u64, prot: u32) -> (r:
        Result<u64, RequestError>)
        requires
            old(self).wf(),
        ensures
            final(self).wf(),
            final(self).queues_spec() == old(self).queues_spec(),
            final(self).events_spec() == old(self).events_spec(),
            final(self).vms_spec() == old(self).vms_spec(),
            !old(self).initialized() ==> r == Err::<u64, RequestError>(
                RequestError::NotInitialized,
            ),
            old(self).kernel_vm_spec() matches Some(t) ==> (final(self).kernel_vm_spec() matches Some(
                t2,
            ) && match t.map_outcome(iova, paddr, UAT_PGSIZE, pgcount) {
                Ok(size) => r == Ok::<u64, RequestError>(size as u64) && t2.view()
                    == t.view().push(Mapping { iova, paddr, size: size as u64, prot }),
                Err(e) => r == Err::<u64, RequestError>(RequestError::Mapping(e)) && t2.view()
                    == t.view(),
            }),
    {
        match &mut self.kernel_vm {
            Some(t) => match t.map_pages(iova, paddr, UAT_PGSIZE, pgcount, prot) {
                Ok(n) => Ok(n),
                Err(e) => Err(RequestError::Mapping(e)),
            },
            None => Err(RequestError::NotInitialized),
        }
    }
}

} // verus!
