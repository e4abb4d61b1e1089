use asahi::event::{EventState, FaultInfo, WaitError, OUTCOME_DONE};
use asahi::gpu::{FirmwareVersion, GpuManager, InitError, RequestError};
use asahi::hw::{chip_from_compatible, hw_config, hw_config_for_compatible, hw_config_for_compatibles, select_manager, GpuGen, GpuVariant, HwConfig, ManagerKind};
use asahi::io_pgtable::{MmuError, PROT_READ};
use asahi::slotalloc::SlotError;
use asahi::workqueue::{Engine, SubmitError};

const V13_5: FirmwareVersion = FirmwareVersion { major: 13, minor: 5, patch: 0 };

fn t8103() -> HwConfig {
    hw_config(0x8103).unwrap()
}

#[test]
fn compatible_strings_name_chips() {
    assert_eq!(chip_from_compatible(b"apple,agx-t8103"), Some(0x8103));
    assert_eq!(chip_from_compatible(b"apple,agx-t600A"), Some(0x600a));
    assert_eq!(chip_from_compatible(b"apple,agx-t810"), None);
    assert_eq!(chip_from_compatible(b"apple,agx-g8103"), None);
    assert_eq!(chip_from_compatible(b"apple,agx-t81x3"), None);
    let c = hw_config_for_compatible(b"apple,agx-t6021").unwrap();
    assert_eq!(c, HwConfig { chip_id: 0x6021, gpu_gen: GpuGen::G14, gpu_variant: GpuVariant::C });
    assert_eq!(hw_config_for_compatible(b"apple,agx-t9999"), None);
}

#[test]
fn manager_variant_table() {
    assert_eq!(select_manager(GpuGen::G13, GpuVariant::G, &[12, 3, 0]), Some(ManagerKind::G13V12_3));
    assert_eq!(select_manager(GpuGen::G14, GpuVariant::G, &[12, 4, 0]), Some(ManagerKind::G14V12_4));
    assert_eq!(select_manager(GpuGen::G14, GpuVariant::S, &[12, 4, 0]), None);
    assert_eq!(select_manager(GpuGen::G13, GpuVariant::D, &[13, 5, 0]), Some(ManagerKind::G13V13_5));
    assert_eq!(select_manager(GpuGen::G14, GpuVariant::G, &[13, 5, 0]), Some(ManagerKind::G14V13_5));
    assert_eq!(select_manager(GpuGen::G14, GpuVariant::C, &[13, 5, 0]), Some(ManagerKind::G14XV13_5));
    assert_eq!(select_manager(GpuGen::G14, GpuVariant::G, &[12, 3, 0]), None);
    assert_eq!(select_manager(GpuGen::G13, GpuVariant::G, &[13, 5]), None);
    assert_eq!(select_manager(GpuGen::G13, GpuVariant::G, &[13, 5, 0, 0]), None);
}

#[test]
fn unsupported_combination_is_refused() {
    assert!(matches!(GpuManager::new(t8103(), &[11, 0, 0], 4, 4, 2, 4), Err(InitError::Unsupported)));
}

#[test]
fn init_checks_handshake_and_runs_once() {
    let mut m = GpuManager::new(t8103(), &[13, 5, 0], 4, 4, 2, 4).unwrap();
    assert_eq!(m.queue_create(Engine::Vertex), Err(RequestError::NotInitialized));
    assert_eq!(m.init(V13_5), Ok(()));
    assert_eq!(m.init(V13_5), Err(InitError::AlreadyInitialized));
}

#[test]
fn failed_handshake_leaves_device_unusable() {
    let mut m = GpuManager::new(t8103(), &[13, 5, 0], 4, 4, 2, 4).unwrap();
    assert_eq!(m.init(FirmwareVersion { major: 12, minor: 3, patch: 0 }), Err(InitError::HandshakeMismatch));
    assert_eq!(m.init(V13_5), Err(InitError::DeviceUnusable));
    assert_eq!(m.queue_create(Engine::Vertex), Err(RequestError::NotInitialized));
    assert_eq!(m.create_vm(), Err(RequestError::NotInitialized));
}

#[test]
fn first_table_entry_the_node_names_wins() {
    let names: Vec<Vec<u8>> = vec![b"apple,agx-t9999".to_vec(), b"apple,gpu".to_vec(), b"apple,agx-t6001".to_vec(), b"apple,agx-t8103".to_vec()];
    assert_eq!(hw_config_for_compatibles(&names), hw_config(0x8103));
    assert_eq!(hw_config_for_compatibles(&names[..3]), hw_config(0x6001));
    assert_eq!(hw_config_for_compatibles(&names[..2]), None);
    let both: Vec<Vec<u8>> = vec![b"apple,agx-t8112".to_vec(), b"apple,agx-t8103".to_vec()];
    assert_eq!(hw_config_for_compatibles(&both), hw_config(0x8103));
    assert_eq!(hw_config_for_compatibles(&[]), None);
}

#[test]
fn create_event_takes_lowest_free_slot() {
    let mut m = GpuManager::new(t8103(), &[13, 5, 0], 2, 1, 1, 2).unwrap();
    let a = m.create_event().unwrap();
    let b = m.create_event().unwrap();
    assert_eq!((a.index, b.index), (0, 1));
    assert_eq!(m.create_event(), Err(SlotError::OutOfSlots));
    assert_eq!(m.wait(a, 0, 0), Err(WaitError::TimedOut));
}

#[test]
fn submit_and_complete_through_the_manager() {
    let mut m = GpuManager::new(t8103(), &[13, 5, 0], 4, 4, 1, 2).unwrap();
    let ev = m.create_event().unwrap();
    assert_eq!(m.submit(0, 1, &[], ev), Err(RequestError::NotInitialized));
    m.init(V13_5).unwrap();
    assert_eq!(m.submit(0, 1, &[], ev), Err(RequestError::InvalidQueue));
    let q = m.queue_create(Engine::Fragment).unwrap();
    assert_eq!(q, 0);
    assert_eq!(m.queue_create(Engine::Compute), Err(RequestError::TooManyQueues));
    assert_eq!(m.submit(q, 0x100, &[], ev), Ok(0));
    assert_eq!(m.submit(q, 0x200, &[], ev), Ok(1));
    assert_eq!(m.submit(q, 0x300, &[], ev), Err(RequestError::Submit(SubmitError::Backpressure)));
    assert_eq!(m.wait(ev, 0, 0), Err(WaitError::TimedOut));
    let done = m.complete(q, OUTCOME_DONE, FaultInfo { address: 0, kind: 0 }).unwrap().unwrap();
    assert_eq!(done.command, 0x100);
    assert_eq!(m.wait(ev, 0, 0), Ok(EventState::Signaled));
    let done2 = m.complete(q, 1, FaultInfo { address: 8, kind: 2 }).unwrap().unwrap();
    assert_eq!(done2.command, 0x200);
    assert_eq!(m.wait(ev, 0, 0), Ok(EventState::Signaled));
    assert_eq!(m.complete(q, OUTCOME_DONE, FaultInfo { address: 0, kind: 0 }), Ok(None));
    assert_eq!(m.complete(5, OUTCOME_DONE, FaultInfo { address: 0, kind: 0 }), Err(RequestError::InvalidQueue));
    assert_eq!(m.release_event(ev), Ok(()));
}

#[test]
fn vm_handles_are_checked() {
    let mut m = GpuManager::new(t8103(), &[13, 5, 0], 4, 1, 1, 2).unwrap();
    assert_eq!(m.create_vm(), Err(RequestError::NotInitialized));
    m.init(V13_5).unwrap();
    let vm = m.create_vm().unwrap();
    assert_eq!(m.create_vm(), Err(RequestError::Vm(SlotError::OutOfSlots)));
    assert_eq!(m.destroy_vm(vm), Ok(()));
    assert_eq!(m.destroy_vm(vm), Err(RequestError::Vm(SlotError::NotAllocated)));
    let vm2 = m.create_vm().unwrap();
    assert_eq!(vm2.generation, 1);
    assert_eq!(m.destroy_vm(vm), Err(RequestError::Vm(SlotError::StaleGeneration)));
}

#[test]
fn kernel_mappings_and_params() {
    let mut m = GpuManager::new(hw_config(0x6022).unwrap(), &[13, 5, 0], 16, 8, 3, 4).unwrap();
    assert_eq!(m.map_kernel(0xffff_ffa0_0000_0000, 0x8_0000_0000, 1, PROT_READ), Err(RequestError::NotInitialized));
    m.init(V13_5).unwrap();
    assert_eq!(m.map_kernel(0xffff_ffa0_0000_0000, 0x8_0000_0000, 2, PROT_READ), Ok(0x8000));
    assert_eq!(
        m.map_kernel(0xffff_ffa0_0000_4000, 0x9_0000_0000, 1, PROT_READ),
        Err(RequestError::Mapping(MmuError::Overlap))
    );
    let p = m.query_params();
    assert_eq!(p.chip_id, 0x6022);
    assert_eq!(p.gpu_gen, GpuGen::G14);
    assert_eq!(p.gpu_variant, GpuVariant::D);
    assert_eq!(p.firmware_version, V13_5);
    assert_eq!(p.page_size, 0x4000);
    assert_eq!(p.output_address_bits, 42);
    assert_eq!((p.max_events, p.max_vms, p.max_queues), (16, 8, 3));
}

#[test]
fn each_vm_gets_its_own_address_space() {
    let mut m = GpuManager::new(t8103(), &[13, 5, 0], 4, 2, 1, 2).unwrap();
    m.init(V13_5).unwrap();
    let a = m.create_vm().unwrap();
    let b = m.create_vm().unwrap();
    assert_ne!(a.index, b.index);
    assert_eq!(m.destroy_vm(a), Ok(()));
    let c = m.create_vm().unwrap();
    assert_eq!((c.index, c.generation), (a.index, a.generation + 1));
}
