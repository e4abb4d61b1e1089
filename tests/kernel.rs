use std::time::Duration;

use asahi::device::{Data, Device, RawDevice};
use asahi::error::Error;
use asahi::io_mem::{IoMem, Resource};
use asahi::ioctl::{_IO, _IOC, _IOR, _IOW, _IOWR, IOC_INOUT};
use asahi::of::{Node, Property};
use asahi::platform::Device as PlatformDevice;
use asahi::time::{Clock, Instance, Monotonic, Now};

#[test]
fn error_codes() {
    assert_eq!(Error::InvalidArgument.to_errno(), -22);
    assert_eq!(Error::OutOfMemory.to_errno(), -12);
    assert_eq!(Error::OutOfDomain.to_errno(), -33);
    assert_eq!(Error::NotFound.to_errno(), -2);
    assert_eq!(Error::Busy.to_errno(), -16);
}

#[test]
fn ioctl_numbers() {
    assert_eq!(_IOC(IOC_INOUT, 0x64, 0x40, 24), 0xc018_6440);
    assert_eq!(_IO(0x64, 1), 0x2000_6401);
    assert_eq!(_IOR::<u32>(0x64, 2), 0x4004_6402);
    assert_eq!(_IOW::<u64>(0x64, 3), 0x8008_6403);
    assert_eq!(_IOWR::<[u8; 16]>(0x64, 4), 0xc010_6404);
    assert_eq!(_IOC(0, 0, 0, 0x2001), 0x1_0000);
}

#[test]
fn resource_ranges() {
    assert!(Resource::new(0, 10, 0).is_none());
    assert!(Resource::new(0x2000, 0x1fff, 0).is_none());
    assert_eq!(Resource::new(1, u64::MAX, 0).unwrap().size(), u64::MAX);
    let r = Resource::new(0x1000, 0x1fff, 0).unwrap();
    assert_eq!(r.offset(), 0x1000);
    assert_eq!(r.size(), 0x1000);
}

#[test]
fn io_window_checks() {
    let r = Resource::new(0x1000, 0x1fff, 0).unwrap();
    assert!(matches!(IoMem::<0x2000>::try_new(r, 0x5000), Err(Error::InvalidArgument)));
    let odd = Resource::new(0x1004, 0x2003, 0).unwrap();
    assert!(matches!(IoMem::<0x100>::try_new(odd, 0x5000), Err(Error::OutOfDomain)));
    assert!(matches!(IoMem::<0x100>::try_new(r, 0), Err(Error::OutOfMemory)));
    assert_eq!(IoMem::<0x100>::check_resource(&r), Ok(()));
    let m = IoMem::<0x100>::try_new(r, 0x5000).unwrap();
    assert_eq!(m.vaddr(), 0x5000);
    assert_eq!(m.resource().offset(), 0x1000);
}

#[test]
fn io_offsets() {
    assert!(IoMem::<100>::offset_ok::<u32>(96));
    assert!(!IoMem::<100>::offset_ok::<u32>(97));
    assert!(!IoMem::<100>::offset_ok::<u32>(98));
    assert!(!IoMem::<100>::offset_ok::<u64>(96));
    assert!(!IoMem::<100>::offset_ok::<u8>(usize::MAX));
    let buf = [0u8; 16];
    assert!(IoMem::<100>::offset_ok_of_val(10, &buf[..]));
    assert!(IoMem::<100>::offset_ok_of_val(84, &buf[..]));
    assert!(!IoMem::<100>::offset_ok_of_val(85, &buf[..]));
}

#[test]
fn platform_resources_are_claimed_once() {
    let mut d = PlatformDevice::new();
    assert_eq!(d.set_dma_masks(u64::MAX), Ok(()));
    let r = d.get_resource(3, 0x1000, 0x1fff).unwrap();
    assert_eq!(r.size(), 0x1000);
    assert!(matches!(d.get_resource(3, 0x1000, 0x1fff), Err(Error::Busy)));
    assert!(matches!(d.get_resource(4, 0, 0x1fff), Err(Error::InvalidArgument)));
    assert!(matches!(d.claim_io_resource::<0x2000>(5, 0x1000, 0x1fff), Err(Error::InvalidArgument)));
    assert!(matches!(d.claim_io_resource::<0x100>(5, 0x1004, 0x1fff), Err(Error::OutOfDomain)));
    let res = d.claim_io_resource::<0x1000>(5, 0x1000, 0x1fff).unwrap();
    assert!(matches!(d.claim_io_resource::<0x1000>(5, 0x1000, 0x1fff), Err(Error::Busy)));
    let m = d.ioremap_resource::<0x1000>(5, res, 0x9000).unwrap();
    assert_eq!(m.vaddr(), 0x9000);
    assert!(matches!(d.claim_io_resource::<0x1000>(5, 0x1000, 0x1fff), Err(Error::Busy)));
    let res6 = d.claim_io_resource::<0x1000>(6, 0x3000, 0x3fff).unwrap();
    assert!(matches!(d.ioremap_resource::<0x1000>(6, res6, 0), Err(Error::OutOfMemory)));
    assert!(d.claim_io_resource::<0x1000>(6, 0x3000, 0x3fff).is_ok());
}

#[test]
fn nodes_and_iteration() {
    assert_eq!(Node::from_handle(0), None);
    let n = Node::from_handle(42).unwrap();
    assert_eq!(n.handle(), 42);
    assert_eq!(n.parent(7), Some(Node { raw_node: 7 }));
    let mut it = n.child(10);
    assert_eq!(it.next(0), Some(Node { raw_node: 10 }));
    assert_eq!(it.current(), 10);
    assert_eq!(it.next(11), Some(Node { raw_node: 11 }));
    assert_eq!(it.next(0), None);
    assert_eq!(it.next(12), None);
    let mut none = n.child(0);
    assert_eq!(none.next(5), None);
    assert_eq!(none.next(5), None);
}

#[test]
fn properties_decode_big_endian() {
    let n = Node::from_handle(1).unwrap();
    let p = Property::from_vec(vec![0, 0, 0, 13, 0, 0, 0, 5, 0, 0, 0, 0]);
    assert_eq!(p.len(), 12);
    assert_eq!(p.value(), &[0, 0, 0, 13, 0, 0, 0, 5, 0, 0, 0, 0]);
    let compat: Vec<u32> = n.get_property(Some(p)).unwrap();
    assert_eq!(compat, vec![13, 5, 0]);
    let bad = Property::from_vec(vec![1, 2, 3]);
    assert_eq!(n.get_property::<u32>(Some(bad)), Err(Error::InvalidArgument));
    assert_eq!(n.get_property::<u32>(None), Err(Error::NotFound));
    assert_eq!(n.get_opt_property::<u16>(None), Ok(None));
    let p16 = Property::from_vec(vec![0x12, 0x34, 0xff, 0xfe]);
    assert_eq!(n.get_opt_property::<u16>(Some(p16)), Ok(Some(vec![0x1234, 0xfffe])));
    let p16 = Property::from_vec(vec![0x12, 0x34, 0xff, 0xfe]);
    assert_eq!(p16.to_units::<i16>(), Ok(vec![0x1234, -2]));
    assert_eq!(p16.to_value::<u32>(), Ok(0x1234_fffe));
    assert_eq!(p16.to_value::<i32>(), Ok(0x1234_fffe));
    assert_eq!(p16.to_value::<u64>(), Err(Error::InvalidArgument));
    let p64 = Property::from_vec(vec![0xff; 8]);
    assert_eq!(p64.to_value::<i64>(), Ok(-1));
    assert_eq!(p64.to_units::<u8>(), Ok(vec![0xff; 8]));
}

#[derive(Debug)]
struct TestClock;

impl Clock for TestClock {}

impl Monotonic for TestClock {}

impl Now for TestClock {
    fn now() -> Instance<Self> {
        Instance::new(5_000)
    }
}

#[test]
fn instants_and_durations() {
    let a: Instance<TestClock> = Instance::new(1_000);
    let b: Instance<TestClock> = Instance::new(4_500);
    assert_eq!(b.since(a.clone()), Some(Duration::from_nanos(3_500)));
    assert_eq!(a.since(b.clone()), None);
    assert_eq!(a.elapsed(), Duration::from_nanos(4_000));
    let later: Instance<TestClock> = Instance::new(9_000);
    assert_eq!(later.elapsed(), Duration::ZERO);
    assert_eq!(later.as_nanos(), 9_000);
    assert_eq!(a.elapsed_at(b), Duration::from_nanos(3_500));
    assert_eq!(b.elapsed_at(a), Duration::ZERO);
    let copied = a;
    assert_eq!(copied.as_nanos(), a.as_nanos());
}

struct Fake(usize);

impl RawDevice for Fake {
    fn raw_device(&self) -> usize {
        self.0
    }

    fn of_node(&self) -> Option<Node> {
        Node::from_handle(3)
    }
}

#[test]
fn device_data() {
    let d = Device::from_dev(&Fake(0x77));
    assert_eq!(d.raw_device(), 0x77);
    assert_eq!(d.of_node(), None);
    let data = Data::try_new(1u8, "res", vec![1, 2]).unwrap();
    assert_eq!(data.registrations(), Some(&1u8));
    assert_eq!(data.res(), Some(&"res"));
    assert_eq!(data.general(), &vec![1, 2]);
}
