use asahi::event::EventTable;
use asahi::microseq::{EncodeError, MicroOp, MicroSequenceBuilder, encode_into};
use asahi::slotalloc::Slot;

#[test]
fn reg_write_golden_bytes() {
    let mut out: Vec<u8> = Vec::new();
    encode_into(&mut out, MicroOp::RegWrite { addr: 0x1122_3344_5566_7788, value: 0xaabb_ccdd });
    assert_eq!(
        out,
        vec![1, 0, 0, 0, 0xdd, 0xcc, 0xbb, 0xaa, 0x88, 0x77, 0x66, 0x55, 0x44, 0x33, 0x22, 0x11]
    );
}

#[test]
fn sequence_golden_bytes() {
    let mut events = EventTable::new(4);
    events.create().unwrap();
    let ev = events.create().unwrap();
    let mut b = MicroSequenceBuilder::new();
    assert_eq!(b.add(MicroOp::WaitEvent { event: ev }), 0);
    assert_eq!(b.add(MicroOp::Timestamp { addr: 0xffff_ffa0_0000_1000 }), 1);
    assert_eq!(b.add(MicroOp::Jump { target: 0 }), 2);
    let bytes = b.build(&events).unwrap();
    assert_eq!(bytes.len(), 48);
    assert_eq!(&bytes[0..16], &[2, 0, 0, 0, 1, 0, 0, 0, 0, 0, 0, 0, 0, 0, 0, 0]);
    assert_eq!(&bytes[16..32], &[4, 0, 0, 0, 0, 0, 0, 0, 0x00, 0x10, 0, 0, 0xa0, 0xff, 0xff, 0xff]);
    assert_eq!(&bytes[32..48], &[3, 0, 0, 0, 0, 0, 0, 0, 0, 0, 0, 0, 0, 0, 0, 0]);
}

#[test]
fn encoding_twice_is_byte_identical() {
    let mut events = EventTable::new(2);
    let ev = events.create().unwrap();
    let mut a = MicroSequenceBuilder::new();
    let mut b = MicroSequenceBuilder::new();
    for builder in [&mut a, &mut b] {
        builder.add(MicroOp::RegWrite { addr: 0x2000, value: 7 });
        builder.add(MicroOp::WaitEvent { event: ev });
        builder.add(MicroOp::Jump { target: 1 });
    }
    let x = a.build(&events).unwrap();
    let y = b.build(&events).unwrap();
    let z = a.build(&events).unwrap();
    assert_eq!(x, y);
    assert_eq!(x, z);
    assert_eq!(x.len(), 16 * a.len());
}

#[test]
fn dangling_event_is_a_build_error() {
    let mut events = EventTable::new(2);
    let ev = events.create().unwrap();
    let mut b = MicroSequenceBuilder::new();
    b.add(MicroOp::RegWrite { addr: 0, value: 0 });
    b.add(MicroOp::WaitEvent { event: Slot { index: 1, generation: 0 } });
    b.add(MicroOp::WaitEvent { event: ev });
    assert_eq!(b.build(&events), Err(EncodeError::DanglingEvent { at: 1 }));
    let stale = ev;
    events.expire(ev);
    events.release(ev).unwrap();
    let mut c = MicroSequenceBuilder::new();
    c.add(MicroOp::WaitEvent { event: stale });
    assert_eq!(c.build(&events), Err(EncodeError::DanglingEvent { at: 0 }));
}

#[test]
fn jump_past_end_is_a_build_error() {
    let events = EventTable::new(1);
    let mut b = MicroSequenceBuilder::new();
    b.add(MicroOp::Jump { target: 1 });
    b.add(MicroOp::Jump { target: 2 });
    assert_eq!(b.build(&events), Err(EncodeError::BadJump { at: 1 }));
    let empty = MicroSequenceBuilder::new();
    assert_eq!(empty.build(&events), Ok(Vec::new()));
}
