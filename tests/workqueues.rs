use asahi::event::{EventState, EventTable, FaultInfo, OUTCOME_DONE, OUTCOME_FAULT};
use asahi::slotalloc::Slot;
use asahi::workqueue::{Engine, SubmitError, Workqueue, MAX_WAITS};

const NO_FAULT: FaultInfo = FaultInfo { address: 0, kind: 0 };

#[test]
fn commands_retire_in_submission_order() {
    let mut events = EventTable::new(8);
    let mut q = Workqueue::new(Engine::Fragment, 8);
    let e1 = events.create().unwrap();
    let e2 = events.create().unwrap();
    let e3 = events.create().unwrap();
    assert_eq!(q.submit(0xc1, &[], e1, &events), Ok(0));
    assert_eq!(q.submit(0xc2, &[e1], e2, &events), Ok(1));
    assert_eq!(q.submit(0xc3, &[e1, e2], e3, &events), Ok(2));
    let r1 = q.complete(&mut events, OUTCOME_DONE, NO_FAULT).unwrap();
    let r2 = q.complete(&mut events, OUTCOME_DONE, NO_FAULT).unwrap();
    let r3 = q.complete(&mut events, OUTCOME_DONE, NO_FAULT).unwrap();
    assert_eq!((r1.command, r2.command, r3.command), (0xc1, 0xc2, 0xc3));
    assert_eq!((r1.ticket, r2.ticket, r3.ticket), (0, 1, 2));
    assert_eq!(q.complete(&mut events, OUTCOME_DONE, NO_FAULT), None);
    for e in [e1, e2, e3] {
        assert_eq!(events.state(e), Some(EventState::Signaled));
    }
}

#[test]
fn fault_on_one_entry_leaves_the_next_one_queued() {
    let mut events = EventTable::new(4);
    let mut q = Workqueue::new(Engine::Compute, 4);
    let e1 = events.create().unwrap();
    let e2 = events.create().unwrap();
    q.submit(1, &[], e1, &events).unwrap();
    q.submit(2, &[], e2, &events).unwrap();
    let f = FaultInfo { address: 0x10, kind: 1 };
    let r = q.complete(&mut events, OUTCOME_FAULT, f).unwrap();
    assert_eq!(r.signal, e1);
    assert_eq!(events.state(e1), Some(EventState::Faulted(f)));
    assert_eq!(events.state(e2), Some(EventState::Pending));
    assert_eq!(q.len(), 1);
}

#[test]
fn full_queue_is_backpressure() {
    let mut events = EventTable::new(4);
    let mut q = Workqueue::new(Engine::Vertex, 2);
    let e = events.create().unwrap();
    assert_eq!(q.submit(1, &[], e, &events), Ok(0));
    assert_eq!(q.submit(2, &[], e, &events), Ok(1));
    assert_eq!(q.submit(3, &[], e, &events), Err(SubmitError::Backpressure));
    assert_eq!(q.len(), 2);
    assert_eq!(q.retire().unwrap().command, 1);
    assert_eq!(q.submit(3, &[], e, &events), Ok(2));
    assert_eq!(q.engine(), Engine::Vertex);
}

#[test]
fn dead_events_are_refused() {
    let mut events = EventTable::new(4);
    let mut q = Workqueue::new(Engine::Vertex, 2);
    let e = events.create().unwrap();
    let dead = Slot { index: 3, generation: 0 };
    assert_eq!(q.submit(1, &[], dead, &events), Err(SubmitError::InvalidEvent));
    assert_eq!(q.submit(1, &[e, dead], e, &events), Err(SubmitError::InvalidEvent));
    assert_eq!(q.len(), 0);
    assert_eq!(q.submit(1, &[e], e, &events), Ok(0));
}

#[test]
fn blocking_submission_times_out() {
    let mut events = EventTable::new(2);
    let mut q = Workqueue::new(Engine::Vertex, 1);
    let e = events.create().unwrap();
    assert_eq!(q.submit_blocking_step(1, &[], e, &events, 0, 100), Ok(0));
    assert_eq!(q.submit_blocking_step(2, &[], e, &events, 50, 100), Err(SubmitError::Backpressure));
    assert_eq!(q.submit_blocking_step(2, &[], e, &events, 100, 100), Err(SubmitError::TimedOut));
    q.retire().unwrap();
    assert_eq!(q.submit_blocking_step(2, &[], e, &events, 500, 100), Ok(1));
}

#[test]
fn wait_lists_travel_with_the_command() {
    let mut events = EventTable::new(16);
    let mut q = Workqueue::new(Engine::Compute, 4);
    let e1 = events.create().unwrap();
    let e2 = events.create().unwrap();
    let e3 = events.create().unwrap();
    q.submit(7, &[e1, e2], e3, &events).unwrap();
    let m = q.retire().unwrap();
    assert_eq!(m.wait_count, 2);
    assert_eq!(&m.waits[..2], &[e1, e2]);
    assert_eq!(m.waits[2], Slot { index: 0, generation: 0 });
    let many: Vec<Slot> = (0..MAX_WAITS + 1).map(|_| e1).collect();
    assert_eq!(q.submit(8, &many, e3, &events), Err(SubmitError::TooManyWaits));
    assert_eq!(q.submit(8, &many[..MAX_WAITS], e3, &events), Ok(1));
    assert_eq!(q.retire().unwrap().wait_count as usize, MAX_WAITS);
}

#[test]
fn zero_capacity_queue_is_always_backpressure() {
    let mut events = EventTable::new(1);
    let mut q = Workqueue::new(Engine::Vertex, 0);
    let e = events.create().unwrap();
    assert_eq!(q.submit(1, &[], e, &events), Err(SubmitError::Backpressure));
}
