use asahi::event::{EventState, EventTable, FaultInfo, WaitError, decode_outcome, OUTCOME_DONE, OUTCOME_FAULT, OUTCOME_TIMEOUT};
use asahi::slotalloc::{Slot, SlotError};

const NO_FAULT: FaultInfo = FaultInfo { address: 0, kind: 0 };

#[test]
fn never_signalled_event_times_out_at_once_with_zero_timeout() {
    let mut t = EventTable::new(4);
    let ev = t.create().unwrap();
    assert_eq!(t.wait(ev, 0, 0), Err(WaitError::TimedOut));
}

#[test]
fn wait_with_ten_millisecond_timeout() {
    let mut t = EventTable::new(4);
    let ev = t.create().unwrap();
    let timeout: u64 = 10_000_000;
    assert_eq!(t.wait(ev, 0, timeout), Err(WaitError::WouldBlock));
    assert_eq!(t.wait(ev, 9_999_999, timeout), Err(WaitError::WouldBlock));
    assert_eq!(t.wait(ev, 10_000_000, timeout), Err(WaitError::TimedOut));
    assert_eq!(t.state(ev), Some(EventState::Pending));
}

#[test]
fn signal_releases_all_waiters_with_same_outcome() {
    let mut t = EventTable::new(2);
    let ev = t.create().unwrap();
    assert!(t.signal(ev.index, OUTCOME_DONE, NO_FAULT));
    assert_eq!(t.wait(ev, 0, 100), Ok(EventState::Signaled));
    assert_eq!(t.wait(ev, 500, 100), Ok(EventState::Signaled));
}

#[test]
fn terminal_state_does_not_change() {
    let mut t = EventTable::new(2);
    let ev = t.create().unwrap();
    let f = FaultInfo { address: 0xdead_0000, kind: 7 };
    assert!(t.signal(ev.index, OUTCOME_FAULT, f));
    assert!(!t.signal(ev.index, OUTCOME_DONE, NO_FAULT));
    assert!(!t.expire(ev));
    assert_eq!(t.state(ev), Some(EventState::Faulted(f)));
}

#[test]
fn unknown_outcome_code_is_a_fault() {
    assert_eq!(decode_outcome(OUTCOME_DONE, NO_FAULT), EventState::Signaled);
    assert_eq!(decode_outcome(OUTCOME_TIMEOUT, NO_FAULT), EventState::TimedOut);
    let f = FaultInfo { address: 0x1234, kind: 3 };
    assert_eq!(decode_outcome(OUTCOME_FAULT, f), EventState::Faulted(f));
    assert_eq!(decode_outcome(42, f), EventState::Faulted(FaultInfo { address: 0x1234, kind: 42 }));
}

#[test]
fn signal_on_free_slot_is_ignored() {
    let mut t = EventTable::new(2);
    assert!(!t.signal(0, OUTCOME_DONE, NO_FAULT));
    assert!(!t.signal(9, OUTCOME_DONE, NO_FAULT));
}

#[test]
fn release_needs_terminal_state() {
    let mut t = EventTable::new(1);
    let ev = t.create().unwrap();
    assert_eq!(t.create(), Err(SlotError::OutOfSlots));
    assert_eq!(t.release(ev), Err(WaitError::WouldBlock));
    assert!(t.expire(ev));
    assert_eq!(t.wait(ev, 0, 0), Ok(EventState::TimedOut));
    assert_eq!(t.release(ev), Ok(()));
    assert_eq!(t.release(ev), Err(WaitError::InvalidEvent));
    assert_eq!(t.wait(ev, 0, 0), Err(WaitError::InvalidEvent));
    let again = t.create().unwrap();
    assert_eq!(again, Slot { index: 0, generation: 1 });
    assert_eq!(t.state(ev), None);
    assert_eq!(t.state(again), Some(EventState::Pending));
}
