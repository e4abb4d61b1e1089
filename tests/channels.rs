use asahi::channel::{Channel, ChannelError};

#[test]
fn messages_come_out_in_order() {
    let mut c: Channel<u32> = Channel::new(4);
    assert_eq!(c.capacity(), 4);
    assert_eq!(c.poll_receive(), None);
    c.send(1).unwrap();
    c.send(2).unwrap();
    c.send(3).unwrap();
    assert_eq!(c.len(), 3);
    assert_eq!(c.poll_receive(), Some(1));
    assert_eq!(c.poll_receive(), Some(2));
    assert_eq!(c.poll_receive(), Some(3));
    assert_eq!(c.poll_receive(), None);
}

#[test]
fn full_channel_refuses_then_accepts_after_receive() {
    let mut c: Channel<u64> = Channel::new(3);
    for i in 0..3u64 {
        assert_eq!(c.send(i), Ok(()));
    }
    assert!(c.is_full());
    assert_eq!(c.send(99), Err(ChannelError::ChannelFull));
    assert_eq!(c.len(), 3);
    assert_eq!(c.poll_receive(), Some(0));
    assert_eq!(c.send(99), Ok(()));
    assert_eq!(c.poll_receive(), Some(1));
    assert_eq!(c.poll_receive(), Some(2));
    assert_eq!(c.poll_receive(), Some(99));
}

#[test]
fn occupancy_never_exceeds_capacity_across_wraparound() {
    let mut c: Channel<u32> = Channel::new(2);
    let mut expected: Vec<u32> = Vec::new();
    for i in 0..50u32 {
        if i % 3 == 2 {
            let got = c.poll_receive();
            let want = if expected.is_empty() { None } else { Some(expected.remove(0)) };
            assert_eq!(got, want);
        } else {
            let r = c.send(i);
            if expected.len() < 2 {
                assert_eq!(r, Ok(()));
                expected.push(i);
            } else {
                assert_eq!(r, Err(ChannelError::ChannelFull));
            }
        }
        assert!(c.len() <= c.capacity());
        assert_eq!(c.len(), expected.len());
    }
}

#[test]
fn blocking_send_step_times_out() {
    let mut c: Channel<u8> = Channel::new(1);
    assert_eq!(c.send_blocking_step(1, 0, 10), Ok(()));
    assert_eq!(c.send_blocking_step(2, 5, 10), Err(ChannelError::ChannelFull));
    assert_eq!(c.send_blocking_step(2, 10, 10), Err(ChannelError::TimedOut));
    assert_eq!(c.poll_receive(), Some(1));
    assert_eq!(c.send_blocking_step(2, 50, 10), Ok(()));
}

#[test]
fn zero_capacity_channel_refuses_every_send() {
    let mut c: Channel<u8> = Channel::new(0);
    assert_eq!(c.capacity(), 0);
    assert!(c.is_full());
    assert_eq!(c.send(1), Err(ChannelError::ChannelFull));
    assert_eq!(c.poll_receive(), None);
}
