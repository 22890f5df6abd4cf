use std::sync::Arc;

use fuse_transport::channel::{Channel, ChannelSender, Handle, ReadCall};
use fuse_transport::os::{Completion, OsError};

fn channel_on(raw: isize) -> Channel {
    Channel::new(Arc::new(Handle { raw }))
}

fn ramp(start: u8, len: usize) -> Vec<u8> {
    (0..len).map(|i| start.wrapping_add(i as u8)).collect()
}

#[test]
fn receive_names_the_handle_and_the_capacity() {
    let channel = channel_on(7);
    assert_eq!(channel.descriptor(), 7);
    assert_eq!(channel.receive(8192), ReadCall { descriptor: 7, capacity: 8192 });
    assert_eq!(channel.receive(0), ReadCall { descriptor: 7, capacity: 0 });
}

#[test]
fn receive_reports_the_bytes_delivered() {
    let call = channel_on(3).receive(4096);
    assert_eq!(call.complete(Completion::new(40, 0)), Ok(40));
    assert_eq!(call.complete(Completion::new(4096, 0)), Ok(4096));
}

#[test]
fn receive_reports_an_empty_read_as_success() {
    let call = channel_on(3).receive(4096);
    assert_eq!(call.complete(Completion::new(0, 0)), Ok(0));
}

#[test]
fn receive_ignores_a_stale_error_code_on_success() {
    let call = channel_on(3).receive(4096);
    assert_eq!(call.complete(Completion::new(12, 11)), Ok(12));
}

#[test]
fn receive_on_a_closed_handle_propagates_the_error() {
    let call = channel_on(-1).receive(4096);
    assert_eq!(call.complete(Completion::new(-1, 9)), Err(OsError { code: 9 }));
}

#[test]
fn receive_after_unmount_propagates_the_error() {
    let call = channel_on(5).receive(4096);
    assert_eq!(call.complete(Completion::new(-1, 19)), Err(OsError { code: 19 }));
}

#[test]
fn receive_treats_every_negative_return_as_failure() {
    let call = channel_on(5).receive(16);
    assert_eq!(call.complete(Completion::new(-7, 4)), Err(OsError { code: 4 }));
    assert_eq!(call.complete(Completion::new(isize::MIN, 5)), Err(OsError { code: 5 }));
}

#[test]
fn receive_stays_within_capacity_for_a_read_that_does() {
    for capacity in [0usize, 1, 80, 4096] {
        let call = channel_on(5).receive(capacity);
        for returned in 0..=capacity.min(90) {
            let count = call.complete(Completion::new(returned as isize, 0)).unwrap();
            assert!(count <= capacity);
            assert_eq!(count, returned);
        }
    }
}

#[test]
fn completion_keeps_value_and_error_code() {
    let done = Completion::new(-1, 5);
    assert_eq!(done, Completion { value: -1, last_error: 5 });
    assert_eq!(done.into_error(), OsError { code: 5 });
}

#[test]
fn sender_shares_the_handle_of_the_channel() {
    let channel = channel_on(11);
    let first = channel.sender();
    let second = channel.sender();
    assert_eq!(first.descriptor(), 11);
    assert_eq!(second.descriptor(), 11);
    assert_eq!(channel.descriptor(), 11);
}

#[test]
fn sender_clones_share_the_handle() {
    let device = Arc::new(Handle { raw: 11 });
    let channel = Channel::new(device.clone());
    let sender = channel.sender();
    let clones: Vec<ChannelSender> = (0..8).map(|_| sender.clone()).collect();
    assert_eq!(Arc::strong_count(&device), 11);
    for clone in &clones {
        assert_eq!(clone.descriptor(), 11);
        assert_eq!(clone.send(&[&[1u8, 2, 3][..]]).descriptor, 11);
    }
    drop(channel);
    drop(sender);
    assert_eq!(Arc::strong_count(&device), 9);
    assert_eq!(clones[7].descriptor(), 11);
}

#[test]
fn each_clone_describes_one_whole_write_of_its_own() {
    let sender = channel_on(4).sender();
    let other = sender.clone();
    let first = [ramp(0, 16), ramp(100, 20)];
    let second = [ramp(50, 3)];
    let first_bufs: Vec<&[u8]> = first.iter().map(|b| &b[..]).collect();
    let second_bufs: Vec<&[u8]> = second.iter().map(|b| &b[..]).collect();
    let a = sender.send(&first_bufs);
    let b = other.send(&second_bufs);
    assert_eq!(a.len(), Some(36));
    assert_eq!(b.len(), Some(3));
    assert_eq!(a.contiguous(), [ramp(0, 16), ramp(100, 20)].concat());
    assert_eq!(b.contiguous(), ramp(50, 3));
}

#[test]
fn send_covers_header_and_payload_in_one_write() {
    let header = ramp(1, 16);
    let payload = ramp(200, 100);
    let bufs: [&[u8]; 2] = [&header, &payload];
    let call = channel_on(9).sender().send(&bufs);
    assert_eq!(call.descriptor, 9);
    assert_eq!(call.segments.len(), 2);
    assert_eq!(call.segments[0], &header[..]);
    assert_eq!(call.segments[1], &payload[..]);
    assert_eq!(call.len(), Some(116));
    let bytes = call.contiguous();
    assert_eq!(bytes.len(), 116);
    assert_eq!(&bytes[..16], &header[..]);
    assert_eq!(&bytes[16..], &payload[..]);
}

#[test]
fn send_keeps_the_order_of_the_buffers() {
    let bufs: [&[u8]; 4] = [&[3, 1], &[], &[4, 1, 5], &[9]];
    let call = channel_on(9).sender().send(&bufs);
    assert_eq!(call.len(), Some(6));
    assert_eq!(call.contiguous(), vec![3, 1, 4, 1, 5, 9]);
}

#[test]
fn send_of_nothing_is_an_empty_write() {
    let bufs: [&[u8]; 0] = [];
    let call = channel_on(9).sender().send(&bufs);
    assert_eq!(call.len(), Some(0));
    assert_eq!(call.contiguous(), Vec::<u8>::new());
    assert!(!call.is_short_write(Completion::new(0, 0)));
    assert!(call.is_short_write(Completion::new(1, 0)));
}

#[test]
fn send_length_counts_a_buffer_each_time_it_is_named() {
    let block = vec![7u8; 1 << 20];
    let bufs: Vec<&[u8]> = vec![&block[..]; 1 << 12];
    let call = channel_on(9).sender().send(&bufs);
    // Four gibibytes in all: beyond a word of 32 bits, within one of 64.
    match (1usize << 20).checked_mul(1 << 12) {
        Some(total) => {
            assert_eq!(call.len(), Some(total));
            assert!(!call.is_short_write(Completion::new(total as isize, 0)));
            assert!(call.is_short_write(Completion::new(1 << 20, 0)));
        }
        None => {
            assert_eq!(call.len(), None);
            assert!(call.is_short_write(Completion::new(isize::MAX, 0)));
            assert!(!call.is_short_write(Completion::new(-1, 22)));
        }
    }
}

#[test]
fn send_succeeds_when_the_write_returns_a_count() {
    let bufs: [&[u8]; 2] = [&[1, 2, 3], &[4, 5]];
    let call = channel_on(9).sender().send(&bufs);
    assert_eq!(call.complete(Completion::new(5, 0)), Ok(()));
    assert!(!call.is_short_write(Completion::new(5, 0)));
}

#[test]
fn send_propagates_the_error_of_the_write() {
    let bufs: [&[u8]; 2] = [&[1, 2, 3], &[4, 5]];
    let call = channel_on(9).sender().send(&bufs);
    assert_eq!(call.complete(Completion::new(-1, 32)), Err(OsError { code: 32 }));
    assert_eq!(call.complete(Completion::new(-1, 9)), Err(OsError { code: 9 }));
    assert!(!call.is_short_write(Completion::new(-1, 32)));
}

#[test]
fn short_write_trips_the_consistency_check() {
    let header = ramp(1, 16);
    let payload = ramp(200, 100);
    let bufs: [&[u8]; 2] = [&header, &payload];
    let call = channel_on(9).sender().send(&bufs);
    for written in 0..116 {
        assert!(call.is_short_write(Completion::new(written, 0)));
    }
    assert!(!call.is_short_write(Completion::new(116, 0)));
    assert!(call.is_short_write(Completion::new(117, 0)));
}

#[test]
fn short_write_is_told_apart_before_completion() {
    let bufs: [&[u8]; 1] = [&[1, 2, 3, 4]];
    let call = channel_on(9).sender().send(&bufs);
    assert!(call.is_short_write(Completion::new(2, 0)));
    assert!(call.is_short_write(Completion::new(0, 0)));
    assert!(!call.is_short_write(Completion::new(4, 0)));
    assert_eq!(call.complete(Completion::new(4, 0)), Ok(()));
}

#[test]
fn a_write_of_100_of_116_bytes_is_short() {
    let header = [0u8; 16];
    let payload = [0u8; 100];
    let bufs: [&[u8]; 2] = [&header, &payload];
    let call = channel_on(9).sender().send(&bufs);
    assert_eq!(call.len(), Some(116));
    assert!(call.is_short_write(Completion::new(100, 0)));
}

#[test]
fn overrun_is_a_return_above_the_capacity() {
    let call = channel_on(5).receive(4);
    assert!(call.overruns(Completion::new(9, 0)));
    assert!(call.overruns(Completion::new(5, 0)));
    assert!(!call.overruns(Completion::new(4, 0)));
    assert!(!call.overruns(Completion::new(0, 0)));
    assert!(!call.overruns(Completion::new(-1, 9)));
    let empty = channel_on(5).receive(0);
    assert!(empty.overruns(Completion::new(1, 0)));
    assert!(!empty.overruns(Completion::new(0, 0)));
    let widest = channel_on(5).receive(usize::MAX);
    assert!(!widest.overruns(Completion::new(isize::MAX, 0)));
}

fn is_send_and_sync<T: Send + Sync>() -> bool {
    true
}

#[test]
fn senders_and_channels_may_cross_threads() {
    assert!(is_send_and_sync::<ChannelSender>());
    assert!(is_send_and_sync::<Channel>());
}
