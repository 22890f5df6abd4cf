use std::sync::Arc;

use fuse_transport::channel::{Channel, ReadCall};
use fuse_transport::mount::{Call, Mount, Phase};
use fuse_transport::os::{Completion, OsError};

#[test]
fn mount_then_send_a_reply_then_lose_the_session() {
    let session: isize = 0x5560_0000;
    let mut mount = Mount::new(b"/mnt/x".to_vec());
    let mut calls = Vec::new();
    for answer in [session, 0, 4, 5] {
        calls.push(mount.pending().unwrap());
        mount.advance(Completion::new(answer, 0));
    }
    assert_eq!(calls.len(), 4);
    assert_eq!(calls[0], Call::CreateSession);
    assert_eq!(calls[1], Call::MountSession { session, target: b"/mnt/x".to_vec() });
    let handle = mount.outcome().unwrap().unwrap();
    assert_eq!(handle.raw, 5);

    let channel = Channel::new(Arc::new(handle));
    let sender = channel.sender();

    let header = [0xabu8; 16];
    let payload = [0xcdu8; 100];
    let bufs: [&[u8]; 2] = [&header, &payload];
    let write = sender.send(&bufs);
    assert_eq!(write.descriptor, 5);
    assert_eq!(write.len(), Some(116));
    let mut expected = header.to_vec();
    expected.extend_from_slice(&payload);
    assert_eq!(write.contiguous(), expected);
    let written = Completion::new(116, 0);
    assert!(!write.is_short_write(written));
    assert_eq!(write.complete(written), Ok(()));

    let read = channel.receive(8192);
    assert_eq!(read, ReadCall { descriptor: 5, capacity: 8192 });
    mount.release();
    assert_eq!(mount.pending(), Some(Call::UnmountSession { session }));
    mount.advance(Completion::new(0, 0));
    assert_eq!(read.complete(Completion::new(-1, 19)), Err(OsError { code: 19 }));
    assert_eq!(mount.pending(), Some(Call::DestroySession { session }));
    mount.advance(Completion::new(0, 0));
    assert_eq!(mount.phase(), Phase::Destroyed);
    assert_eq!(mount.pending(), None);
}
