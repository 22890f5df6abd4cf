//! The two sides of a communication handle: one reader, any number of
//! writers.

use std::sync::Arc;
use vstd::prelude::*;
use zerocopy::AsBytes;

use crate::os::Completion;
use crate::os::OsError;

verus! {

/// The open connection of one mounted filesystem, by the number under
/// which the platform knows it.
///
/// A handle is not copied: whoever needs the connection shares the one
/// handle by reference count.
#[derive(Debug, PartialEq, Eq, Structural)]
pub struct Handle {
    pub raw: isize,
}

/// The read side of a communication handle.
#[derive(Debug)]
pub struct Channel {
    device: Arc<Handle>,
}

/// The write side of a communication handle. Clones share the handle.
#[derive(Debug)]
pub struct ChannelSender {
    device: Arc<Handle>,
}

/// One blocking read, described: where from, and how much at most.
#[derive(Clone, Copy, Debug, PartialEq, Eq, Structural)]
pub struct ReadCall {
    pub descriptor: isize,
    pub capacity: usize,
}

/// One write that carries a whole reply: where to, and the buffers that
/// make up the reply, in their order.
#[derive(Clone, Copy, Debug)]
pub struct WriteCall<'a> {
    pub descriptor: isize,
    pub segments: &'a [&'a [u8]],
}

/// The contents of each buffer of a sequence, in the same order.
pub open spec fn contents(bufs: Seq<&[u8]>) -> Seq<Seq<u8>> {
    bufs.map_values(|buf: &[u8]| buf@)
}

/// The combined length of the buffers: the sum of their lengths.
pub open spec fn combined_len(segments: Seq<Seq<u8>>) -> nat
    decreases segments.len(),
{
    if segments.len() == 0 {
        0
    } else {
        combined_len(segments.drop_last()) + segments.last().len()
    }
}

/// Buffers laid end to end are as long as the buffers are together.
pub proof fn lemma_flatten_len(segments: Seq<Seq<u8>>)
    ensures
        segments.flatten().len() == combined_len(segments),
    decreases segments.len(),
{
    if segments.len() == 0 {
        assert(segments.flatten() =~= Seq::<u8>::empty());
    } else {
        lemma_flatten_len(segments.drop_last());
        segments.drop_last().lemma_flatten_push(segments.last());
        assert(segments.drop_last().push(segments.last()) == segments);
    }
}

/// `Arc::clone` of std: a further pointer to the same allocation, so the
/// handle behind the result is the handle behind the argument.
#[verifier::external_body]
fn share(device: &Arc<Handle>) -> (shared: Arc<Handle>)
    ensures
        *shared == **device,
{
    Arc::clone(device)
}

impl View for Channel {
    type V = Handle;

    closed spec fn view(&self) -> Handle {
        *self.device
    }
}

impl View for ChannelSender {
    type V = Handle;

    closed spec fn view(&self) -> Handle {
        *self.device
    }
}

impl Channel {
    /// Wraps the shared handle. Nothing is read or written.
    pub fn new(device: Arc<Handle>) -> (channel: Channel)
        ensures
            channel@ == *device,
    {
        Channel { device }
    }

    /// The number of the handle that this channel reads from.
    pub fn descriptor(&self) -> (raw: isize)
        ensures
            raw == self@.raw,
    {
        self.device.raw
    }

    /// Describes the one read that receives the next request into a buffer
    /// of `capacity` bytes.
    pub fn receive(&self, capacity: usize) -> (call: ReadCall)
        ensures
            call == (ReadCall { descriptor: self@.raw, capacity }),
    {
        ReadCall { descriptor: self.device.raw, capacity }
    }

    /// A sender on the handle of this channel. Any number may be derived,
    /// whatever senders exist already.
    pub fn sender(&self) -> (sender: ChannelSender)
        ensures
            sender@ == self@,
    {
        ChannelSender { device: share(&self.device) }
    }
}

impl ReadCall {
    /// What the read amounts to, given what the primitive handed back: a
    /// negative value is the failure sentinel and becomes the platform's
    /// error; any other value is the number of bytes delivered.
    pub open spec fn outcome(self, done: Completion) -> Result<usize, OsError> {
        if done.value < 0 {
            Err(done.error())
        } else {
            Ok(done.value as usize)
        }
    }

    /// Whether the read handed back more bytes than it was given room for.
    /// No read does; a return that says so is no outcome of this call.
    pub fn overruns(&self, done: Completion) -> (over: bool)
        ensures
            over <==> done.value > self.capacity,
    {
        done.value >= 0 && done.value as usize > self.capacity
    }

    /// Turns the return of the read into the result of the receive: the
    /// platform's error for the failure sentinel, the number of bytes
    /// delivered otherwise, which is never more than the buffer holds.
    /// Nothing is retried and no error is swallowed.
    pub fn complete(&self, done: Completion) -> (result: Result<usize, OsError>)
        requires
            done.value <= self.capacity,
        ensures
            result == self.outcome(done),
            result is Ok <==> done.value >= 0,
            result matches Ok(count) ==> count == done.value && count <= self.capacity,
    {
        if done.value < 0 {
            Err(done.into_error())
        } else {
            Ok(done.value as usize)
        }
    }
}

impl Clone for ChannelSender {
    /// A further sender on the same handle.
    fn clone(&self) -> (copy: Self)
        ensures
            copy@ == self@,
    {
        ChannelSender { device: share(&self.device) }
    }
}

impl ChannelSender {
    /// The number of the handle that this sender writes to.
    pub fn descriptor(&self) -> (raw: isize)
        ensures
            raw == self@.raw,
    {
        self.device.raw
    }

    /// Describes the one write that sends a reply made of `bufs`: a single
    /// call on the handle of this sender that covers every buffer, in
    /// order, so that no other sender's reply can fall between two of them.
    pub fn send<'a>(&self, bufs: &'a [&'a [u8]]) -> (call: WriteCall<'a>)
        ensures
            call.descriptor == self@.raw,
            call.segments@ == bufs@,
            call.payload() == contents(bufs@).flatten(),
            call.payload().len() == combined_len(contents(bufs@)),
    {
        proof {
            lemma_flatten_len(contents(bufs@));
        }
        WriteCall { descriptor: self.device.raw, segments: bufs }
    }
}

/// `zerocopy::AsBytes::as_bytes` on a slice of bytes: a byte slice over the
/// memory of the value, which for a `[u8]` holds the elements themselves,
/// in order.
#[verifier::external_body]
fn bytes_of<'a>(segment: &'a [u8]) -> (bytes: &'a [u8])
    ensures
        bytes@ == segment@,
{
    segment.as_bytes()
}

/// The bytes of the first `n` buffers are never more than the bytes of all.
proof fn lemma_prefix_len(segments: Seq<Seq<u8>>, n: int)
    requires
        0 <= n <= segments.len(),
    ensures
        segments.take(n).flatten().len() <= segments.flatten().len(),
    decreases segments.len() - n,
{
    if n < segments.len() {
        lemma_prefix_len(segments, n + 1);
        assert(segments.take(n + 1) == segments.take(n).push(segments[n]));
        segments.take(n).lemma_flatten_push(segments[n]);
    } else {
        assert(segments.take(n) == segments);
    }
}

impl<'a> WriteCall<'a> {
    /// The bytes of the reply as the driver is to see them: the contents of
    /// the buffers, one after the other.
    pub open spec fn payload(&self) -> Seq<u8> {
        contents(self.segments@).flatten()
    }

    /// The combined length of the reply, or `None` where it exceeds what a
    /// `usize` holds.
    pub fn len(&self) -> (total: Option<usize>)
        ensures
            total matches Some(n) ==> n == self.payload().len(),
            total is None <==> self.payload().len() > usize::MAX,
    {
        let ghost all = contents(self.segments@);
        let mut total: usize = 0;
        let mut i: usize = 0;
        while i < self.segments.len()
            invariant
                i <= self.segments.len(),
                all == contents(self.segments@),
                total == all.take(i as int).flatten().len(),
            decreases self.segments.len() - i,
        {
            proof {
                assert(all.take(i + 1) == all.take(i as int).push(all[i as int]));
                all.take(i as int).lemma_flatten_push(all[i as int]);
                lemma_prefix_len(all, i + 1);
            }
            match total.checked_add(self.segments[i].len()) {
                Some(sum) => {
                    total = sum;
                },
                None => {
                    return None;
                },
            }
            i += 1;
        }
        proof {
            assert(all.take(i as int) == all);
        }
        Some(total)
    }

    /// The reply as one contiguous buffer, for a platform whose write
    /// primitive takes a single buffer: the one call then costs a copy.
    pub fn contiguous(&self) -> (bytes: Vec<u8>)
        ensures
            bytes@ == self.payload(),
    {
        let ghost all = contents(self.segments@);
        let mut bytes: Vec<u8> = match self.len() {
            Some(total) => Vec::with_capacity(total),
            None => Vec::new(),
        };
        let mut i: usize = 0;
        while i < self.segments.len()
            invariant
                i <= self.segments.len(),
                all == contents(self.segments@),
                bytes@ == all.take(i as int).flatten(),
            decreases self.segments.len() - i,
        {
            let ghost before = bytes@;
            bytes.extend_from_slice(bytes_of(self.segments[i]));
            proof {
                assert(bytes@ == before + all[i as int]);
                assert(all.take(i + 1) == all.take(i as int).push(all[i as int]));
                all.take(i as int).lemma_flatten_push(all[i as int]);
            }
            i += 1;
        }
        proof {
            assert(all.take(i as int) == all);
        }
        bytes
    }

    /// The consistency check on a write that was reported as done: whether
    /// the count that came back differs from the combined length of the
    /// reply. A short write breaks the channel for good; it is no error of
    /// the platform, and [`WriteCall::complete`] does not take it.
    pub fn is_short_write(&self, done: Completion) -> (short: bool)
        ensures
            short <==> done.value >= 0 && done.value != self.payload().len(),
    {
        if done.value < 0 {
            false
        } else {
            match self.len() {
                Some(total) => done.value as usize != total,
                None => true,
            }
        }
    }

    /// Turns the return of the write into the result of the send: the
    /// platform's error for the failure sentinel, success otherwise.
    /// Success means that the one write took the whole reply. A short
    /// write is left out: [`WriteCall::is_short_write`] tells it apart
    /// beforehand, and it has no result.
    pub fn complete(&self, done: Completion) -> (result: Result<(), OsError>)
        requires
            done.value >= 0 ==> done.value == self.payload().len(),
        ensures
            done.value < 0 ==> result == Err::<(), OsError>(done.error()),
            done.value >= 0 ==> result == Ok::<(), OsError>(()),
            result is Ok ==> done.value == self.payload().len(),
    {
        if done.value < 0 {
            Err(done.into_error())
        } else {
            Ok(())
        }
    }
}

} // verus!
