//! Decisions around the system calls of the control channel.
//!
//! The calls themselves are made elsewhere; these functions say when to make one, and
//! what its result means.
use vstd::prelude::*;

use crate::protocol::{Descriptor, Packet, MAX_FDS};
use crate::wire::{
    decoded, encoded, ProtocolError, ProtocolResult, WireEnvelope, CONTROL_PACKET_BYTES,
};

verus! {

/// Raw number of the error "interrupted system call".
pub const INTERRUPTED: i32 = 4;

/// Raw number of the error "resource temporarily unavailable".
pub const WOULD_BLOCK: i32 = 11;

/// `recvmsg` flag: the packet was longer than the buffer.
pub const PACKET_TRUNCATED: u32 = 0x20;

/// `recvmsg` flag: not all descriptors fitted.
pub const CONTROL_TRUNCATED: u32 = 0x8;

/// `poll` events "error" and "hang up".
pub const POLL_GONE: u16 = 0x18;

/// Nanoseconds in a second.
pub const SECOND: u128 = 1_000_000_000;

/// Asks `rustix::net::ReturnFlags::contains` whether every bit of `wanted` is set in
/// `flags`.
#[verifier::external_body]
fn return_flags_contain(flags: u32, wanted: u32) -> (contained: bool)
    ensures
        contained == (flags & wanted == wanted),
{
    rustix::net::ReturnFlags::from_bits_retain(flags).contains(
        rustix::net::ReturnFlags::from_bits_retain(wanted),
    )
}

/// Asks `rustix::event::PollFlags::intersects` whether the two sets of events share one.
#[verifier::external_body]
fn poll_flags_intersect(left: u16, right: u16) -> (shared: bool)
    ensures
        shared == (left & right != 0),
{
    rustix::event::PollFlags::from_bits_retain(left).intersects(
        rustix::event::PollFlags::from_bits_retain(right),
    )
}

/// What to do after a call on the socket.
#[derive(Clone, Copy, Debug, PartialEq, Eq, Structural)]
pub enum CallStep {
    /// The call succeeded, with this count.
    Done(usize),
    /// Make the same call again.
    Again,
    /// Give up.
    Failed(ProtocolError),
}

/// Reads the result of sending or receiving on the socket: an interrupted call is
/// repeated, and a socket that is not ready after all has timed out.
pub fn call_step(result: Result<usize, i32>) -> (step: CallStep)
    ensures
        step == match result {
            Ok(count) => CallStep::Done(count),
            Err(code) => if code == INTERRUPTED {
                CallStep::Again
            } else if code == WOULD_BLOCK {
                CallStep::Failed(ProtocolError::Timeout)
            } else {
                CallStep::Failed(ProtocolError::Io(code))
            },
        },
{
    match result {
        Ok(count) => CallStep::Done(count),
        Err(code) => {
            if code == INTERRUPTED {
                CallStep::Again
            } else if code == WOULD_BLOCK {
                CallStep::Failed(ProtocolError::Timeout)
            } else {
                CallStep::Failed(ProtocolError::Io(code))
            }
        },
    }
}

/// How long one `poll` may take.
#[derive(Clone, Copy, Debug, PartialEq, Eq, Structural)]
pub struct PollTimeout {
    pub seconds: i64,
    pub nanoseconds: i64,
}

/// What is left of `timeout` after `elapsed` nanoseconds, for the next `poll`; an error
/// once nothing is left.
pub fn wait_step(elapsed: u128, timeout: u128) -> (step: ProtocolResult<PollTimeout>)
    ensures
        step matches Err(error) ==> error == ProtocolError::Timeout && elapsed >= timeout,
        step matches Ok(poll) ==> {
            &&& elapsed < timeout
            &&& poll.nanoseconds == (timeout - elapsed) % SECOND as int
            &&& poll.seconds == if (timeout - elapsed) / SECOND as int > i64::MAX {
                i64::MAX as int
            } else {
                (timeout - elapsed) / SECOND as int
            }
        },
{
    if elapsed >= timeout {
        return Err(ProtocolError::Timeout);
    }
    let remaining: u128 = timeout - elapsed;
    let seconds: u128 = remaining / SECOND;
    Ok(
        PollTimeout {
            seconds: if seconds > i64::MAX as u128 {
                i64::MAX
            } else {
                seconds as i64
            },
            nanoseconds: (remaining % SECOND) as i64,
        },
    )
}

/// What to do after a `poll`.
#[derive(Clone, Copy, Debug, PartialEq, Eq, Structural)]
pub enum WaitStep {
    /// The awaited event is there.
    Ready,
    /// Nothing of interest happened: wait on.
    Again,
    /// Give up.
    Failed(ProtocolError),
}

/// Reads the result of a `poll` for `events`: how many descriptors are ready, and the
/// events of the one descriptor, or a raw error number.
pub fn poll_step(events: u16, result: Result<(usize, u16), i32>) -> (step: WaitStep)
    ensures
        step == match result {
            Ok((ready, returned)) => if ready == 0 {
                WaitStep::Failed(ProtocolError::Timeout)
            } else if returned & events != 0 {
                WaitStep::Ready
            } else if returned & POLL_GONE != 0 {
                WaitStep::Failed(ProtocolError::PeerClosed)
            } else {
                WaitStep::Again
            },
            Err(code) => if code == INTERRUPTED {
                WaitStep::Again
            } else {
                WaitStep::Failed(ProtocolError::Io(code))
            },
        },
{
    match result {
        Ok((ready, returned)) => {
            if ready == 0 {
                WaitStep::Failed(ProtocolError::Timeout)
            } else if poll_flags_intersect(returned, events) {
                WaitStep::Ready
            } else if poll_flags_intersect(returned, POLL_GONE) {
                WaitStep::Failed(ProtocolError::PeerClosed)
            } else {
                WaitStep::Again
            }
        },
        Err(code) => {
            if code == INTERRUPTED {
                WaitStep::Again
            } else {
                WaitStep::Failed(ProtocolError::Io(code))
            }
        },
    }
}

/// The bytes to send for a packet with `fd_count` descriptors.
pub fn outgoing_packet(envelope: WireEnvelope, fd_count: usize) -> (packet: ProtocolResult<
    [u8; CONTROL_PACKET_BYTES],
>)
    ensures
        packet matches Err(error) ==> fd_count > MAX_FDS && error
            == ProtocolError::UnexpectedDescriptors,
        packet matches Ok(bytes) ==> fd_count <= MAX_FDS && bytes@ == encoded(envelope),
{
    if fd_count > MAX_FDS {
        return Err(ProtocolError::UnexpectedDescriptors);
    }
    Ok(envelope.encode())
}

/// Whether a packet left in one piece.
pub fn check_sent(sent: usize) -> (checked: ProtocolResult<()>)
    ensures
        checked is Ok <==> sent == CONTROL_PACKET_BYTES,
        checked matches Err(error) ==> error == ProtocolError::TruncatedPacket,
{
    if sent != CONTROL_PACKET_BYTES {
        Err(ProtocolError::TruncatedPacket)
    } else {
        Ok(())
    }
}

/// Whether a receiver may wait for this many descriptors.
pub fn check_expected_fds(expected_fds: usize) -> (checked: ProtocolResult<()>)
    ensures
        checked is Ok <==> expected_fds <= MAX_FDS,
        checked matches Err(error) ==> error == ProtocolError::UnexpectedDescriptors,
{
    if expected_fds > MAX_FDS {
        Err(ProtocolError::UnexpectedDescriptors)
    } else {
        Ok(())
    }
}

/// An ancillary message that came with a packet.
#[derive(Debug)]
pub enum Ancillary<F> {
    /// Descriptors.
    Rights(Vec<Descriptor<F>>),
    /// Anything else.
    Other,
}

/// What one `recvmsg` returned: a byte count, its flags, the buffer and the ancillary
/// messages.
#[derive(Debug)]
pub struct Received<F> {
    pub bytes: usize,
    pub flags: u32,
    pub buffer: [u8; CONTROL_PACKET_BYTES],
    pub ancillary: Vec<Ancillary<F>>,
}

/// The descriptors of a run of ancillary messages, in order.
pub open spec fn rights<F>(ancillary: Seq<Ancillary<F>>) -> Seq<Descriptor<F>>
    decreases ancillary.len(),
{
    if ancillary.len() == 0 {
        Seq::empty()
    } else {
        rights(ancillary.drop_last()) + match ancillary.last() {
            Ancillary::Rights(fds) => fds@,
            Ancillary::Other => Seq::empty(),
        }
    }
}

/// Why a message is no packet with `fewest` to `most` descriptors, or `None` where it is
/// one.
pub open spec fn receive_error<F>(message: Received<F>, fewest: nat, most: nat) -> Option<
    ProtocolError,
> {
    if message.bytes == 0 {
        Some(ProtocolError::PeerClosed)
    } else if message.flags & PACKET_TRUNCATED == PACKET_TRUNCATED || message.bytes
        != CONTROL_PACKET_BYTES {
        Some(ProtocolError::TruncatedPacket)
    } else if message.flags & CONTROL_TRUNCATED == CONTROL_TRUNCATED {
        Some(ProtocolError::AncillaryTruncated)
    } else if exists|i: int|
        0 <= i < message.ancillary@.len() && message.ancillary@[i] is Other {
        Some(ProtocolError::UnexpectedDescriptors)
    } else if rights(message.ancillary@).len() < fewest {
        Some(ProtocolError::MissingDescriptor)
    } else if rights(message.ancillary@).len() > most {
        Some(ProtocolError::UnexpectedDescriptors)
    } else {
        match decoded(message.buffer@) {
            Err(error) => Some(error),
            Ok(_) => None,
        }
    }
}

/// Makes a packet of a received message that has to carry from `fewest` to `most`
/// descriptors.
pub fn open_packet<F>(message: Received<F>, fewest: usize, most: usize) -> (packet: ProtocolResult<
    Packet<F>,
>)
    ensures
        packet matches Err(error) ==> receive_error(message, fewest as nat, most as nat) == Some(
            error,
        ),
        packet matches Ok(opened) ==> {
            &&& receive_error(message, fewest as nat, most as nat) is None
            &&& decoded(message.buffer@) == ProtocolResult::<WireEnvelope>::Ok(opened.envelope)
            &&& opened.fds@ == rights(message.ancillary@)
        },
{
    if message.bytes == 0 {
        return Err(ProtocolError::PeerClosed);
    }
    if return_flags_contain(message.flags, PACKET_TRUNCATED) || message.bytes
        != CONTROL_PACKET_BYTES {
        return Err(ProtocolError::TruncatedPacket);
    }
    if return_flags_contain(message.flags, CONTROL_TRUNCATED) {
        return Err(ProtocolError::AncillaryTruncated);
    }
    let mut fds: Vec<Descriptor<F>> = Vec::new();
    let mut ancillary: Vec<Ancillary<F>> = message.ancillary;
    let buffer = message.buffer;
    let count: usize = ancillary.len();
    let ghost all = ancillary@;
    let mut taken: usize = 0;
    while taken < count
        invariant
            taken <= count == all.len(),
            ancillary@ == all.skip(taken as int),
            fds@ == rights(all.take(taken as int)),
            forall|i: int| 0 <= i < taken ==> !(all[i] is Other),
            all == message.ancillary@,
            message.bytes == CONTROL_PACKET_BYTES,
            message.flags & PACKET_TRUNCATED != PACKET_TRUNCATED,
            message.flags & CONTROL_TRUNCATED != CONTROL_TRUNCATED,
        decreases count - taken,
    {
        assert(ancillary@[0] == all[taken as int]);
        let item = ancillary.remove(0);
        assert(ancillary@ =~= all.skip(taken + 1));
        proof {
            assert(all.take(taken + 1).drop_last() =~= all.take(taken as int));
            assert(all.take(taken + 1).last() == all[taken as int]);
        }
        match item {
            Ancillary::Rights(mut more) => {
                fds.append(&mut more);
            },
            Ancillary::Other => {
                return Err(ProtocolError::UnexpectedDescriptors);
            },
        }
        taken = taken + 1;
    }
    assert(all.take(count as int) =~= all);
    if fds.len() < fewest {
        return Err(ProtocolError::MissingDescriptor);
    }
    if fds.len() > most {
        return Err(ProtocolError::UnexpectedDescriptors);
    }
    match WireEnvelope::decode(&buffer) {
        Ok(envelope) => Ok(Packet { envelope, fds }),
        Err(error) => Err(error),
    }
}

/// Progress of writing bytes into a file that is sealed afterwards.
#[derive(Clone, Copy, Debug, PartialEq, Eq, Structural)]
pub struct SealedWrite {
    length: usize,
    written: usize,
}

impl SealedWrite {
    #[verifier::type_invariant]
    spec fn inv(self) -> bool {
        self.written <= self.length
    }

    /// How many bytes there are in all.
    pub closed spec fn total(self) -> usize {
        self.length
    }

    /// How many bytes have been written.
    pub closed spec fn done(self) -> usize {
        self.written
    }

    pub fn new(bytes: &[u8]) -> (progress: Self)
        ensures
            progress.total() == bytes@.len(),
            progress.done() == 0,
    {
        SealedWrite { length: bytes.len(), written: 0 }
    }

    /// The offset of the bytes to write next, or `None` once all are written and the
    /// file is to be cut to `total` bytes and sealed.
    pub fn next_write(&self) -> (offset: Option<usize>)
        ensures
            self.done() <= self.total(),
            offset is None <==> self.done() == self.total(),
            offset matches Some(start) ==> start == self.done(),
    {
        proof {
            use_type_invariant(self);
        }
        if self.written < self.length {
            Some(self.written)
        } else {
            None
        }
    }

    /// Takes what a write returned: how many bytes it wrote, or a raw error number.
    pub fn accept_write(&mut self, result: Result<usize, i32>) -> (accepted: ProtocolResult<()>)
        requires
            result matches Ok(count) ==> count <= old(self).total() - old(self).done(),
        ensures
            final(self).total() == old(self).total(),
            match result {
                Err(code) => accepted == ProtocolResult::<()>::Err(ProtocolError::Io(code))
                    && *final(self) == *old(self),
                Ok(count) => if count == 0 {
                    accepted == ProtocolResult::<()>::Err(ProtocolError::PeerClosed)
                        && *final(self) == *old(self)
                } else {
                    accepted is Ok && final(self).done() == old(self).done() + count
                },
            },
    {
        proof {
            use_type_invariant(&*self);
        }
        match result {
            Err(code) => Err(ProtocolError::Io(code)),
            Ok(count) => {
                if count == 0 {
                    return Err(ProtocolError::PeerClosed);
                }
                self.written = self.written + count;
                Ok(())
            },
        }
    }
}

/// A packet arrives as it was sent: a message that holds exactly the bytes of an
/// envelope, and as many descriptors as are awaited, is opened to that envelope.
pub proof fn received_packet_is_the_sent_one<F>(message: Received<F>, envelope: WireEnvelope)
    requires
        message.bytes == CONTROL_PACKET_BYTES,
        message.flags & PACKET_TRUNCATED != PACKET_TRUNCATED,
        message.flags & CONTROL_TRUNCATED != CONTROL_TRUNCATED,
        message.buffer@ == encoded(envelope),
        forall|i: int| 0 <= i < message.ancillary@.len() ==> message.ancillary@[i] is Rights,
    ensures
        receive_error(
            message,
            rights(message.ancillary@).len(),
            rights(message.ancillary@).len(),
        ) is None,
        decoded(message.buffer@) == ProtocolResult::<WireEnvelope>::Ok(envelope),
{
    crate::wire::decode_undoes_encode(envelope);
}

/// A message is a packet exactly if it is whole, nothing was cut off, it brings only descriptors
/// and as many as are awaited, and its bytes decode; everything else is refused for what is wrong
/// with it.
pub proof fn what_is_received<F>(message: Received<F>, fewest: nat, most: nat)
    ensures
        ({
            let error = receive_error(message, fewest, most);
            let whole = message.bytes == 48 && message.flags & 0x20 != 0x20;
            let foreign = exists|i: int|
                0 <= i < message.ancillary@.len() && message.ancillary@[i] is Other;
            let count = rights(message.ancillary@).len();
            &&& message.bytes == 0 ==> error == Some(ProtocolError::PeerClosed)
            &&& message.bytes != 0 && !whole ==> error == Some(ProtocolError::TruncatedPacket)
            &&& whole && message.flags & 0x8 == 0x8 ==> error == Some(
                ProtocolError::AncillaryTruncated,
            )
            &&& whole && message.flags & 0x8 != 0x8 ==> {
                &&& foreign ==> error == Some(ProtocolError::UnexpectedDescriptors)
                &&& !foreign && count < fewest ==> error == Some(ProtocolError::MissingDescriptor)
                &&& !foreign && count >= fewest && count > most ==> error == Some(
                    ProtocolError::UnexpectedDescriptors,
                )
                &&& !foreign && fewest <= count <= most ==> (error is None <==> decoded(
                    message.buffer@,
                ) is Ok)
                &&& !foreign && fewest <= count <= most && decoded(message.buffer@) is Err
                    ==> error == Some(decoded(message.buffer@)->Err_0)
            }
        }),
{
}

/// The descriptors of a packet are those of its messages, all of them and in order.
pub proof fn descriptors_come_in_order<F>(
    ancillary: Seq<Ancillary<F>>,
    fds: Vec<Descriptor<F>>,
)
    ensures
        rights(Seq::<Ancillary<F>>::empty()).len() == 0,
        rights(ancillary.push(Ancillary::Rights(fds))) == rights(ancillary) + fds@,
        rights(ancillary.push(Ancillary::Other)) == rights(ancillary),
{
    assert(ancillary.push(Ancillary::Rights(fds)).drop_last() =~= ancillary);
    assert(ancillary.push(Ancillary::<F>::Other).drop_last() =~= ancillary);
    assert(rights(ancillary) + Seq::<Descriptor<F>>::empty() =~= rights(ancillary));
}

/// The numbers of the system that decisions go by.
pub proof fn system_numbers()
    ensures
        INTERRUPTED == 4,
        WOULD_BLOCK == 11,
        PACKET_TRUNCATED == 0x20,
        CONTROL_TRUNCATED == 0x8,
        POLL_GONE == 0x18,
        SECOND == 1_000_000_000,
{
}

} // verus!
