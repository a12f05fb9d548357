//! The fixed-size control packet of the thumbnail worker protocol.
use vstd::prelude::*;

use crate::bytes::{
    le_bytes, le_value, lemma_le_bounds, lemma_le_bytes_len, lemma_le_read_of_write,
    lemma_le_write_of_read, read_le, write_le,
};

verus! {

/// Version number that every packet carries.
pub const VERSION: u16 = 1;

/// Size of a control packet in bytes.
pub const CONTROL_PACKET_BYTES: usize = 48;

/// The four bytes that open every packet: `STTP`.
pub open spec fn magic() -> Seq<u8> {
    seq![0x53u8, 0x54u8, 0x54u8, 0x50u8]
}

/// Everything that can go wrong on the control channel.
///
/// `Io` holds the raw error number of the failed system call.
#[derive(Clone, Copy, Debug, PartialEq, Eq, Structural)]
pub enum ProtocolError {
    Io(i32),
    Timeout,
    PeerClosed,
    BadMagic,
    UnsupportedVersion(u16),
    MalformedPacket,
    TruncatedPacket,
    AncillaryTruncated,
    UnexpectedDescriptors,
    MissingDescriptor,
    WrongDescriptorType,
    MissingSeals,
    BadOutputLength,
    OutputTooLarge,
    InvalidMetadata,
    AllocationLimit,
    InvalidState,
    WorkerGenerationMismatch,
    UnsolicitedPacket,
    OrderingViolation,
}

pub type ProtocolResult<T> = Result<T, ProtocolError>;

/// What a packet is for.
#[derive(Clone, Copy, Debug, PartialEq, Eq, Structural)]
pub enum MessageType {
    Ready,
    Request,
    Reply,
}

impl MessageType {
    /// The byte that stands for this message type.
    pub open spec fn code(self) -> u8 {
        match self {
            MessageType::Ready => 1,
            MessageType::Request => 2,
            MessageType::Reply => 3,
        }
    }

    pub fn to_wire(self) -> (value: u8)
        ensures
            value == self.code(),
    {
        match self {
            MessageType::Ready => 1,
            MessageType::Request => 2,
            MessageType::Reply => 3,
        }
    }

    pub fn from_wire(value: u8) -> (message_type: Option<Self>)
        ensures
            message_type matches Some(found) ==> found.code() == value,
            message_type is None <==> !(1 <= value <= 3),
    {
        match value {
            1 => Some(MessageType::Ready),
            2 => Some(MessageType::Request),
            3 => Some(MessageType::Reply),
            _ => None,
        }
    }
}

/// What a worker is asked to do.
#[derive(Clone, Copy, Debug, PartialEq, Eq, Structural)]
pub enum Operation {
    ThumbnailPng,
    ThumbnailPdf,
}

impl Operation {
    /// The number that stands for this operation.
    pub open spec fn code(self) -> u16 {
        match self {
            Operation::ThumbnailPng => 1,
            Operation::ThumbnailPdf => 2,
        }
    }

    pub fn to_wire(self) -> (value: u16)
        ensures
            value == self.code(),
    {
        match self {
            Operation::ThumbnailPng => 1,
            Operation::ThumbnailPdf => 2,
        }
    }

    pub fn from_wire(value: u16) -> (operation: Option<Self>)
        ensures
            operation matches Some(found) ==> found.code() == value,
            operation is None <==> !(1 <= value <= 2),
    {
        match value {
            1 => Some(Operation::ThumbnailPng),
            2 => Some(Operation::ThumbnailPdf),
            _ => None,
        }
    }
}

/// How a request ended.
#[derive(Clone, Copy, Debug, PartialEq, Eq, Structural)]
pub enum Status {
    Success,
    DecodeFailed,
    UnsupportedOperation,
    ProtocolFailure,
}

impl Status {
    /// The number that stands for this status.
    pub open spec fn code(self) -> u16 {
        match self {
            Status::Success => 0,
            Status::DecodeFailed => 1,
            Status::UnsupportedOperation => 2,
            Status::ProtocolFailure => 0xffff,
        }
    }

    pub fn to_wire(self) -> (value: u16)
        ensures
            value == self.code(),
    {
        match self {
            Status::Success => 0,
            Status::DecodeFailed => 1,
            Status::UnsupportedOperation => 2,
            Status::ProtocolFailure => 0xffff,
        }
    }

    pub fn from_wire(value: u16) -> (status: Option<Self>)
        ensures
            status matches Some(found) ==> found.code() == value,
            status is None <==> 2 < value < 0xffff,
    {
        match value {
            0 => Some(Status::Success),
            1 => Some(Status::DecodeFailed),
            2 => Some(Status::UnsupportedOperation),
            0xffff => Some(Status::ProtocolFailure),
            _ => None,
        }
    }
}

/// How the bytes of an output are to be read.
#[derive(Clone, Copy, Debug, PartialEq, Eq, Structural)]
pub enum Representation {
    Png,
    Rgba8,
}

impl Representation {
    /// The number that stands for this representation.
    pub open spec fn code(self) -> u16 {
        match self {
            Representation::Png => 1,
            Representation::Rgba8 => 2,
        }
    }

    pub fn to_wire(self) -> (value: u16)
        ensures
            value == self.code(),
    {
        match self {
            Representation::Png => 1,
            Representation::Rgba8 => 2,
        }
    }

    pub fn from_wire(value: u16) -> (representation: Option<Self>)
        ensures
            representation matches Some(found) ==> found.code() == value,
            representation is None <==> !(1 <= value <= 2),
    {
        match value {
            1 => Some(Representation::Png),
            2 => Some(Representation::Rgba8),
            _ => None,
        }
    }
}

/// The fields of a control packet.
///
/// Numbers that a peer may have filled with anything stay numbers here; the functions
/// that accept a packet give them their meaning.
#[derive(Clone, Copy, Debug, PartialEq, Eq, Structural)]
pub struct WireEnvelope {
    pub message_type: MessageType,
    pub request_id: u64,
    pub operation: u16,
    pub requested_edge: u16,
    pub status: u16,
    pub representation: u16,
    pub width: u16,
    pub height: u16,
    pub stride: u32,
    pub output_len: u64,
}

/// The bytes of a packet with the fields of `envelope`.
pub open spec fn encoded(envelope: WireEnvelope) -> Seq<u8> {
    magic() + le_bytes(VERSION as nat, 2) + seq![envelope.message_type.code(), 0u8] + le_bytes(
        envelope.request_id as nat,
        8,
    ) + le_bytes(envelope.operation as nat, 2) + le_bytes(envelope.requested_edge as nat, 2)
        + le_bytes(envelope.status as nat, 2) + le_bytes(envelope.representation as nat, 2)
        + le_bytes(envelope.width as nat, 2) + le_bytes(envelope.height as nat, 2) + le_bytes(
        envelope.stride as nat,
        4,
    ) + le_bytes(envelope.output_len as nat, 8) + Seq::new(8, |i: int| 0u8)
}

/// Why `input` is no packet, or `None` where it is one.
pub open spec fn decode_error(input: Seq<u8>) -> Option<ProtocolError> {
    if input.len() != CONTROL_PACKET_BYTES {
        Some(ProtocolError::MalformedPacket)
    } else if input.subrange(0, 4) != magic() {
        Some(ProtocolError::BadMagic)
    } else if le_value(input.subrange(4, 6)) != VERSION {
        Some(ProtocolError::UnsupportedVersion(le_value(input.subrange(4, 6)) as u16))
    } else if !(1 <= input[6] <= 3) || input[7] != 0 || exists|i: int|
        40 <= i < 48 && input[i] != 0 {
        Some(ProtocolError::MalformedPacket)
    } else {
        None
    }
}

/// The message type that a packet's type byte stands for, where it is one.
pub open spec fn message_type_of(code: u8) -> MessageType {
    if code == 1 {
        MessageType::Ready
    } else if code == 2 {
        MessageType::Request
    } else {
        MessageType::Reply
    }
}

/// The fields that stand in a packet.
pub open spec fn packet_fields(input: Seq<u8>) -> WireEnvelope {
    WireEnvelope {
        message_type: message_type_of(input[6]),
        request_id: le_value(input.subrange(8, 16)) as u64,
        operation: le_value(input.subrange(16, 18)) as u16,
        requested_edge: le_value(input.subrange(18, 20)) as u16,
        status: le_value(input.subrange(20, 22)) as u16,
        representation: le_value(input.subrange(22, 24)) as u16,
        width: le_value(input.subrange(24, 26)) as u16,
        height: le_value(input.subrange(26, 28)) as u16,
        stride: le_value(input.subrange(28, 32)) as u32,
        output_len: le_value(input.subrange(32, 40)) as u64,
    }
}

/// What `input` decodes to.
pub open spec fn decoded(input: Seq<u8>) -> ProtocolResult<WireEnvelope> {
    match decode_error(input) {
        Some(error) => Err(error),
        None => Ok(packet_fields(input)),
    }
}

impl WireEnvelope {
    /// The packet by which a worker announces itself.
    pub open spec fn spec_ready() -> Self {
        WireEnvelope {
            message_type: MessageType::Ready,
            request_id: 0,
            operation: 0,
            requested_edge: 0,
            status: 0,
            representation: 0,
            width: 0,
            height: 0,
            stride: 0,
            output_len: 0,
        }
    }

    pub fn ready() -> (envelope: Self)
        ensures
            envelope == Self::spec_ready(),
    {
        WireEnvelope {
            message_type: MessageType::Ready,
            request_id: 0,
            operation: 0,
            requested_edge: 0,
            status: Status::Success.to_wire(),
            representation: 0,
            width: 0,
            height: 0,
            stride: 0,
            output_len: 0,
        }
    }

    /// The packet that asks for `operation` at `requested_edge`.
    pub open spec fn spec_request(request_id: u64, operation: u16, requested_edge: u16) -> Self {
        WireEnvelope {
            message_type: MessageType::Request,
            request_id,
            operation,
            requested_edge,
            ..Self::spec_ready()
        }
    }

    pub fn request(request_id: u64, operation: u16, requested_edge: u16) -> (envelope: Self)
        ensures
            envelope == Self::spec_request(request_id, operation, requested_edge),
    {
        WireEnvelope {
            message_type: MessageType::Request,
            request_id,
            operation,
            requested_edge,
            status: Status::Success.to_wire(),
            representation: 0,
            width: 0,
            height: 0,
            stride: 0,
            output_len: 0,
        }
    }

    /// The packet that answers request `request_id`.
    pub open spec fn spec_reply(
        request_id: u64,
        status: Status,
        representation: Representation,
        width: u16,
        height: u16,
        stride: u32,
        output_len: u64,
    ) -> Self {
        WireEnvelope {
            message_type: MessageType::Reply,
            request_id,
            operation: Operation::ThumbnailPng.code(),
            requested_edge: 0,
            status: status.code(),
            representation: representation.code(),
            width,
            height,
            stride,
            output_len,
        }
    }

    pub fn reply(
        request_id: u64,
        status: Status,
        representation: Representation,
        width: u16,
        height: u16,
        stride: u32,
        output_len: u64,
    ) -> (envelope: Self)
        ensures
            envelope == Self::spec_reply(
                request_id,
                status,
                representation,
                width,
                height,
                stride,
                output_len,
            ),
    {
        WireEnvelope {
            message_type: MessageType::Reply,
            request_id,
            operation: Operation::ThumbnailPng.to_wire(),
            requested_edge: 0,
            status: status.to_wire(),
            representation: representation.to_wire(),
            width,
            height,
            stride,
            output_len,
        }
    }

    pub fn encode(self) -> (out: [u8; CONTROL_PACKET_BYTES])
        ensures
            out@ == encoded(self),
    {
        let mut out: [u8; CONTROL_PACKET_BYTES] = [0u8;CONTROL_PACKET_BYTES];
        proof {
            lemma_le_bounds();
            lemma_packet_parts_len(self);
        }
        out[0] = 0x53;
        out[1] = 0x54;
        out[2] = 0x54;
        out[3] = 0x50;
        write_le(&mut out, 4, VERSION as u64, 2);
        out[6] = self.message_type.to_wire();
        write_le(&mut out, 8, self.request_id, 8);
        write_le(&mut out, 16, self.operation as u64, 2);
        write_le(&mut out, 18, self.requested_edge as u64, 2);
        write_le(&mut out, 20, self.status as u64, 2);
        write_le(&mut out, 22, self.representation as u64, 2);
        write_le(&mut out, 24, self.width as u64, 2);
        write_le(&mut out, 26, self.height as u64, 2);
        write_le(&mut out, 28, self.stride as u64, 4);
        write_le(&mut out, 32, self.output_len, 8);
        assert(out@ =~= encoded(self));
        out
    }

    pub fn decode(input: &[u8]) -> (result: ProtocolResult<Self>)
        ensures
            result == decoded(input@),
    {
        if input.len() != CONTROL_PACKET_BYTES {
            return Err(ProtocolError::MalformedPacket);
        }
        proof {
            lemma_le_bounds();
        }
        if !(input[0] == 0x53 && input[1] == 0x54 && input[2] == 0x54 && input[3] == 0x50) {
            return Err(ProtocolError::BadMagic);
        }
        assert(input@.subrange(0, 4) =~= magic());
        let version: u64 = read_le(input, 4, 2);
        if version != VERSION as u64 {
            return Err(ProtocolError::UnsupportedVersion(version as u16));
        }
        let message_type = match MessageType::from_wire(input[6]) {
            Some(message_type) => message_type,
            None => return Err(ProtocolError::MalformedPacket),
        };
        if input[7] != 0 {
            return Err(ProtocolError::MalformedPacket);
        }
        let mut index: usize = 40;
        while index < CONTROL_PACKET_BYTES
            invariant
                40 <= index <= 48,
                input@.len() == 48,
                forall|i: int| 40 <= i < index ==> input@[i] == 0,
                input@.subrange(0, 4) == magic(),
                le_value(input@.subrange(4, 6)) == VERSION,
            decreases 48 - index,
        {
            if input[index] != 0 {
                return Err(ProtocolError::MalformedPacket);
            }
            index = index + 1;
        }
        Ok(WireEnvelope {
            message_type,
            request_id: read_le(input, 8, 8),
            operation: read_le(input, 16, 2) as u16,
            requested_edge: read_le(input, 18, 2) as u16,
            status: read_le(input, 20, 2) as u16,
            representation: read_le(input, 22, 2) as u16,
            width: read_le(input, 24, 2) as u16,
            height: read_le(input, 26, 2) as u16,
            stride: read_le(input, 28, 4) as u32,
            output_len: read_le(input, 32, 8),
        })
    }
}

proof fn lemma_packet_parts_len(envelope: WireEnvelope)
    ensures
        le_bytes(VERSION as nat, 2).len() == 2,
        le_bytes(envelope.request_id as nat, 8).len() == 8,
        le_bytes(envelope.operation as nat, 2).len() == 2,
        le_bytes(envelope.requested_edge as nat, 2).len() == 2,
        le_bytes(envelope.status as nat, 2).len() == 2,
        le_bytes(envelope.representation as nat, 2).len() == 2,
        le_bytes(envelope.width as nat, 2).len() == 2,
        le_bytes(envelope.height as nat, 2).len() == 2,
        le_bytes(envelope.stride as nat, 4).len() == 4,
        le_bytes(envelope.output_len as nat, 8).len() == 8,
        encoded(envelope).len() == CONTROL_PACKET_BYTES,
{
    lemma_le_bytes_len(VERSION as nat, 2);
    lemma_le_bytes_len(envelope.request_id as nat, 8);
    lemma_le_bytes_len(envelope.operation as nat, 2);
    lemma_le_bytes_len(envelope.requested_edge as nat, 2);
    lemma_le_bytes_len(envelope.status as nat, 2);
    lemma_le_bytes_len(envelope.representation as nat, 2);
    lemma_le_bytes_len(envelope.width as nat, 2);
    lemma_le_bytes_len(envelope.height as nat, 2);
    lemma_le_bytes_len(envelope.stride as nat, 4);
    lemma_le_bytes_len(envelope.output_len as nat, 8);
}

/// Decoding the packet of an envelope gives the envelope back.
pub proof fn decode_undoes_encode(envelope: WireEnvelope)
    ensures
        encoded(envelope).len() == CONTROL_PACKET_BYTES,
        decoded(encoded(envelope)) == ProtocolResult::<WireEnvelope>::Ok(envelope),
{
    lemma_packet_parts_len(envelope);
    lemma_fields_of_packet(envelope);
    lemma_le_bounds();
    let bytes = encoded(envelope);
    assert(bytes.subrange(0, 4) =~= magic());
    assert(bytes.subrange(4, 6) =~= le_bytes(VERSION as nat, 2));
    lemma_le_read_of_write(VERSION as nat, 2);
}

/// A packet that decodes is the packet of what it decodes to: no two packets decode to
/// the same envelope.
pub proof fn encode_undoes_decode(input: Seq<u8>)
    requires
        decoded(input) is Ok,
    ensures
        encoded(decoded(input)->Ok_0) == input,
{
    lemma_le_bounds();
    lemma_le_write_of_read(input.subrange(4, 6));
    lemma_le_write_of_read(input.subrange(8, 16));
    lemma_le_write_of_read(input.subrange(16, 18));
    lemma_le_write_of_read(input.subrange(18, 20));
    lemma_le_write_of_read(input.subrange(20, 22));
    lemma_le_write_of_read(input.subrange(22, 24));
    lemma_le_write_of_read(input.subrange(24, 26));
    lemma_le_write_of_read(input.subrange(26, 28));
    lemma_le_write_of_read(input.subrange(28, 32));
    lemma_le_write_of_read(input.subrange(32, 40));
    assert(encoded(decoded(input)->Ok_0) =~= input);
}

proof fn lemma_fields_of_packet(envelope: WireEnvelope)
    ensures
        encoded(envelope)[6] == envelope.message_type.code(),
        le_value(encoded(envelope).subrange(8, 16)) == envelope.request_id,
        le_value(encoded(envelope).subrange(16, 18)) == envelope.operation,
        le_value(encoded(envelope).subrange(18, 20)) == envelope.requested_edge,
        le_value(encoded(envelope).subrange(20, 22)) == envelope.status,
        le_value(encoded(envelope).subrange(22, 24)) == envelope.representation,
        le_value(encoded(envelope).subrange(24, 26)) == envelope.width,
        le_value(encoded(envelope).subrange(26, 28)) == envelope.height,
        le_value(encoded(envelope).subrange(28, 32)) == envelope.stride,
        le_value(encoded(envelope).subrange(32, 40)) == envelope.output_len,
{
    lemma_packet_parts_len(envelope);
    lemma_le_bounds();
    let bytes = encoded(envelope);
    assert(bytes.subrange(8, 16) =~= le_bytes(envelope.request_id as nat, 8));
    lemma_le_read_of_write(envelope.request_id as nat, 8);
    assert(bytes.subrange(16, 18) =~= le_bytes(envelope.operation as nat, 2));
    lemma_le_read_of_write(envelope.operation as nat, 2);
    assert(bytes.subrange(18, 20) =~= le_bytes(envelope.requested_edge as nat, 2));
    lemma_le_read_of_write(envelope.requested_edge as nat, 2);
    assert(bytes.subrange(20, 22) =~= le_bytes(envelope.status as nat, 2));
    lemma_le_read_of_write(envelope.status as nat, 2);
    assert(bytes.subrange(22, 24) =~= le_bytes(envelope.representation as nat, 2));
    lemma_le_read_of_write(envelope.representation as nat, 2);
    assert(bytes.subrange(24, 26) =~= le_bytes(envelope.width as nat, 2));
    lemma_le_read_of_write(envelope.width as nat, 2);
    assert(bytes.subrange(26, 28) =~= le_bytes(envelope.height as nat, 2));
    lemma_le_read_of_write(envelope.height as nat, 2);
    assert(bytes.subrange(28, 32) =~= le_bytes(envelope.stride as nat, 4));
    lemma_le_read_of_write(envelope.stride as nat, 4);
    assert(bytes.subrange(32, 40) =~= le_bytes(envelope.output_len as nat, 8));
    lemma_le_read_of_write(envelope.output_len as nat, 8);
}

/// Where each field of a packet stands: the mark `STTP`, the version, the type, and then the
/// numbers, all with their least significant byte first, up to eight bytes that are zero.
pub proof fn packets_have_one_layout(envelope: WireEnvelope, i: int)
    ensures
        ({
            let packet = encoded(envelope);
            &&& packet.len() == 48
            &&& packet[0] == 0x53 && packet[1] == 0x54 && packet[2] == 0x54 && packet[3] == 0x50
            &&& packet[4] == 1 && packet[5] == 0
            &&& packet[6] == (match envelope.message_type {
                MessageType::Ready => 1u8,
                MessageType::Request => 2u8,
                MessageType::Reply => 3u8,
            })
            &&& packet[7] == 0
            &&& packet.subrange(8, 16) == le_bytes(envelope.request_id as nat, 8)
            &&& packet.subrange(16, 18) == le_bytes(envelope.operation as nat, 2)
            &&& packet.subrange(18, 20) == le_bytes(envelope.requested_edge as nat, 2)
            &&& packet.subrange(20, 22) == le_bytes(envelope.status as nat, 2)
            &&& packet.subrange(22, 24) == le_bytes(envelope.representation as nat, 2)
            &&& packet.subrange(24, 26) == le_bytes(envelope.width as nat, 2)
            &&& packet.subrange(26, 28) == le_bytes(envelope.height as nat, 2)
            &&& packet.subrange(28, 32) == le_bytes(envelope.stride as nat, 4)
            &&& packet.subrange(32, 40) == le_bytes(envelope.output_len as nat, 8)
            &&& 40 <= i < 48 ==> packet[i] == 0
        }),
{
    lemma_packet_parts_len(envelope);
    let packet = encoded(envelope);
    let version = le_bytes(VERSION as nat, 2);
    crate::bytes::bytes_are_digits(VERSION as nat, 2, 0);
    crate::bytes::bytes_are_digits(VERSION as nat, 2, 1);
    vstd::arithmetic::power::lemma_pow0(256);
    vstd::arithmetic::power::lemma_pow1(256);
    assert(packet[4] == version[0] && packet[5] == version[1]);
    assert(packet.subrange(8, 16) =~= le_bytes(envelope.request_id as nat, 8));
    assert(packet.subrange(16, 18) =~= le_bytes(envelope.operation as nat, 2));
    assert(packet.subrange(18, 20) =~= le_bytes(envelope.requested_edge as nat, 2));
    assert(packet.subrange(20, 22) =~= le_bytes(envelope.status as nat, 2));
    assert(packet.subrange(22, 24) =~= le_bytes(envelope.representation as nat, 2));
    assert(packet.subrange(24, 26) =~= le_bytes(envelope.width as nat, 2));
    assert(packet.subrange(26, 28) =~= le_bytes(envelope.height as nat, 2));
    assert(packet.subrange(28, 32) =~= le_bytes(envelope.stride as nat, 4));
    assert(packet.subrange(32, 40) =~= le_bytes(envelope.output_len as nat, 8));
}

/// What is refused, and as what: another length, another mark, another version, and then a type
/// that is none or a reserved byte that is not zero. All else is a packet.
pub proof fn what_is_no_packet(input: Seq<u8>)
    ensures
        input.len() != 48 ==> decoded(input) == ProtocolResult::<WireEnvelope>::Err(
            ProtocolError::MalformedPacket,
        ),
        input.len() == 48 ==> {
            let marked = input[0] == 0x53 && input[1] == 0x54 && input[2] == 0x54 && input[3]
                == 0x50;
            let version = input[4] + 256 * input[5];
            let reserved = input[7] == 0 && forall|i: int| 40 <= i < 48 ==> input[i] == 0;
            &&& !marked ==> decoded(input) == ProtocolResult::<WireEnvelope>::Err(
                ProtocolError::BadMagic,
            )
            &&& marked && version != 1 ==> decoded(input) == ProtocolResult::<WireEnvelope>::Err(
                ProtocolError::UnsupportedVersion(version as u16),
            )
            &&& marked && version == 1 && !(1 <= input[6] <= 3 && reserved) ==> decoded(input)
                == ProtocolResult::<WireEnvelope>::Err(ProtocolError::MalformedPacket)
            &&& marked && version == 1 && 1 <= input[6] <= 3 && reserved ==> decoded(input) is Ok
        },
{
    if input.len() == 48 {
        let mark = input.subrange(0, 4);
        assert(mark[0] == input[0] && mark[1] == input[1] && mark[2] == input[2] && mark[3]
            == input[3]);
        let marked = input[0] == 0x53 && input[1] == 0x54 && input[2] == 0x54 && input[3] == 0x50;
        if marked {
            assert(mark =~= magic());
        } else {
            assert(mark != magic()) by {
                if mark == magic() {
                    assert(mark[0] == 0x53 && mark[1] == 0x54 && mark[2] == 0x54 && mark[3]
                        == 0x50);
                }
            }
        }
        let version = input.subrange(4, 6);
        crate::bytes::short_numbers_add_up(version);
        assert(version[0] == input[4] && version[1] == input[5]);
    }
}

/// The numbers by which types, operations, results and representations travel.
pub proof fn wire_numbers(
    message_type: MessageType,
    operation: Operation,
    status: Status,
    representation: Representation,
)
    ensures
        message_type.code() == (match message_type {
            MessageType::Ready => 1u8,
            MessageType::Request => 2u8,
            MessageType::Reply => 3u8,
        }),
        operation.code() == if operation == Operation::ThumbnailPng {
            1u16
        } else {
            2u16
        },
        status.code() == 0 <==> status == Status::Success,
        status.code() == 1 <==> status == Status::DecodeFailed,
        status.code() == 2 <==> status == Status::UnsupportedOperation,
        status.code() == 0xffff <==> status == Status::ProtocolFailure,
        representation.code() == if representation == Representation::Png {
            1u16
        } else {
            2u16
        },
{
}

/// What each packet carries: the announcement nothing, a request its number, operation and edge,
/// a reply its number, the result, and the shape of its output.
pub proof fn packets_carry_what_was_said(
    request_id: u64,
    operation: u16,
    requested_edge: u16,
    status: Status,
    representation: Representation,
    width: u16,
    height: u16,
    stride: u32,
    output_len: u64,
)
    ensures
        ({
            let ready = WireEnvelope::spec_ready();
            &&& ready.message_type == MessageType::Ready
            &&& ready.request_id == 0 && ready.operation == 0 && ready.requested_edge == 0
            &&& ready.status == 0 && ready.representation == 0 && ready.width == 0
            &&& ready.height == 0 && ready.stride == 0 && ready.output_len == 0
        }),
        ({
            let request = WireEnvelope::spec_request(request_id, operation, requested_edge);
            &&& request.message_type == MessageType::Request
            &&& request.request_id == request_id && request.operation == operation
            &&& request.requested_edge == requested_edge
            &&& request.status == 0 && request.representation == 0 && request.width == 0
            &&& request.height == 0 && request.stride == 0 && request.output_len == 0
        }),
        ({
            let reply = WireEnvelope::spec_reply(
                request_id,
                status,
                representation,
                width,
                height,
                stride,
                output_len,
            );
            &&& reply.message_type == MessageType::Reply
            &&& reply.request_id == request_id && reply.operation == 1 && reply.requested_edge == 0
            &&& reply.status == status.code() && reply.representation == representation.code()
            &&& reply.width == width && reply.height == height && reply.stride == stride
            &&& reply.output_len == output_len
        }),
{
}

} // verus!
