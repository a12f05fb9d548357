//! Who may say what on the control channel of a thumbnail worker.
//!
//! File descriptors are values of a type parameter `F` here. What the kernel reports of
//! a received descriptor travels with it, so that accepting a packet is a decision on
//! plain values.
use vstd::prelude::*;

use crate::wire::{
    MessageType, Operation, ProtocolError, ProtocolResult, Representation, Status, WireEnvelope,
};

verus! {

/// Nanoseconds within which a started worker has to announce itself.
pub const STARTUP_DEADLINE: u128 = 2_000_000_000;

/// Nanoseconds within which a request has to be answered.
pub const REQUEST_DEADLINE: u128 = 12_000_000_000;

/// Largest output that a reply may announce, in bytes.
pub const THUMBNAIL_OUTPUT_CAP_BYTES: u64 = 4_194_304;

/// Largest thumbnail edge in pixels.
pub const MAX_EDGE: u16 = 256;

/// Largest number of descriptors that one packet carries.
pub const MAX_FDS: usize = 1;

/// The seals that an output carries: against sealing, shrinking, growing and writing.
pub const REQUIRED_OUTPUT_SEALS: u32 = 0x0f;

/// Most bytes that one read of an output asks for.
pub const READ_CHUNK_BYTES: u64 = 65_536;

/// The bits of a file mode that hold the file type.
pub const FILE_TYPE_MASK: u32 = 0o170000;

/// The file type of a regular file.
pub const REGULAR_FILE: u32 = 0o100000;

/// Asks `rustix::fs::FileType::from_raw_mode` and `FileType::is_file` whether a raw mode
/// is that of a regular file: its type bits are those of `S_IFREG`.
#[verifier::external_body]
fn is_regular_file(mode: u32) -> (regular: bool)
    ensures
        regular == (mode & FILE_TYPE_MASK == REGULAR_FILE),
{
    rustix::fs::FileType::from_raw_mode(mode).is_file()
}

/// Asks `rustix::fs::SealFlags::contains` whether every bit of `wanted` is set in
/// `present`.
#[verifier::external_body]
fn seals_contain(present: u32, wanted: u32) -> (contained: bool)
    ensures
        contained == (present & wanted == wanted),
{
    rustix::fs::SealFlags::from_bits_retain(present).contains(
        rustix::fs::SealFlags::from_bits_retain(wanted),
    )
}

/// What `fstat` says of a descriptor.
#[derive(Clone, Copy, Debug, PartialEq, Eq, Structural)]
pub struct FileStatus {
    pub mode: u32,
    pub size: i64,
}

/// A received descriptor with what the kernel reports of it; an error is the raw error
/// number of the call that failed.
#[derive(Debug)]
pub struct Descriptor<F> {
    pub handle: F,
    pub status: Result<FileStatus, i32>,
    pub seals: Result<u32, i32>,
}

/// A control packet and the descriptors that came with it.
#[derive(Debug)]
pub struct Packet<F> {
    pub envelope: WireEnvelope,
    pub fds: Vec<Descriptor<F>>,
}

/// Identifies one start of a worker process; never zero.
#[derive(Clone, Copy, Debug, PartialEq, Eq, Structural)]
pub struct WorkerGeneration(u64);

impl WorkerGeneration {
    #[verifier::type_invariant]
    spec fn inv(self) -> bool {
        self.0 != 0
    }

    /// The number of this generation.
    pub closed spec fn number(self) -> u64 {
        self.0
    }

    pub fn new(value: u64) -> (generation: ProtocolResult<Self>)
        ensures
            generation matches Ok(made) ==> made.number() == value && value != 0,
            generation matches Err(error) ==> error == ProtocolError::WorkerGenerationMismatch
                && value == 0,
    {
        if value != 0 {
            Ok(WorkerGeneration(value))
        } else {
            Err(ProtocolError::WorkerGenerationMismatch)
        }
    }

    pub fn value(self) -> (value: u64)
        ensures
            value == self.number(),
            value != 0,
    {
        proof {
            use_type_invariant(self);
        }
        self.0
    }

    /// Two generations with the same number are the same generation.
    pub proof fn number_identifies(self, other: Self)
        requires
            self.number() == other.number(),
        ensures
            self == other,
    {
    }
}

/// What the parent keeps about the one worker that it talks to.
#[derive(Debug)]
pub struct ParentSession {
    generation: WorkerGeneration,
    next_request_id: u64,
    active_request: Option<u64>,
}

/// A parent session as a value: the worker's generation, the number that the next
/// request gets, and the number of the request that is not answered yet.
pub ghost struct SessionView {
    pub generation: WorkerGeneration,
    pub next_request_id: u64,
    pub active_request: Option<u64>,
}

impl View for ParentSession {
    type V = SessionView;

    closed spec fn view(&self) -> SessionView {
        SessionView {
            generation: self.generation,
            next_request_id: self.next_request_id,
            active_request: self.active_request,
        }
    }
}

impl SessionView {
    /// Request numbers start at one and only grow.
    pub open spec fn wf(self) -> bool {
        &&& self.next_request_id >= 1
        &&& self.active_request matches Some(id) ==> 1 <= id < self.next_request_id
    }

    /// Why no request can begin, or `None` where one can.
    pub open spec fn begin_error(
        self,
        generation: WorkerGeneration,
        requested_edge: u16,
    ) -> Option<ProtocolError> {
        if generation != self.generation {
            Some(ProtocolError::WorkerGenerationMismatch)
        } else if self.active_request is Some || !(1 <= requested_edge <= MAX_EDGE) {
            Some(ProtocolError::InvalidState)
        } else if self.next_request_id == u64::MAX {
            Some(ProtocolError::InvalidState)
        } else {
            None
        }
    }

    /// The session once its next request has begun.
    pub open spec fn begun(self) -> SessionView {
        SessionView {
            next_request_id: (self.next_request_id + 1) as u64,
            active_request: Some(self.next_request_id),
            ..self
        }
    }

    /// The session once its request has been answered.
    pub open spec fn answered(self) -> SessionView {
        SessionView { active_request: None, ..self }
    }

    /// Why a packet does not answer the request in progress, or `None` where it does.
    pub open spec fn accept_error<F>(self, packet: Packet<F>) -> Option<ProtocolError> {
        if self.active_request is None {
            Some(ProtocolError::UnsolicitedPacket)
        } else if packet.envelope.message_type != MessageType::Reply
            || packet.envelope.request_id != self.active_request->0 {
            Some(ProtocolError::OrderingViolation)
        } else {
            reply_error(packet)
        }
    }
}

impl ParentSession {
    #[verifier::type_invariant]
    spec fn inv(self) -> bool {
        self@.wf()
    }

    pub fn new(generation: WorkerGeneration) -> (session: Self)
        ensures
            session@ == (SessionView { generation, next_request_id: 1, active_request: None }),
    {
        ParentSession { generation, next_request_id: 1, active_request: None }
    }

    /// Begins a request: hands out its packet and remembers that it is not answered yet.
    pub fn begin_request(
        &mut self,
        generation: WorkerGeneration,
        operation: Operation,
        requested_edge: u16,
    ) -> (request: ProtocolResult<WireEnvelope>)
        ensures
            request matches Err(error) ==> old(self)@.begin_error(generation, requested_edge)
                == Some(error) && final(self)@ == old(self)@,
            request matches Ok(envelope) ==> {
                &&& old(self)@.begin_error(generation, requested_edge) is None
                &&& final(self)@ == old(self)@.begun()
                &&& envelope == WireEnvelope::spec_request(
                    old(self)@.next_request_id,
                    operation.code(),
                    requested_edge,
                )
            },
            final(self)@.wf(),
    {
        proof {
            use_type_invariant(&*self);
        }
        if generation.value() != self.generation.value() {
            return Err(ProtocolError::WorkerGenerationMismatch);
        }
        proof {
            generation.number_identifies(self.generation);
        }
        if self.active_request.is_some() || requested_edge == 0 || requested_edge > MAX_EDGE {
            return Err(ProtocolError::InvalidState);
        }
        let request_id: u64 = self.next_request_id;
        match self.next_request_id.checked_add(1) {
            Some(next) => {
                self.next_request_id = next;
                self.active_request = Some(request_id);
                Ok(WireEnvelope::request(request_id, operation.to_wire(), requested_edge))
            },
            None => Err(ProtocolError::InvalidState),
        }
    }

    /// Takes the reply to the request in progress. A packet that is refused leaves the
    /// session as it was.
    pub fn accept_reply<F>(&mut self, packet: Packet<F>) -> (reply: ProtocolResult<JobReply<F>>)
        ensures
            reply matches Err(error) ==> old(self)@.accept_error(packet) == Some(error)
                && final(self)@ == old(self)@,
            reply matches Ok(job) ==> {
                &&& old(self)@.accept_error(packet) is None
                &&& final(self)@ == old(self)@.answered()
                &&& job.answers(packet)
            },
            final(self)@.wf(),
    {
        proof {
            use_type_invariant(&*self);
        }
        let request_id: u64 = match self.active_request {
            Some(request_id) => request_id,
            None => return Err(ProtocolError::UnsolicitedPacket),
        };
        if packet.envelope.message_type != MessageType::Reply || packet.envelope.request_id
            != request_id {
            return Err(ProtocolError::OrderingViolation);
        }
        match validate_reply_packet(packet) {
            Ok(reply) => {
                self.active_request = None;
                Ok(reply)
            },
            Err(error) => Err(error),
        }
    }
}

/// The result of a request that kept to the protocol.
#[derive(Debug)]
pub enum JobReply<F> {
    Success(ValidatedOutput<F>),
    JobFailure(Status),
}

impl<F> JobReply<F> {
    /// This is what an accepted reply packet says.
    pub open spec fn answers(self, packet: Packet<F>) -> bool {
        match self {
            JobReply::Success(output) => {
                &&& packet.envelope.status == Status::Success.code()
                &&& output.handle() == packet.fds@[0].handle
                &&& Some(output.described()) == metadata_of(packet.envelope)
            },
            JobReply::JobFailure(status) => {
                &&& packet.envelope.status == status.code()
                &&& status == Status::DecodeFailed || status == Status::UnsupportedOperation
            },
        }
    }
}

/// The shape of an output.
#[derive(Clone, Copy, Debug, PartialEq, Eq, Structural)]
pub struct OutputMetadata {
    pub representation: Representation,
    pub width: u16,
    pub height: u16,
    pub stride: u32,
    pub output_len: u64,
}

impl OutputMetadata {
    /// The shapes that an output may have: edges from one to `MAX_EDGE`, a length from
    /// one to the cap, and rows of four bytes a pixel without padding where the pixels
    /// are not encoded.
    pub open spec fn acceptable(self) -> bool {
        &&& 1 <= self.width <= MAX_EDGE
        &&& 1 <= self.height <= MAX_EDGE
        &&& 1 <= self.output_len <= THUMBNAIL_OUTPUT_CAP_BYTES
        &&& match self.representation {
            Representation::Png => self.stride == 0,
            Representation::Rgba8 => self.stride == self.width * 4 && self.output_len
                == self.stride * self.height,
        }
    }
}

/// An output descriptor that passed every check.
#[derive(Debug)]
pub struct ValidatedOutput<F> {
    fd: F,
    metadata: OutputMetadata,
}

impl<F> ValidatedOutput<F> {
    #[verifier::type_invariant]
    spec fn inv(self) -> bool {
        self.metadata.acceptable()
    }

    /// The descriptor that holds the output.
    pub closed spec fn handle(self) -> F {
        self.fd
    }

    /// The shape that was announced and checked.
    pub closed spec fn described(self) -> OutputMetadata {
        self.metadata
    }

    pub fn metadata(&self) -> (metadata: OutputMetadata)
        ensures
            metadata == self.described(),
            metadata.acceptable(),
    {
        proof {
            use_type_invariant(self);
        }
        self.metadata
    }

    /// Starts to read the output: the descriptor to read from, and what is read so far.
    pub fn read_all(self) -> (reading: (F, OutputReader))
        ensures
            reading.0 == self.handle(),
            reading.1.total() == self.described().output_len,
            reading.1@ == Seq::<u8>::empty(),
    {
        proof {
            use_type_invariant(&self);
        }
        let output_len: u64 = self.metadata.output_len;
        (self.fd, OutputReader { output_len, bytes: Vec::new() })
    }
}

/// The part of an output that has been read.
#[derive(Debug)]
pub struct OutputReader {
    output_len: u64,
    bytes: Vec<u8>,
}

impl View for OutputReader {
    type V = Seq<u8>;

    closed spec fn view(&self) -> Seq<u8> {
        self.bytes@
    }
}

impl OutputReader {
    #[verifier::type_invariant]
    spec fn inv(self) -> bool {
        &&& self.output_len <= THUMBNAIL_OUTPUT_CAP_BYTES
        &&& self.bytes@.len() <= self.output_len
    }

    /// The length of the whole output.
    pub closed spec fn total(self) -> u64 {
        self.output_len
    }

    /// How many bytes the next read asks for.
    pub open spec fn wanted(self) -> int {
        if self.total() - self@.len() < READ_CHUNK_BYTES {
            self.total() - self@.len()
        } else {
            READ_CHUNK_BYTES as int
        }
    }

    /// Offset and length of the next read, or `None` once everything is read.
    pub fn next_read(&self) -> (read: Option<(u64, usize)>)
        ensures
            self@.len() <= self.total() <= THUMBNAIL_OUTPUT_CAP_BYTES,
            read is None <==> self@.len() == self.total(),
            read matches Some((offset, length)) ==> offset == self@.len() && length
                == self.wanted() && length > 0,
    {
        proof {
            use_type_invariant(self);
        }
        let offset: u64 = self.bytes.len() as u64;
        if offset < self.output_len {
            let remaining: u64 = self.output_len - offset;
            let length: u64 = if remaining < READ_CHUNK_BYTES {
                remaining
            } else {
                READ_CHUNK_BYTES
            };
            Some((offset, length as usize))
        } else {
            None
        }
    }

    /// Takes what a read returned: bytes, or a raw error number. A read that returns
    /// nothing before the end means that the writer is gone.
    pub fn accept_read(&mut self, read: Result<Vec<u8>, i32>) -> (accepted: ProtocolResult<()>)
        requires
            read matches Ok(chunk) ==> chunk@.len() <= old(self).wanted(),
        ensures
            final(self).total() == old(self).total(),
            match read {
                Err(code) => accepted == ProtocolResult::<()>::Err(ProtocolError::Io(code))
                    && final(self)@ == old(self)@,
                Ok(chunk) => if chunk@.len() == 0 {
                    accepted == ProtocolResult::<()>::Err(ProtocolError::PeerClosed)
                        && final(self)@ == old(self)@
                } else {
                    accepted is Ok && final(self)@ == old(self)@ + chunk@
                },
            },
    {
        proof {
            use_type_invariant(&*self);
        }
        match read {
            Err(code) => Err(ProtocolError::Io(code)),
            Ok(chunk) => {
                if chunk.len() == 0 {
                    return Err(ProtocolError::PeerClosed);
                }
                let ghost before = self.bytes@;
                let mut bytes: Vec<u8> = Vec::new();
                std::mem::swap(&mut bytes, &mut self.bytes);
                bytes.extend_from_slice(chunk.as_slice());
                self.bytes = bytes;
                assert(self.bytes@ =~= before + chunk@);
                Ok(())
            },
        }
    }

    /// The bytes that were read.
    pub fn finish(self) -> (bytes: Vec<u8>)
        ensures
            bytes@ == self@,
    {
        self.bytes
    }
}

/// A read of the next part of `file` extends what has been read of it; once nothing more
/// is asked for, the result is the whole output.
pub proof fn reading_follows_the_file(
    file: Seq<u8>,
    before: OutputReader,
    chunk: Seq<u8>,
    after: OutputReader,
)
    requires
        before@.len() + chunk.len() <= file.len(),
        before@ == file.subrange(0, before@.len() as int),
        chunk == file.subrange(before@.len() as int, (before@.len() + chunk.len()) as int),
        after@ == before@ + chunk,
    ensures
        after@ == file.subrange(0, after@.len() as int),
        after@.len() == file.len() ==> after@ == file,
{
    assert(after@ =~= file.subrange(0, after@.len() as int));
    assert(file.subrange(0, file.len() as int) =~= file);
}

/// A request that a worker accepted.
#[derive(Clone, Copy, Debug, PartialEq, Eq, Structural)]
pub struct WorkerRequest {
    pub request_id: u64,
    pub operation: Operation,
    pub requested_edge: u16,
}

/// The fields beside type and operation that every request packet has.
pub open spec fn request_fields_ok(envelope: WireEnvelope) -> bool {
    &&& envelope.request_id != 0
    &&& 1 <= envelope.requested_edge <= MAX_EDGE
    &&& envelope.status == Status::Success.code()
    &&& envelope.representation == 0
    &&& envelope.width == 0
    &&& envelope.height == 0
    &&& envelope.stride == 0
    &&& envelope.output_len == 0
}

/// Why a packet with `expected` descriptors is no request, or `None` where it is one.
pub open spec fn request_error<F>(packet: Packet<F>, expected: nat) -> Option<ProtocolError> {
    if packet.envelope.message_type != MessageType::Request || packet.fds@.len() != expected {
        Some(ProtocolError::UnexpectedDescriptors)
    } else if !(1 <= packet.envelope.operation <= 2) {
        Some(ProtocolError::InvalidMetadata)
    } else if !request_fields_ok(packet.envelope) {
        Some(ProtocolError::MalformedPacket)
    } else {
        None
    }
}

impl WorkerRequest {
    /// This is what the request packet asks for.
    pub open spec fn asked_by(self, envelope: WireEnvelope) -> bool {
        &&& self.request_id == envelope.request_id
        &&& self.operation.code() == envelope.operation
        &&& self.requested_edge == envelope.requested_edge
    }
}

/// Whether the fields beside type and operation are those of a request.
pub fn has_request_fields(envelope: &WireEnvelope) -> (sound: bool)
    ensures
        sound == request_fields_ok(*envelope),
{
    envelope.request_id != 0 && envelope.requested_edge != 0 && envelope.requested_edge <= MAX_EDGE
        && envelope.status == Status::Success.to_wire() && envelope.representation == 0
        && envelope.width == 0 && envelope.height == 0 && envelope.stride == 0
        && envelope.output_len == 0
}

fn request_of(envelope: WireEnvelope) -> (request: ProtocolResult<WorkerRequest>)
    ensures
        request matches Ok(accepted) ==> {
            &&& 1 <= envelope.operation <= 2
            &&& request_fields_ok(envelope)
            &&& accepted.asked_by(envelope)
        },
        request matches Err(error) ==> if !(1 <= envelope.operation <= 2) {
            error == ProtocolError::InvalidMetadata
        } else {
            error == ProtocolError::MalformedPacket && !request_fields_ok(envelope)
        },
{
    let operation = match Operation::from_wire(envelope.operation) {
        Some(operation) => operation,
        None => return Err(ProtocolError::InvalidMetadata),
    };
    if !has_request_fields(&envelope) {
        return Err(ProtocolError::MalformedPacket);
    }
    Ok(
        WorkerRequest {
            request_id: envelope.request_id,
            operation,
            requested_edge: envelope.requested_edge,
        },
    )
}

/// Accepts a request that carries no descriptor.
pub fn validate_request<F>(packet: Packet<F>) -> (request: ProtocolResult<WorkerRequest>)
    ensures
        request matches Ok(accepted) ==> request_error(packet, 0) is None && accepted.asked_by(
            packet.envelope,
        ),
        request matches Err(error) ==> request_error(packet, 0) == Some(error),
{
    if packet.fds.len() != 0 || packet.envelope.message_type != MessageType::Request {
        return Err(ProtocolError::UnexpectedDescriptors);
    }
    request_of(packet.envelope)
}

/// A request together with the snapshot that it is about.
#[derive(Debug)]
pub struct SnapshotRequest<F> {
    pub request: WorkerRequest,
    pub input: Descriptor<F>,
}

/// Accepts a request that carries its input as its one descriptor.
pub fn validate_snapshot_request<F>(mut packet: Packet<F>) -> (request: ProtocolResult<
    SnapshotRequest<F>,
>)
    ensures
        request matches Ok(accepted) ==> {
            &&& request_error(packet, 1) is None
            &&& accepted.request.asked_by(packet.envelope)
            &&& accepted.input == packet.fds@[0]
        },
        request matches Err(error) ==> request_error(packet, 1) == Some(error),
{
    if packet.fds.len() != 1 || packet.envelope.message_type != MessageType::Request {
        return Err(ProtocolError::UnexpectedDescriptors);
    }
    match request_of(packet.envelope) {
        Ok(request) => Ok(SnapshotRequest { request, input: packet.fds.swap_remove(0) }),
        Err(error) => Err(error),
    }
}

/// The reply to a request whose operation is not known.
pub fn unsupported_reply(request_id: u64) -> (envelope: WireEnvelope)
    ensures
        envelope == WireEnvelope::spec_reply(
            request_id,
            Status::UnsupportedOperation,
            Representation::Png,
            0,
            0,
            0,
            0,
        ),
{
    WireEnvelope::reply(
        request_id,
        Status::UnsupportedOperation,
        Representation::Png,
        0,
        0,
        0,
        0,
    )
}

/// A started worker has to open with the ready packet and nothing else.
pub fn check_ready<F>(packet: Packet<F>) -> (ready: ProtocolResult<()>)
    ensures
        ready is Ok <==> packet.envelope == WireEnvelope::spec_ready(),
        ready matches Err(error) ==> error == ProtocolError::OrderingViolation,
{
    if packet.envelope == WireEnvelope::ready() {
        Ok(())
    } else {
        Err(ProtocolError::OrderingViolation)
    }
}

/// Why the output that a success reply announces is refused, or `None` where it is not.
pub open spec fn metadata_error(envelope: WireEnvelope) -> Option<ProtocolError> {
    if !(1 <= envelope.representation <= 2) {
        Some(ProtocolError::InvalidMetadata)
    } else if envelope.operation != Operation::ThumbnailPng.code() || !(1 <= envelope.width
        <= MAX_EDGE) || !(1 <= envelope.height <= MAX_EDGE) {
        Some(ProtocolError::InvalidMetadata)
    } else if envelope.stride != row_bytes(envelope) {
        Some(ProtocolError::InvalidMetadata)
    } else if envelope.output_len == 0 {
        Some(ProtocolError::BadOutputLength)
    } else if envelope.output_len > THUMBNAIL_OUTPUT_CAP_BYTES {
        Some(ProtocolError::OutputTooLarge)
    } else if envelope.representation == Representation::Rgba8.code() && envelope.output_len
        != envelope.stride * envelope.height {
        Some(ProtocolError::BadOutputLength)
    } else {
        None
    }
}

/// The stride that a reply has to announce: none for an encoded picture, four bytes a
/// pixel for raw pixels.
pub open spec fn row_bytes(envelope: WireEnvelope) -> int {
    if envelope.representation == Representation::Rgba8.code() {
        envelope.width * 4
    } else {
        0
    }
}

/// The shape that a success reply announces, where it is acceptable.
pub open spec fn metadata_of(envelope: WireEnvelope) -> Option<OutputMetadata> {
    if metadata_error(envelope) is None {
        Some(
            OutputMetadata {
                representation: if envelope.representation == Representation::Png.code() {
                    Representation::Png
                } else {
                    Representation::Rgba8
                },
                width: envelope.width,
                height: envelope.height,
                stride: envelope.stride,
                output_len: envelope.output_len,
            },
        )
    } else {
        None
    }
}

/// Checks the shape that a success reply announces.
pub fn validate_output_metadata(envelope: &WireEnvelope) -> (metadata: ProtocolResult<
    OutputMetadata,
>)
    ensures
        metadata matches Err(error) ==> metadata_error(*envelope) == Some(error),
        metadata matches Ok(found) ==> metadata_of(*envelope) == Some(found) && found.acceptable(),
{
    let representation = match Representation::from_wire(envelope.representation) {
        Some(representation) => representation,
        None => return Err(ProtocolError::InvalidMetadata),
    };
    if envelope.operation != Operation::ThumbnailPng.to_wire() || envelope.width == 0
        || envelope.height == 0 || envelope.width > MAX_EDGE || envelope.height > MAX_EDGE {
        return Err(ProtocolError::InvalidMetadata);
    }
    let stride: u32 = match representation {
        Representation::Png => 0,
        Representation::Rgba8 => envelope.width as u32 * 4,
    };
    if envelope.stride != stride {
        return Err(ProtocolError::InvalidMetadata);
    }
    if envelope.output_len == 0 {
        return Err(ProtocolError::BadOutputLength);
    }
    if envelope.output_len > THUMBNAIL_OUTPUT_CAP_BYTES {
        return Err(ProtocolError::OutputTooLarge);
    }
    if representation == Representation::Rgba8 {
        assert(stride * envelope.height <= 1024 * 256) by (nonlinear_arith)
            requires
                stride <= 1024,
                envelope.height <= 256,
        ;
        if envelope.output_len != stride as u64 * envelope.height as u64 {
            return Err(ProtocolError::BadOutputLength);
        }
    }
    Ok(
        OutputMetadata {
            representation,
            width: envelope.width,
            height: envelope.height,
            stride: envelope.stride,
            output_len: envelope.output_len,
        },
    )
}

/// Why a descriptor cannot hold an output of `output_len` bytes, or `None` where it can.
pub open spec fn output_fd_error<F>(fd: Descriptor<F>, output_len: u64) -> Option<ProtocolError> {
    match fd.status {
        Err(code) => Some(ProtocolError::Io(code)),
        Ok(status) => if status.mode & FILE_TYPE_MASK != REGULAR_FILE {
            Some(ProtocolError::WrongDescriptorType)
        } else if status.size != output_len {
            Some(ProtocolError::BadOutputLength)
        } else {
            match fd.seals {
                Err(_) => Some(ProtocolError::MissingSeals),
                Ok(seals) => if seals & REQUIRED_OUTPUT_SEALS != REQUIRED_OUTPUT_SEALS {
                    Some(ProtocolError::MissingSeals)
                } else {
                    None
                },
            }
        },
    }
}

/// Checks that a descriptor is a fully sealed regular file of the announced length.
pub fn validate_output_fd<F>(fd: Descriptor<F>, metadata: OutputMetadata) -> (output:
    ProtocolResult<ValidatedOutput<F>>)
    requires
        metadata.acceptable(),
    ensures
        output matches Err(error) ==> output_fd_error(fd, metadata.output_len) == Some(error),
        output matches Ok(found) ==> {
            &&& output_fd_error(fd, metadata.output_len) is None
            &&& found.handle() == fd.handle
            &&& found.described() == metadata
        },
{
    let status = match fd.status {
        Ok(status) => status,
        Err(code) => return Err(ProtocolError::Io(code)),
    };
    if !is_regular_file(status.mode) {
        return Err(ProtocolError::WrongDescriptorType);
    }
    if status.size < 0 || status.size as u64 != metadata.output_len {
        return Err(ProtocolError::BadOutputLength);
    }
    let seals: u32 = match fd.seals {
        Ok(seals) => seals,
        Err(_) => return Err(ProtocolError::MissingSeals),
    };
    if !seals_contain(seals, REQUIRED_OUTPUT_SEALS) {
        return Err(ProtocolError::MissingSeals);
    }
    Ok(ValidatedOutput { fd: fd.handle, metadata })
}

/// Why a packet is no acceptable reply, or `None` where it is one.
pub open spec fn reply_error<F>(packet: Packet<F>) -> Option<ProtocolError> {
    let envelope = packet.envelope;
    if envelope.message_type != MessageType::Reply || envelope.request_id == 0 {
        Some(ProtocolError::MalformedPacket)
    } else if 2 < envelope.status < 0xffff {
        Some(ProtocolError::MalformedPacket)
    } else if envelope.status != Status::Success.code() {
        if packet.fds@.len() != 0 || envelope.output_len != 0 {
            Some(ProtocolError::UnexpectedDescriptors)
        } else if envelope.status == Status::ProtocolFailure.code() {
            Some(ProtocolError::MalformedPacket)
        } else {
            None
        }
    } else if packet.fds@.len() == 0 {
        Some(ProtocolError::MissingDescriptor)
    } else if packet.fds@.len() > 1 {
        Some(ProtocolError::UnexpectedDescriptors)
    } else if metadata_error(envelope) is Some {
        metadata_error(envelope)
    } else {
        output_fd_error(packet.fds@[0], envelope.output_len)
    }
}

/// Checks a reply: a failure carries nothing, a success carries one acceptable output.
pub fn validate_reply_packet<F>(mut packet: Packet<F>) -> (reply: ProtocolResult<JobReply<F>>)
    ensures
        reply matches Err(error) ==> reply_error(packet) == Some(error),
        reply matches Ok(job) ==> reply_error(packet) is None && job.answers(packet),
{
    if packet.envelope.message_type != MessageType::Reply || packet.envelope.request_id == 0 {
        return Err(ProtocolError::MalformedPacket);
    }
    let status = match Status::from_wire(packet.envelope.status) {
        Some(status) => status,
        None => return Err(ProtocolError::MalformedPacket),
    };
    if status != Status::Success {
        if packet.fds.len() != 0 || packet.envelope.output_len != 0 {
            return Err(ProtocolError::UnexpectedDescriptors);
        }
        if status == Status::DecodeFailed || status == Status::UnsupportedOperation {
            return Ok(JobReply::JobFailure(status));
        }
        return Err(ProtocolError::MalformedPacket);
    }
    if packet.fds.len() != 1 {
        return Err(
            if packet.fds.len() == 0 {
                ProtocolError::MissingDescriptor
            } else {
                ProtocolError::UnexpectedDescriptors
            },
        );
    }
    let envelope = packet.envelope;
    let fd = packet.fds.swap_remove(0);
    match validate_output_metadata(&envelope) {
        Err(error) => Err(error),
        Ok(metadata) => match validate_output_fd(fd, metadata) {
            Err(error) => Err(error),
            Ok(output) => Ok(JobReply::Success(output)),
        },
    }
}

/// At most one request is in progress: while one is, none can begin; once it is
/// answered, every further request has a larger number.
pub proof fn one_request_at_a_time(
    session: SessionView,
    generation: WorkerGeneration,
    requested_edge: u16,
)
    requires
        session.wf(),
        session.begin_error(generation, requested_edge) is None,
    ensures
        session.begun().wf(),
        forall|other: WorkerGeneration, edge: u16|
            #[trigger] session.begun().begin_error(other, edge) is Some,
        session.begun().answered().active_request is None,
        session.begun().answered().next_request_id > session.next_request_id,
{
}

/// A failure that a worker reports within the protocol leaves the session ready for the
/// next request.
pub proof fn job_failure_leaves_session_usable<F>(
    session: SessionView,
    packet: Packet<F>,
    requested_edge: u16,
)
    requires
        session.wf(),
        session.active_request is Some,
        session.next_request_id < u64::MAX,
        packet.envelope.message_type == MessageType::Reply,
        packet.envelope.request_id == session.active_request->0,
        packet.envelope.status == Status::DecodeFailed.code() || packet.envelope.status
            == Status::UnsupportedOperation.code(),
        packet.envelope.output_len == 0,
        packet.fds@.len() == 0,
        1 <= requested_edge <= MAX_EDGE,
    ensures
        session.accept_error(packet) is None,
        session.answered().begin_error(session.generation, requested_edge) is None,
{
}

/// The packet that begins a request is one that a worker accepts.
pub proof fn begun_request_is_accepted<F>(
    session: SessionView,
    operation: Operation,
    requested_edge: u16,
    fds: Vec<Descriptor<F>>,
)
    requires
        session.wf(),
        1 <= requested_edge <= MAX_EDGE,
    ensures
        request_error(
            Packet {
                envelope: WireEnvelope::spec_request(
                    session.next_request_id,
                    operation.code(),
                    requested_edge,
                ),
                fds,
            },
            fds@.len(),
        ) is None,
{
}

/// Replies to any other request, and packets that nobody asked for, are refused.
pub proof fn stray_packets_are_refused<F>(session: SessionView, packet: Packet<F>)
    ensures
        session.active_request is None ==> session.accept_error(packet) == Some(
            ProtocolError::UnsolicitedPacket,
        ),
        session.active_request matches Some(id) ==> id != packet.envelope.request_id
            ==> session.accept_error(packet) == Some(ProtocolError::OrderingViolation),
{
}

/// A request can begin exactly on the session's own worker, with an edge from 1 to 256, while none
/// is in progress and there are numbers left; another worker is refused as such.
pub proof fn when_requests_begin(session: SessionView, generation: WorkerGeneration, edge: u16)
    ensures
        session.begin_error(generation, edge) is None <==> generation == session.generation
            && session.active_request is None && 1 <= edge <= 256 && session.next_request_id
            < u64::MAX,
        generation != session.generation <==> session.begin_error(generation, edge) == Some(
            ProtocolError::WorkerGenerationMismatch,
        ),
        session.begin_error(generation, edge) is Some && generation == session.generation
            ==> session.begin_error(generation, edge) == Some(ProtocolError::InvalidState),
{
}

/// A request that begins is in progress under the next number, and none is once it is answered.
pub proof fn requests_are_numbered_in_turn(session: SessionView)
    requires
        session.next_request_id < u64::MAX,
    ensures
        session.begun().active_request == Some(session.next_request_id),
        session.begun().next_request_id == session.next_request_id + 1,
        session.begun().generation == session.generation,
        session.answered().active_request is None,
        session.answered().next_request_id == session.next_request_id,
        session.answered().generation == session.generation,
{
}

/// A packet is accepted exactly if it is the reply to the request in progress and either tells a
/// failure without descriptors, or brings one sealed regular file that holds the picture it
/// announces: from 1 to 256 pixels either way and at most 4 MiB, encoded, or as raw pixels of four
/// bytes.
pub proof fn what_is_accepted<F>(session: SessionView, packet: Packet<F>)
    requires
        session.wf(),
    ensures
        session.accept_error(packet) is None <==> {
            let reply = packet.envelope;
            &&& reply.message_type == MessageType::Reply
            &&& session.active_request == Some(reply.request_id)
            &&& {
                ||| {
                    &&& reply.status == 1 || reply.status == 2
                    &&& packet.fds@.len() == 0
                    &&& reply.output_len == 0
                }
                ||| {
                    &&& reply.status == 0
                    &&& packet.fds@.len() == 1
                    &&& reply.operation == 1
                    &&& 1 <= reply.width <= 256
                    &&& 1 <= reply.height <= 256
                    &&& 1 <= reply.output_len <= 4_194_304
                    &&& {
                        ||| reply.representation == 1 && reply.stride == 0
                        ||| reply.representation == 2 && reply.stride == 4 * reply.width
                            && reply.output_len == reply.stride * reply.height
                    }
                    &&& packet.fds@[0].status is Ok
                    &&& packet.fds@[0].status->Ok_0.mode & 0o170000 == 0o100000
                    &&& packet.fds@[0].status->Ok_0.size == reply.output_len
                    &&& packet.fds@[0].seals is Ok
                    &&& packet.fds@[0].seals->Ok_0 & 0x0f == 0x0f
                }
            }
        },
{
}

/// An accepted reply says what its packet says: a picture in the packet's own file, of the shape
/// that is announced, or the failure that is told.
pub proof fn replies_say_what_came<F>(session: SessionView, packet: Packet<F>, job: JobReply<F>)
    requires
        session.accept_error(packet) is None,
        job.answers(packet),
    ensures
        packet.envelope.status == 0 <==> job is Success,
        packet.envelope.status == 1 ==> job == JobReply::<F>::JobFailure(Status::DecodeFailed),
        packet.envelope.status == 2 ==> job == JobReply::<F>::JobFailure(
            Status::UnsupportedOperation,
        ),
        job matches JobReply::Success(output) ==> {
            &&& output.handle() == packet.fds@[0].handle
            &&& output.described().width == packet.envelope.width
            &&& output.described().height == packet.envelope.height
            &&& output.described().stride == packet.envelope.stride
            &&& output.described().output_len == packet.envelope.output_len
            &&& output.described().representation == if packet.envelope.representation == 1 {
                Representation::Png
            } else {
                Representation::Rgba8
            }
        },
{
}

/// What stands in the way of an output is named: a descriptor that cannot be looked at, is no
/// regular file, has another length, or is not sealed.
pub proof fn output_faults_are_named<F>(fd: Descriptor<F>, output_len: u64)
    ensures
        fd.status matches Err(code) ==> output_fd_error(fd, output_len) == Some(
            ProtocolError::Io(code),
        ),
        fd.status matches Ok(status) ==> {
            let regular = status.mode & 0o170000 == 0o100000;
            let sealed = fd.seals is Ok && fd.seals->Ok_0 & 0x0f == 0x0f;
            &&& !regular ==> output_fd_error(fd, output_len) == Some(
                ProtocolError::WrongDescriptorType,
            )
            &&& regular && status.size != output_len ==> output_fd_error(fd, output_len) == Some(
                ProtocolError::BadOutputLength,
            )
            &&& regular && status.size == output_len && !sealed ==> output_fd_error(fd, output_len)
                == Some(ProtocolError::MissingSeals)
            &&& regular && status.size == output_len && sealed ==> output_fd_error(
                fd,
                output_len,
            ) is None
        },
{
}

/// The shapes that an announced output may have, and as what the others are refused.
pub proof fn shape_faults_are_named(envelope: WireEnvelope)
    ensures
        ({
            let known = envelope.representation == 1 || envelope.representation == 2;
            let sized = envelope.operation == 1 && 1 <= envelope.width <= 256 && 1
                <= envelope.height <= 256 && envelope.stride == (if envelope.representation == 2 {
                4 * envelope.width
            } else {
                0
            });
            &&& !(known && sized) ==> metadata_error(envelope) == Some(
                ProtocolError::InvalidMetadata,
            )
            &&& known && sized && envelope.output_len == 0 ==> metadata_error(envelope) == Some(
                ProtocolError::BadOutputLength,
            )
            &&& known && sized && envelope.output_len > 4_194_304 ==> metadata_error(envelope)
                == Some(ProtocolError::OutputTooLarge)
            &&& known && sized && 1 <= envelope.output_len <= 4_194_304 && envelope.representation
                == 2 && envelope.output_len != envelope.stride * envelope.height ==> metadata_error(
                envelope,
            ) == Some(ProtocolError::BadOutputLength)
            &&& known && sized && 1 <= envelope.output_len <= 4_194_304 && (envelope.representation
                == 1 || envelope.output_len == envelope.stride * envelope.height)
                ==> metadata_error(envelope) is None
        }),
        metadata_of(envelope) is Some <==> metadata_error(envelope) is None,
{
}

/// A packet is a request exactly if it is one in type, has the descriptors that are awaited, a
/// known operation, a number, an edge from 1 to 256, and nothing else in it; what it asks for is
/// what stands there.
pub proof fn what_is_a_request<F>(packet: Packet<F>, expected: nat, request: WorkerRequest)
    ensures
        request_error(packet, expected) is None <==> {
            let asked = packet.envelope;
            &&& asked.message_type == MessageType::Request
            &&& packet.fds@.len() == expected
            &&& asked.operation == 1 || asked.operation == 2
            &&& asked.request_id != 0
            &&& 1 <= asked.requested_edge <= 256
            &&& asked.status == 0 && asked.representation == 0
            &&& asked.width == 0 && asked.height == 0 && asked.stride == 0 && asked.output_len == 0
        },
        packet.envelope.message_type != MessageType::Request || packet.fds@.len() != expected
            ==> request_error(packet, expected) == Some(ProtocolError::UnexpectedDescriptors),
        packet.envelope.message_type == MessageType::Request && packet.fds@.len() == expected && !(
        packet.envelope.operation == 1 || packet.envelope.operation == 2) ==> request_error(
            packet,
            expected,
        ) == Some(ProtocolError::InvalidMetadata),
        request_error(packet, expected) is Some && packet.envelope.message_type
            == MessageType::Request && packet.fds@.len() == expected && (packet.envelope.operation
            == 1 || packet.envelope.operation == 2) ==> request_error(packet, expected) == Some(
            ProtocolError::MalformedPacket,
        ),
        request.asked_by(packet.envelope) ==> request.request_id == packet.envelope.request_id
            && request.requested_edge == packet.envelope.requested_edge && (
        packet.envelope.operation == 1 <==> request.operation == Operation::ThumbnailPng) && (
        packet.envelope.operation == 2 <==> request.operation == Operation::ThumbnailPdf),
{
}

/// A read asks for all that is left, but never for more than 64 KiB.
pub proof fn reads_ask_for_what_is_left(reader: OutputReader)
    ensures
        reader.wanted() == vstd::math::min(reader.total() - reader@.len(), 65_536),
{
}

/// The shapes that an output may have: from 1 to 256 pixels either way, at most 4 MiB, encoded
/// without rows or in rows of four bytes a pixel.
pub proof fn which_shapes_are_acceptable(shape: OutputMetadata)
    ensures
        shape.acceptable() <==> {
            &&& 1 <= shape.width <= 256
            &&& 1 <= shape.height <= 256
            &&& 1 <= shape.output_len <= 4_194_304
            &&& {
                ||| shape.representation == Representation::Png && shape.stride == 0
                ||| shape.representation == Representation::Rgba8 && shape.stride == 4 * shape.width
                    && shape.output_len == shape.stride * shape.height
            }
        },
        MAX_FDS == 1,
{
}

/// Beside its type and operation a request has a number and an edge from 1 to 256, and nothing
/// else.
pub proof fn which_fields_a_request_has(envelope: WireEnvelope)
    ensures
        request_fields_ok(envelope) <==> envelope.request_id != 0 && 1 <= envelope.requested_edge
            <= 256 && envelope.status == 0 && envelope.representation == 0 && envelope.width == 0
            && envelope.height == 0 && envelope.stride == 0 && envelope.output_len == 0,
{
}

} // verus!
