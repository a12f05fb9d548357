//! The sandboxed helper: the loop of a thumbnail worker, and one-shot previews.
use vstd::prelude::*;
use vstd::string::StringExecFns;

use crate::command::CommandLine;
use crate::fallback::{
    attempted_in_order, fallback_step, lemma_one_more, state_after, FallbackStep,
};
use crate::media::{accepted_output, MediaPreviewBackend};
use crate::pixels::{PictureShape, PixelError, RgbaImage};
use crate::protocol::{
    begun_request_is_accepted, has_request_fields, job_failure_leaves_session_usable,
    metadata_error, metadata_of, request_error, request_fields_ok, unsupported_reply,
    validate_snapshot_request, JobReply, OutputMetadata, Packet, SessionView, SnapshotRequest,
    FILE_TYPE_MASK, MAX_EDGE, REGULAR_FILE, REQUEST_DEADLINE, REQUIRED_OUTPUT_SEALS,
    STARTUP_DEADLINE,
};
use crate::text::{append_signed, decimal_int, parse_i32, parsed_i32};
use crate::wire::{
    MessageType, Operation, ProtocolError, ProtocolResult, Representation, Status, WireEnvelope,
};

verus! {

/// Smallest thumbnail edge that is rendered.
pub const MIN_THUMBNAIL_EDGE: i32 = 16;

/// Largest thumbnail edge that is rendered.
pub const MAX_THUMBNAIL_EDGE: i32 = 256;

/// Edge of an image preview.
pub const PREVIEW_EDGE: i32 = 1400;

/// Where a worker is between two outside calls.
#[derive(Clone, Copy, Debug, PartialEq, Eq, Structural)]
pub enum WorkerState {
    /// Its ready packet is on the way.
    Announcing,
    /// It waits for a request.
    Waiting,
    /// It renders for this request.
    Rendering(u64),
    /// It seals an output, and will then send this reply.
    Sealing(WireEnvelope),
    /// Its reply is on the way; `true` if the reply is a success.
    Replying(bool),
    /// It is done.
    Stopped,
}

/// What came of the outside call that a worker asked for.
#[derive(Debug)]
pub enum WorkerEvent<F> {
    Sent(ProtocolResult<()>),
    Received(ProtocolResult<Packet<F>>),
    /// The picture could not be rendered.
    RenderFailed,
    /// The picture was rendered; its pixels could be packed or not.
    Rendered(Result<RgbaImage, PixelError>),
    Sealed(ProtocolResult<()>),
}

/// The outside call that a worker asks for.
#[derive(Debug)]
pub enum WorkerAction<F> {
    /// Send a packet within `deadline` nanoseconds, with the sealed output if `with_output`.
    Send { envelope: WireEnvelope, deadline: u128, with_output: bool },
    /// Receive a packet with one descriptor within `deadline` nanoseconds.
    Receive { deadline: u128 },
    Render(SnapshotRequest<F>),
    Seal(Vec<u8>),
    /// Close down.
    Stop(Result<(), WorkerError>),
}

/// Why a worker gives up.
#[derive(Clone, Copy, Debug, PartialEq, Eq, Structural)]
pub enum WorkerError {
    Announce(ProtocolError),
    InvalidRequest(ProtocolError),
    Pixels(PixelError),
    Seal(ProtocolError),
    SendReply(ProtocolError),
    SendFailure(ProtocolError),
}

impl WorkerError {
    /// The error in words, up to the protocol error that caused it.
    pub fn message(self) -> (text: &'static str)
        ensures
            text@ == match self {
                WorkerError::Announce(_) => "Unable to announce thumbnail worker readiness: "@,
                WorkerError::InvalidRequest(_) => "Invalid thumbnail worker request: "@,
                WorkerError::Pixels(error) => match error {
                    PixelError::NoPixels => "Thumbnail worker produced no pixels"@,
                    PixelError::WidthOverflowed => "thumbnail width overflowed"@,
                    PixelError::HeightOverflowed => "thumbnail height overflowed"@,
                    PixelError::InvalidMetadata =>
                    "Thumbnail worker produced invalid pixel metadata"@,
                    PixelError::InvalidRowstride => "invalid rowstride"@,
                    PixelError::Truncated => "thumbnail pixel buffer was truncated"@,
                },
                WorkerError::Seal(_) => "Unable to seal thumbnail worker output: "@,
                WorkerError::SendReply(_) => "Unable to send thumbnail worker reply: "@,
                WorkerError::SendFailure(_) => "Unable to send thumbnail worker failure: "@,
            },
    {
        match self {
            WorkerError::Announce(_) => "Unable to announce thumbnail worker readiness: ",
            WorkerError::InvalidRequest(_) => "Invalid thumbnail worker request: ",
            WorkerError::Pixels(error) => error.message(),
            WorkerError::Seal(_) => "Unable to seal thumbnail worker output: ",
            WorkerError::SendReply(_) => "Unable to send thumbnail worker reply: ",
            WorkerError::SendFailure(_) => "Unable to send thumbnail worker failure: ",
        }
    }
}

/// The reply to a request that could not be rendered.
pub open spec fn failure_reply(request_id: u64) -> WireEnvelope {
    WireEnvelope::spec_reply(request_id, Status::DecodeFailed, Representation::Png, 0, 0, 0, 0)
}

/// The reply to a request whose operation is not known.
pub open spec fn unsupported_answer(request_id: u64) -> WireEnvelope {
    WireEnvelope::spec_reply(
        request_id,
        Status::UnsupportedOperation,
        Representation::Png,
        0,
        0,
        0,
        0,
    )
}

/// The reply to a request that was rendered to `image`.
pub open spec fn success_reply(request_id: u64, image: RgbaImage) -> WireEnvelope {
    WireEnvelope::spec_reply(
        request_id,
        Status::Success,
        Representation::Rgba8,
        image.width,
        image.height,
        image.stride,
        image.pixels@.len() as u64,
    )
}

/// Whether `event` is what a worker in `state` waits for.
pub open spec fn awaits<F>(state: WorkerState, event: WorkerEvent<F>) -> bool {
    match state {
        WorkerState::Announcing | WorkerState::Replying(_) => event is Sent,
        WorkerState::Waiting => event is Received,
        WorkerState::Rendering(_) => event is RenderFailed || event is Rendered,
        WorkerState::Sealing(_) => event is Sealed,
        WorkerState::Stopped => false,
    }
}

/// A worker opens with its ready packet.
pub fn start_worker<F>() -> (start: (WorkerState, WorkerAction<F>))
    ensures
        start.0 == WorkerState::Announcing,
        start.1 == (WorkerAction::<F>::Send {
            envelope: WireEnvelope::spec_ready(),
            deadline: STARTUP_DEADLINE,
            with_output: false,
        }),
{
    (
        WorkerState::Announcing,
        WorkerAction::Send {
            envelope: WireEnvelope::ready(),
            deadline: STARTUP_DEADLINE,
            with_output: false,
        },
    )
}

/// The error of a packet that did not get out in `state`.
pub open spec fn send_error(state: WorkerState, error: ProtocolError) -> WorkerError {
    match state {
        WorkerState::Announcing => WorkerError::Announce(error),
        WorkerState::Replying(true) => WorkerError::SendReply(error),
        _ => WorkerError::SendFailure(error),
    }
}

/// Whether a worker may go from `state` to `next`, asking for `action`, after `event`.
pub open spec fn worker_may<F>(
    state: WorkerState,
    event: WorkerEvent<F>,
    next: WorkerState,
    action: WorkerAction<F>,
) -> bool {
    match event {
        WorkerEvent::Sent(Ok(_)) => {
            &&& next == WorkerState::Waiting
            &&& action == (WorkerAction::<F>::Receive { deadline: REQUEST_DEADLINE })
        },
        WorkerEvent::Sent(Err(error)) => {
            &&& next == WorkerState::Stopped
            &&& action == WorkerAction::<F>::Stop(Err(send_error(state, error)))
        },
        WorkerEvent::Received(Err(ProtocolError::PeerClosed)) => {
            &&& next == WorkerState::Stopped
            &&& action == WorkerAction::<F>::Stop(Ok(()))
        },
        WorkerEvent::Received(Err(ProtocolError::Timeout)) => {
            &&& next == WorkerState::Waiting
            &&& action == (WorkerAction::<F>::Receive { deadline: REQUEST_DEADLINE })
        },
        WorkerEvent::Received(Err(error)) => {
            &&& next == WorkerState::Stopped
            &&& action == WorkerAction::<F>::Stop(Err(WorkerError::InvalidRequest(error)))
        },
        WorkerEvent::Received(Ok(packet)) => match request_error(packet, 1) {
            Some(ProtocolError::InvalidMetadata) if request_fields_ok(packet.envelope) => {
                &&& next == WorkerState::Replying(false)
                &&& action == (WorkerAction::<F>::Send {
                    envelope: unsupported_answer(packet.envelope.request_id),
                    deadline: REQUEST_DEADLINE,
                    with_output: false,
                })
            },
            Some(error) => {
                &&& next == WorkerState::Stopped
                &&& action == WorkerAction::<F>::Stop(Err(WorkerError::InvalidRequest(error)))
            },
            None => {
                &&& next == WorkerState::Rendering(packet.envelope.request_id)
                &&& action matches WorkerAction::Render(job) && job.request.asked_by(
                    packet.envelope,
                ) && job.input == packet.fds@[0]
            },
        },
        WorkerEvent::RenderFailed => {
            &&& next == WorkerState::Replying(false)
            &&& action == (WorkerAction::<F>::Send {
                envelope: failure_reply(state->Rendering_0),
                deadline: REQUEST_DEADLINE,
                with_output: false,
            })
        },
        WorkerEvent::Rendered(Err(error)) => {
            &&& next == WorkerState::Stopped
            &&& action == WorkerAction::<F>::Stop(Err(WorkerError::Pixels(error)))
        },
        WorkerEvent::Rendered(Ok(image)) => {
            &&& next == WorkerState::Sealing(success_reply(state->Rendering_0, image))
            &&& action == WorkerAction::<F>::Seal(image.pixels)
        },
        WorkerEvent::Sealed(Ok(_)) => {
            &&& next == WorkerState::Replying(true)
            &&& action == (WorkerAction::<F>::Send {
                envelope: state->Sealing_0,
                deadline: REQUEST_DEADLINE,
                with_output: true,
            })
        },
        WorkerEvent::Sealed(Err(error)) => {
            &&& next == WorkerState::Stopped
            &&& action == WorkerAction::<F>::Stop(Err(WorkerError::Seal(error)))
        },
    }
}

/// One step of a worker: it serves requests until its peer goes away. A wait that ends
/// without a request goes on; a request for an operation that is not known, and a picture that
/// cannot be rendered, are answered; anything that breaks the protocol ends the worker.
pub fn run_thumbnail_worker<F>(state: WorkerState, event: WorkerEvent<F>) -> (step: (
    WorkerState,
    WorkerAction<F>,
))
    requires
        awaits(state, event),
    ensures
        worker_may(state, event, step.0, step.1),
{
    match event {
        WorkerEvent::Sent(Ok(_)) => (
            WorkerState::Waiting,
            WorkerAction::Receive { deadline: REQUEST_DEADLINE },
        ),
        WorkerEvent::Sent(Err(error)) => {
            let cause = match state {
                WorkerState::Announcing => WorkerError::Announce(error),
                WorkerState::Replying(true) => WorkerError::SendReply(error),
                _ => WorkerError::SendFailure(error),
            };
            (WorkerState::Stopped, WorkerAction::Stop(Err(cause)))
        },
        WorkerEvent::Received(Err(error)) => {
            if error == ProtocolError::PeerClosed {
                (WorkerState::Stopped, WorkerAction::Stop(Ok(())))
            } else if error == ProtocolError::Timeout {
                (WorkerState::Waiting, WorkerAction::Receive { deadline: REQUEST_DEADLINE })
            } else {
                (WorkerState::Stopped, WorkerAction::Stop(Err(WorkerError::InvalidRequest(error))))
            }
        },
        WorkerEvent::Received(Ok(packet)) => {
            let envelope = packet.envelope;
            match validate_snapshot_request(packet) {
                Ok(job) => (
                    WorkerState::Rendering(job.request.request_id),
                    WorkerAction::Render(job),
                ),
                Err(error) => {
                    if error == ProtocolError::InvalidMetadata && has_request_fields(&envelope) {
                        (
                            WorkerState::Replying(false),
                            WorkerAction::Send {
                                envelope: unsupported_reply(envelope.request_id),
                                deadline: REQUEST_DEADLINE,
                                with_output: false,
                            },
                        )
                    } else {
                        (
                            WorkerState::Stopped,
                            WorkerAction::Stop(Err(WorkerError::InvalidRequest(error))),
                        )
                    }
                },
            }
        },
        WorkerEvent::RenderFailed => {
            let request_id: u64 = match state {
                WorkerState::Rendering(request_id) => request_id,
                _ => 0,
            };
            (
                WorkerState::Replying(false),
                WorkerAction::Send {
                    envelope: WireEnvelope::reply(
                        request_id,
                        Status::DecodeFailed,
                        Representation::Png,
                        0,
                        0,
                        0,
                        0,
                    ),
                    deadline: REQUEST_DEADLINE,
                    with_output: false,
                },
            )
        },
        WorkerEvent::Rendered(Err(error)) => (
            WorkerState::Stopped,
            WorkerAction::Stop(Err(WorkerError::Pixels(error))),
        ),
        WorkerEvent::Rendered(Ok(image)) => {
            let request_id: u64 = match state {
                WorkerState::Rendering(request_id) => request_id,
                _ => 0,
            };
            let reply = WireEnvelope::reply(
                request_id,
                Status::Success,
                Representation::Rgba8,
                image.width,
                image.height,
                image.stride,
                image.pixels.len() as u64,
            );
            (WorkerState::Sealing(reply), WorkerAction::Seal(image.pixels))
        },
        WorkerEvent::Sealed(Ok(_)) => {
            let envelope = match state {
                WorkerState::Sealing(reply) => reply,
                _ => WireEnvelope::ready(),
            };
            (
                WorkerState::Replying(true),
                WorkerAction::Send { envelope, deadline: REQUEST_DEADLINE, with_output: true },
            )
        },
        WorkerEvent::Sealed(Err(error)) => (
            WorkerState::Stopped,
            WorkerAction::Stop(Err(WorkerError::Seal(error))),
        ),
    }
}

/// A worker that renders a picture within the largest edge sends a reply that the parent
/// accepts, whatever the picture.
pub proof fn rendered_reply_is_acceptable(
    request_id: u64,
    image: RgbaImage,
    shape: PictureShape,
    source: Seq<u8>,
)
    requires
        shape.error(source.len()) is None,
        shape.width <= MAX_EDGE,
        shape.height <= MAX_EDGE,
        image.packs(shape, source),
    ensures
        metadata_error(success_reply(request_id, image)) is None,
{
    crate::pixels::packed_length(source, shape, shape.height as nat);
    assert(0 < 4 * shape.width * shape.height <= 4 * 256 * 256) by (nonlinear_arith)
        requires
            0 < shape.width <= 256,
            0 < shape.height <= 256,
    ;
}

/// A request that a parent begins makes the worker render just what was asked for.
pub proof fn begun_request_reaches_the_worker<F>(
    session: SessionView,
    operation: Operation,
    requested_edge: u16,
    packet: Packet<F>,
    next: WorkerState,
    action: WorkerAction<F>,
)
    requires
        session.wf(),
        session.begin_error(session.generation, requested_edge) is None,
        packet.envelope == WireEnvelope::spec_request(
            session.next_request_id,
            operation.code(),
            requested_edge,
        ),
        packet.fds@.len() == 1,
        worker_may(WorkerState::Waiting, WorkerEvent::Received(Ok(packet)), next, action),
    ensures
        next == WorkerState::Rendering(session.next_request_id),
        action matches WorkerAction::Render(job) && job.request.request_id
            == session.next_request_id && job.request.operation == operation
            && job.request.requested_edge == requested_edge && job.input == packet.fds@[0],
{
    begun_request_is_accepted(session, operation, requested_edge, packet.fds);
}

/// A picture that a worker rendered reaches the parent: a reply with its packed pixels in a
/// fully sealed regular file is accepted, with the picture's size, rows and length.
pub proof fn rendered_picture_reaches_the_parent<F>(
    session: SessionView,
    image: RgbaImage,
    shape: PictureShape,
    source: Seq<u8>,
    packet: Packet<F>,
)
    requires
        session.wf(),
        session.active_request is Some,
        shape.error(source.len()) is None,
        shape.width <= MAX_EDGE,
        shape.height <= MAX_EDGE,
        image.packs(shape, source),
        packet.envelope == success_reply(session.active_request->0, image),
        packet.fds@.len() == 1,
        packet.fds@[0].status matches Ok(status) && status.mode & FILE_TYPE_MASK == REGULAR_FILE
            && status.size == image.pixels@.len(),
        packet.fds@[0].seals matches Ok(seals) && seals & REQUIRED_OUTPUT_SEALS
            == REQUIRED_OUTPUT_SEALS,
    ensures
        session.accept_error(packet) is None,
        metadata_of(packet.envelope) == Some(
            OutputMetadata {
                representation: Representation::Rgba8,
                width: shape.width as u16,
                height: shape.height as u16,
                stride: (4 * shape.width) as u32,
                output_len: (4 * shape.width * shape.height) as u64,
            },
        ),
{
    rendered_reply_is_acceptable(session.active_request->0, image, shape, source);
    crate::pixels::packed_length(source, shape, shape.height as nat);
    assert(0 < 4 * shape.width * shape.height <= 4 * 256 * 256) by (nonlinear_arith)
        requires
            0 < shape.width <= 256,
            0 < shape.height <= 256,
    ;
}

/// A picture that could not be rendered is a job failure to the parent, not a breach of the
/// protocol.
pub proof fn render_failure_reaches_the_parent<F>(session: SessionView, packet: Packet<F>)
    requires
        session.wf(),
        session.active_request is Some,
        packet.envelope == failure_reply(session.active_request->0),
        packet.fds@.len() == 0,
    ensures
        session.accept_error(packet) is None,
        packet.envelope.status == Status::DecodeFailed.code(),
{
}

/// A request that is sound but for its operation is answered, and the worker then waits for
/// the next one.
pub proof fn unknown_operation_leaves_worker_serving<F>(
    packet: Packet<F>,
    replying: WorkerState,
    reply: WorkerAction<F>,
    waiting: WorkerState,
    next: WorkerAction<F>,
)
    requires
        packet.envelope.message_type == MessageType::Request,
        packet.fds@.len() == 1,
        !(1 <= packet.envelope.operation <= 2),
        request_fields_ok(packet.envelope),
        worker_may(WorkerState::Waiting, WorkerEvent::Received(Ok(packet)), replying, reply),
        worker_may(replying, WorkerEvent::<F>::Sent(Ok(())), waiting, next),
    ensures
        awaits(replying, WorkerEvent::<F>::Sent(Ok(()))),
        reply matches WorkerAction::Send { envelope, with_output, .. } && envelope
            == unsupported_answer(packet.envelope.request_id) && !with_output,
        waiting == WorkerState::Waiting,
        next is Receive,
{
}

/// The answer to an operation that is not known is a job failure to the parent, which can go
/// on with its next request.
pub proof fn unsupported_answer_reaches_the_parent<F>(
    session: SessionView,
    packet: Packet<F>,
    job: JobReply<F>,
    requested_edge: u16,
)
    requires
        session.wf(),
        session.active_request is Some,
        session.next_request_id < u64::MAX,
        packet.envelope == unsupported_answer(session.active_request->0),
        packet.fds@.len() == 0,
        job.answers(packet),
        1 <= requested_edge <= MAX_EDGE,
    ensures
        session.accept_error(packet) is None,
        job == JobReply::<F>::JobFailure(Status::UnsupportedOperation),
        session.answered().begin_error(session.generation, requested_edge) is None,
{
    job_failure_leaves_session_usable(session, packet, requested_edge);
}

/// A picture that cannot be rendered leaves the worker serving: once its reply is out, it
/// waits for the next request.
pub proof fn content_failure_leaves_worker_serving<F>(
    request_id: u64,
    replying: WorkerState,
    reply: WorkerAction<F>,
    waiting: WorkerState,
    next: WorkerAction<F>,
)
    requires
        worker_may(
            WorkerState::Rendering(request_id),
            WorkerEvent::<F>::RenderFailed,
            replying,
            reply,
        ),
        worker_may(replying, WorkerEvent::<F>::Sent(Ok(())), waiting, next),
    ensures
        reply matches WorkerAction::Send { envelope, with_output, .. } && envelope
            == failure_reply(request_id) && !with_output,
        waiting == WorkerState::Waiting,
        next is Receive,
{
}

/// What a one-shot helper is asked to render.
#[derive(Clone, Copy, Debug, PartialEq, Eq, Structural)]
pub enum HelperJob {
    ThumbnailImage(i32),
    ThumbnailRaw(i32),
    ThumbnailPdf(i32),
    ThumbnailVideo(i32),
    PreviewImage(i32),
    PreviewPdf(i32),
    PreviewMedia(MediaPreviewBackend),
}

/// A one-shot job with the paths of its input and output.
#[derive(Debug, PartialEq, Eq)]
pub struct HelperPlan {
    pub input: String,
    pub output: String,
    pub job: HelperJob,
}

/// Why the arguments of a helper make no job.
#[derive(Clone, Copy, Debug, PartialEq, Eq, Structural)]
pub enum HelperError {
    Arguments,
    SizeOrPage,
    MediaBackend,
    UnknownOperation,
}

impl HelperError {
    /// The error in words.
    pub fn message(self) -> (text: &'static str)
        ensures
            text@ == match self {
                HelperError::Arguments => "Invalid preview helper arguments"@,
                HelperError::SizeOrPage => "Invalid preview helper size or page"@,
                HelperError::MediaBackend => "Invalid media preview backend"@,
                HelperError::UnknownOperation => "Unknown preview helper operation"@,
            },
    {
        match self {
            HelperError::Arguments => "Invalid preview helper arguments",
            HelperError::SizeOrPage => "Invalid preview helper size or page",
            HelperError::MediaBackend => "Invalid media preview backend",
            HelperError::UnknownOperation => "Unknown preview helper operation",
        }
    }
}

/// A thumbnail edge within its bounds.
pub open spec fn clamped_edge(value: int) -> int {
    if value < MIN_THUMBNAIL_EDGE {
        MIN_THUMBNAIL_EDGE as int
    } else if value > MAX_THUMBNAIL_EDGE {
        MAX_THUMBNAIL_EDGE as int
    } else {
        value
    }
}

/// Brings a requested thumbnail edge within its bounds.
pub fn clamp_edge(value: i32) -> (edge: i32)
    ensures
        edge == clamped_edge(value as int),
{
    if value < MIN_THUMBNAIL_EDGE {
        MIN_THUMBNAIL_EDGE
    } else if value > MAX_THUMBNAIL_EDGE {
        MAX_THUMBNAIL_EDGE
    } else {
        value
    }
}

/// The job that an operation's name stands for, where it is one.
pub open spec fn job_of(operation: Seq<char>, value: i32, backend: MediaPreviewBackend) -> Option<
    HelperJob,
> {
    let edge = clamped_edge(value as int) as i32;
    if operation == "thumbnail-image"@ {
        Some(HelperJob::ThumbnailImage(edge))
    } else if operation == "thumbnail-raw"@ {
        Some(HelperJob::ThumbnailRaw(edge))
    } else if operation == "thumbnail-pdf"@ {
        Some(HelperJob::ThumbnailPdf(edge))
    } else if operation == "thumbnail-video"@ {
        Some(HelperJob::ThumbnailVideo(edge))
    } else if operation == "preview-image"@ {
        Some(HelperJob::PreviewImage(PREVIEW_EDGE))
    } else if operation == "preview-pdf"@ {
        Some(HelperJob::PreviewPdf(value))
    } else if operation == "preview-media"@ {
        Some(HelperJob::PreviewMedia(backend))
    } else {
        None
    }
}

fn same_text(left: &String, right: &str) -> (same: bool)
    ensures
        same == (left@ == right@),
{
    *left == right.to_owned()
}

/// Reads the arguments of a one-shot helper: operation, input, output, size or page, and
/// the media backend, whose name is looked up by the caller.
pub fn run(arguments: &[String], media_backend: Option<MediaPreviewBackend>) -> (plan: Result<
    HelperPlan,
    HelperError,
>)
    ensures
        arguments@.len() != 5 ==> plan == Result::<HelperPlan, HelperError>::Err(
            HelperError::Arguments,
        ),
        arguments@.len() == 5 ==> match parsed_i32(arguments@[3]@) {
            None => plan == Result::<HelperPlan, HelperError>::Err(HelperError::SizeOrPage),
            Some(value) => match media_backend {
                None => plan == Result::<HelperPlan, HelperError>::Err(HelperError::MediaBackend),
                Some(backend) => match job_of(arguments@[0]@, value, backend) {
                    None => plan == Result::<HelperPlan, HelperError>::Err(
                        HelperError::UnknownOperation,
                    ),
                    Some(job) => plan matches Ok(made) && made.job == job && made.input@
                        == arguments@[1]@ && made.output@ == arguments@[2]@,
                },
            },
        },
{
    if arguments.len() != 5 {
        return Err(HelperError::Arguments);
    }
    let value: i32 = match parse_i32(arguments[3].as_str()) {
        Some(value) => value,
        None => return Err(HelperError::SizeOrPage),
    };
    let backend = match media_backend {
        Some(backend) => backend,
        None => return Err(HelperError::MediaBackend),
    };
    let operation = &arguments[0];
    let edge: i32 = clamp_edge(value);
    let job = if same_text(operation, "thumbnail-image") {
        HelperJob::ThumbnailImage(edge)
    } else if same_text(operation, "thumbnail-raw") {
        HelperJob::ThumbnailRaw(edge)
    } else if same_text(operation, "thumbnail-pdf") {
        HelperJob::ThumbnailPdf(edge)
    } else if same_text(operation, "thumbnail-video") {
        HelperJob::ThumbnailVideo(edge)
    } else if same_text(operation, "preview-image") {
        HelperJob::PreviewImage(PREVIEW_EDGE)
    } else if same_text(operation, "preview-pdf") {
        HelperJob::PreviewPdf(value)
    } else if same_text(operation, "preview-media") {
        HelperJob::PreviewMedia(backend)
    } else {
        return Err(HelperError::UnknownOperation);
    };
    Ok(HelperPlan { input: arguments[1].clone(), output: arguments[2].clone(), job })
}

/// The page of a document to render for a requested one; a document without pages has
/// none.
pub fn pdf_page_index(requested: i32, pages: i32) -> (index: Option<i32>)
    ensures
        index == if pages <= 0 {
            None
        } else if requested < 0 {
            Some(0i32)
        } else if requested >= pages {
            Some((pages - 1) as i32)
        } else {
            Some(requested)
        },
{
    if pages <= 0 {
        None
    } else if requested < 0 {
        Some(0)
    } else if requested >= pages {
        Some(pages - 1)
    } else {
        Some(requested)
    }
}

/// What is noted beside a rendered page: its index and the number of pages.
pub fn page_note(page: i32, pages: i32) -> (note: String)
    ensures
        note@ == decimal_int(page as int) + seq![' '] + decimal_int(pages as int),
{
    let mut note = String::new();
    append_signed(&mut note, page as i64);
    proof {
        reveal_strlit(" ");
        assert(" "@ =~= seq![' ']);
    }
    note.append(" ");
    append_signed(&mut note, pages as i64);
    assert(note@ =~= decimal_int(page as int) + seq![' '] + decimal_int(pages as int));
    note
}

/// A program or library that can render camera files.
#[derive(Clone, Copy, Debug, PartialEq, Eq, Structural)]
pub enum RawRenderer {
    Pixbuf,
    ImageMagick,
    Dcraw,
}

/// The order of renderers for a preview: the best picture first.
pub open spec fn preview_renderers() -> Seq<RawRenderer> {
    seq![RawRenderer::Pixbuf, RawRenderer::ImageMagick, RawRenderer::Dcraw]
}

/// The order of renderers for a thumbnail: the embedded picture first, which needs no
/// development of the raw data.
pub open spec fn thumbnail_renderers() -> Seq<RawRenderer> {
    seq![RawRenderer::Dcraw, RawRenderer::Pixbuf, RawRenderer::ImageMagick]
}

/// Whether trying `order` may have gone as `trace` says, ending in `end` with `outcome`: the
/// renderers were tried in order, once each, up to the first that succeeded; if none did,
/// the error is that of the last one.
pub open spec fn renderers_ran<S, R: Fn(S, &RawRenderer) -> (S, Result<Vec<u8>, String>)>(
    order: Seq<RawRenderer>,
    render: R,
    start: S,
    trace: Seq<(S, Result<Vec<u8>, String>)>,
    end: S,
    outcome: Result<Vec<u8>, String>,
) -> bool {
    &&& attempted_in_order(render, order, start, trace)
    &&& trace.len() > 0
    &&& end == state_after(start, trace)
    &&& forall|k: int| 0 <= k < trace.len() - 1 ==> (#[trigger] trace[k]).1 is Err
    &&& outcome == trace.last().1
    &&& outcome is Err ==> trace.len() == order.len()
}

fn render_in_order<S, R: Fn(S, &RawRenderer) -> (S, Result<Vec<u8>, String>)>(
    order: [RawRenderer; 3],
    start: S,
    render: R,
) -> (end: (S, Result<Vec<u8>, String>))
    requires
        forall|state: S, renderer: &RawRenderer| call_requires(render, (state, renderer)),
    ensures
        exists|trace: Seq<(S, Result<Vec<u8>, String>)>| #[trigger]
            renderers_ran(order@, render, start, trace, end.0, end.1),
{
    let ghost mut trace: Seq<(S, Result<Vec<u8>, String>)> = Seq::empty();
    let first = render(start, &order[0]);
    proof {
        lemma_one_more(render, order@, start, trace, first);
        trace = trace.push(first);
    }
    if first.1.is_ok() {
        assert(renderers_ran(order@, render, start, trace, first.0, first.1));
        return first;
    }
    let second = render(first.0, &order[1]);
    proof {
        lemma_one_more(render, order@, start, trace, second);
        trace = trace.push(second);
    }
    if second.1.is_ok() {
        assert(renderers_ran(order@, render, start, trace, second.0, second.1));
        return second;
    }
    let third = render(second.0, &order[2]);
    proof {
        lemma_one_more(render, order@, start, trace, third);
        trace = trace.push(third);
        assert(renderers_ran(order@, render, start, trace, third.0, third.1));
    }
    third
}

/// Renders a camera file for a preview. What rendering does outside is threaded through as a
/// state, `start` first; so it is in the functions that follow.
pub fn render_raw<S, R: Fn(S, &RawRenderer) -> (S, Result<Vec<u8>, String>)>(
    start: S,
    render: R,
) -> (end: (S, Result<Vec<u8>, String>))
    requires
        forall|state: S, renderer: &RawRenderer| call_requires(render, (state, renderer)),
    ensures
        exists|trace: Seq<(S, Result<Vec<u8>, String>)>| #[trigger]
            renderers_ran(preview_renderers(), render, start, trace, end.0, end.1),
{
    let order: [RawRenderer; 3] = [
        RawRenderer::Pixbuf,
        RawRenderer::ImageMagick,
        RawRenderer::Dcraw,
    ];
    assert(order@ =~= preview_renderers());
    render_in_order(order, start, render)
}

/// Renders a camera file for a thumbnail.
pub fn render_raw_thumbnail<S, R: Fn(S, &RawRenderer) -> (S, Result<Vec<u8>, String>)>(
    start: S,
    render: R,
) -> (end: (S, Result<Vec<u8>, String>))
    requires
        forall|state: S, renderer: &RawRenderer| call_requires(render, (state, renderer)),
    ensures
        exists|trace: Seq<(S, Result<Vec<u8>, String>)>| #[trigger]
            renderers_ran(thumbnail_renderers(), render, start, trace, end.0, end.1),
{
    let order: [RawRenderer; 3] = [
        RawRenderer::Dcraw,
        RawRenderer::Pixbuf,
        RawRenderer::ImageMagick,
    ];
    assert(order@ =~= thumbnail_renderers());
    render_in_order(order, start, render)
}

/// The output of a run that tells whether the program succeeded and what it wrote, if it could
/// be run: none unless it succeeded and wrote something.
pub open spec fn usable_output(run: Option<(bool, Vec<u8>)>) -> Option<Vec<u8>> {
    match run {
        Some((true, output)) if output@.len() > 0 => Some(output),
        _ => None,
    }
}

fn take_usable(run: Option<(bool, Vec<u8>)>) -> (output: Option<Vec<u8>>)
    ensures
        output == usable_output(run),
{
    match run {
        Some((success, stdout)) => accepted_output(success, stdout),
        None => None,
    }
}

/// Whether running commands may have gone as `trace` says, ending in `end` with `output`: they
/// were run in order, once each, up to the first that gave an output.
pub open spec fn commands_ran<S, R: Fn(S, &CommandLine) -> (S, Option<(bool, Vec<u8>)>)>(
    run: R,
    commands: Seq<CommandLine>,
    start: S,
    trace: Seq<(S, Option<(bool, Vec<u8>)>)>,
    end: S,
    output: Result<Vec<u8>, String>,
) -> bool {
    &&& attempted_in_order(run, commands, start, trace)
    &&& end == state_after(start, trace)
    &&& forall|k: int|
        0 <= k < trace.len() - 1 ==> usable_output((#[trigger] trace[k]).1) is None
    &&& match output {
        Ok(found) => trace.len() > 0 && usable_output(trace.last().1) == Some(found),
        Err(error) => {
            &&& error@ == "No RAW image renderer succeeded"@
            &&& trace.len() == commands.len()
            &&& trace.len() > 0 ==> usable_output(trace.last().1) is None
        },
    }
}

/// Runs commands in order, once each, until one gives an output. `run` tells whether a command
/// succeeded and what it wrote, if it could be run.
pub fn render_imagemagick<S, R: Fn(S, &CommandLine) -> (S, Option<(bool, Vec<u8>)>)>(
    commands: &[CommandLine],
    start: S,
    run: R,
) -> (end: (S, Result<Vec<u8>, String>))
    requires
        forall|state: S, command: &CommandLine| call_requires(run, (state, command)),
    ensures
        exists|trace: Seq<(S, Option<(bool, Vec<u8>)>)>| #[trigger]
            commands_ran(run, commands@, start, trace, end.0, end.1),
{
    let mut state: S = start;
    let mut last: Option<Vec<u8>> = None;
    let mut tried: usize = 0;
    let ghost mut trace: Seq<(S, Option<(bool, Vec<u8>)>)> = Seq::empty();
    loop
        invariant
            tried <= commands.len(),
            trace.len() == tried,
            forall|state: S, command: &CommandLine| call_requires(run, (state, command)),
            attempted_in_order(run, commands@, start, trace),
            state == state_after(start, trace),
            forall|k: int|
                0 <= k < trace.len() - 1 ==> usable_output((#[trigger] trace[k]).1) is None,
            tried == 0 ==> last is None,
            tried > 0 ==> last == usable_output(trace.last().1),
        decreases commands.len() - tried,
    {
        match fallback_step(commands.len(), tried, last) {
            FallbackStep::Done(output) => {
                let end: (S, Result<Vec<u8>, String>) = (state, Ok(output));
                assert(commands_ran(run, commands@, start, trace, end.0, end.1));
                return end;
            },
            FallbackStep::Failed => {
                let end: (S, Result<Vec<u8>, String>) = (
                    state,
                    Err("No RAW image renderer succeeded".to_owned()),
                );
                assert(commands_ran(run, commands@, start, trace, end.0, end.1));
                return end;
            },
            FallbackStep::Try(index) => {
                let (next, outcome) = run(state, &commands[index]);
                proof {
                    let before = trace;
                    lemma_one_more(run, commands@, start, trace, (next, outcome));
                    trace = trace.push((next, outcome));
                    assert forall|k: int| 0 <= k < trace.len() - 1 implies usable_output(
                        (#[trigger] trace[k]).1,
                    ) is None by {
                        if k < before.len() - 1 {
                            assert(before[k] == trace[k]);
                        }
                    }
                }
                state = next;
                last = take_usable(outcome);
                tried = index + 1;
            },
        }
    }
}

/// Whether rendering an embedded preview may have gone so: nothing was scaled and `simple` was
/// asked, since the first program gave nothing; or what it gave was scaled; or that failed, and
/// `simple` was asked then. `middle` is what scaling left and gave.
pub open spec fn dcraw_ran<
    S,
    C: Fn(S, &Vec<u8>) -> (S, Result<Vec<u8>, String>),
    T: Fn(S) -> (S, Result<Vec<u8>, String>),
>(
    classic: Option<(bool, Vec<u8>)>,
    start: S,
    scale: C,
    simple: T,
    middle: (S, Result<Vec<u8>, String>),
    end: (S, Result<Vec<u8>, String>),
) -> bool {
    match usable_output(classic) {
        None => call_ensures(simple, (start,), end),
        Some(data) => {
            &&& call_ensures(scale, (start, &data), middle)
            &&& if middle.1 is Ok {
                end == middle
            } else {
                call_ensures(simple, (middle.0,), end)
            }
        },
    }
}

/// Renders the preview embedded in a camera file: what the first program wrote, if it
/// succeeded, wrote something, and that can be scaled; or else what `simple` gives.
pub fn render_dcraw<
    S,
    C: Fn(S, &Vec<u8>) -> (S, Result<Vec<u8>, String>),
    T: Fn(S) -> (S, Result<Vec<u8>, String>),
>(classic: Option<(bool, Vec<u8>)>, start: S, scale: C, simple: T) -> (end: (
    S,
    Result<Vec<u8>, String>,
))
    requires
        forall|state: S, data: &Vec<u8>| call_requires(scale, (state, data)),
        forall|state: S| call_requires(simple, (state,)),
    ensures
        exists|middle: (S, Result<Vec<u8>, String>)| #[trigger]
            dcraw_ran(classic, start, scale, simple, middle, end),
{
    let ghost given = classic;
    match take_usable(classic) {
        None => {
            let end = simple(start);
            assert(dcraw_ran(given, start, scale, simple, end, end));
            end
        },
        Some(data) => {
            let scaled = scale(start, &data);
            if scaled.1.is_ok() {
                assert(dcraw_ran(given, start, scale, simple, scaled, scaled));
                return scaled;
            }
            let ghost middle = scaled;
            let end = simple(scaled.0);
            assert(dcraw_ran(given, start, scale, simple, middle, end));
            end
        },
    }
}

/// What came of one file next to a camera file: what reading it left and gave, and, if it was
/// scaled, what that left and gave.
pub ghost struct EmbeddedAttempt<S> {
    pub read: (S, Option<Vec<u8>>),
    pub scaled: Option<(S, Result<Vec<u8>, String>)>,
}

impl<S> EmbeddedAttempt<S> {
    /// The state that the attempt left.
    pub open spec fn end(self) -> S {
        match self.scaled {
            Some(scaled) => scaled.0,
            None => self.read.0,
        }
    }

    /// The picture that the attempt gave.
    pub open spec fn picture(self) -> Option<Vec<u8>> {
        match self.scaled {
            Some((_, Ok(png))) => Some(png),
            _ => None,
        }
    }

    /// Whether the attempt at `place` may have gone so: the file was read once, and scaled once
    /// if it could be read and holds something.
    pub open spec fn may_follow<
        R: Fn(S, usize) -> (S, Option<Vec<u8>>),
        C: Fn(S, &Vec<u8>) -> (S, Result<Vec<u8>, String>),
    >(self, read: R, scale: C, before: S, place: usize) -> bool {
        &&& call_ensures(read, (before, place), self.read)
        &&& match self.read.1 {
            Some(data) if data@.len() > 0 => self.scaled matches Some(scaled) && call_ensures(
                scale,
                (self.read.0, &data),
                scaled,
            ),
            _ => self.scaled is None,
        }
    }
}

/// The state before the attempt at `place`.
pub open spec fn embedded_before<S>(start: S, trace: Seq<EmbeddedAttempt<S>>, place: int) -> S {
    if place == 0 {
        start
    } else {
        trace[place - 1].end()
    }
}

/// Whether trying `count` files may have gone as `trace` says, ending in `end` with `png`: they
/// were tried in order, once each, up to the first that gave a picture.
pub open spec fn files_tried<
    S,
    R: Fn(S, usize) -> (S, Option<Vec<u8>>),
    C: Fn(S, &Vec<u8>) -> (S, Result<Vec<u8>, String>),
>(
    count: usize,
    start: S,
    read: R,
    scale: C,
    trace: Seq<EmbeddedAttempt<S>>,
    end: S,
    png: Result<Vec<u8>, String>,
) -> bool {
    &&& trace.len() <= count
    &&& forall|k: int|
        0 <= k < trace.len() ==> (#[trigger] trace[k]).may_follow(
            read,
            scale,
            embedded_before(start, trace, k),
            k as usize,
        )
    &&& end == embedded_before(start, trace, trace.len() as int)
    &&& forall|k: int| 0 <= k < trace.len() - 1 ==> (#[trigger] trace[k]).picture() is None
    &&& match png {
        Ok(found) => trace.len() > 0 && trace.last().picture() == Some(found),
        Err(error) => {
            &&& error@ == "simple_dcraw produced no thumbnail"@
            &&& trace.len() == count
            &&& trace.len() > 0 ==> trace.last().picture() is None
        },
    }
}

/// Renders the preview that was written next to a camera file: the first of `count` files
/// that can be read, holds something, and can be scaled.
pub fn render_simple_dcraw<
    S,
    R: Fn(S, usize) -> (S, Option<Vec<u8>>),
    C: Fn(S, &Vec<u8>) -> (S, Result<Vec<u8>, String>),
>(count: usize, start: S, read: R, scale: C) -> (end: (S, Result<Vec<u8>, String>))
    requires
        forall|state: S, place: usize| call_requires(read, (state, place)),
        forall|state: S, data: &Vec<u8>| call_requires(scale, (state, data)),
    ensures
        exists|trace: Seq<EmbeddedAttempt<S>>| #[trigger]
            files_tried(count, start, read, scale, trace, end.0, end.1),
{
    let mut state: S = start;
    let mut last: Option<Vec<u8>> = None;
    let mut tried: usize = 0;
    let ghost mut trace: Seq<EmbeddedAttempt<S>> = Seq::empty();
    loop
        invariant
            tried <= count,
            trace.len() == tried,
            forall|state: S, place: usize| call_requires(read, (state, place)),
            forall|state: S, data: &Vec<u8>| call_requires(scale, (state, data)),
            forall|k: int|
                0 <= k < trace.len() ==> (#[trigger] trace[k]).may_follow(
                    read,
                    scale,
                    embedded_before(start, trace, k),
                    k as usize,
                ),
            state == embedded_before(start, trace, trace.len() as int),
            forall|k: int| 0 <= k < trace.len() - 1 ==> (#[trigger] trace[k]).picture() is None,
            tried == 0 ==> last is None,
            tried > 0 ==> last == trace.last().picture(),
        decreases count - tried,
    {
        match fallback_step(count, tried, last) {
            FallbackStep::Done(png) => {
                let end: (S, Result<Vec<u8>, String>) = (state, Ok(png));
                assert(files_tried(count, start, read, scale, trace, end.0, end.1));
                return end;
            },
            FallbackStep::Failed => {
                let end: (S, Result<Vec<u8>, String>) = (
                    state,
                    Err("simple_dcraw produced no thumbnail".to_owned()),
                );
                assert(files_tried(count, start, read, scale, trace, end.0, end.1));
                return end;
            },
            FallbackStep::Try(place) => {
                let (after_read, found) = read(state, place);
                let ghost read_end = (after_read, found);
                let (after, png, ghost_scaled) = match found {
                    Some(data) => {
                        if data.len() > 0 {
                            let (after, scaled) = scale(after_read, &data);
                            let ghost end = Some((after, scaled));
                            let png: Option<Vec<u8>> = match scaled {
                                Ok(png) => Some(png),
                                Err(_) => None,
                            };
                            (after, png, Ghost(end))
                        } else {
                            (after_read, None, Ghost(None))
                        }
                    },
                    None => (after_read, None, Ghost(None)),
                };
                proof {
                    let attempt = EmbeddedAttempt { read: read_end, scaled: ghost_scaled@ };
                    let before = trace;
                    trace = trace.push(attempt);
                    assert(attempt.may_follow(
                        read,
                        scale,
                        embedded_before(start, before, before.len() as int),
                        place,
                    ));
                    assert forall|k: int| 0 <= k < trace.len() implies (
                    #[trigger] trace[k]).may_follow(
                        read,
                        scale,
                        embedded_before(start, trace, k),
                        k as usize,
                    ) by {
                        assert(embedded_before(start, trace, k) == embedded_before(
                            start,
                            before,
                            k,
                        ));
                        if k < before.len() {
                            assert(before[k] == trace[k]);
                        }
                    }
                    assert forall|k: int| 0 <= k < trace.len() - 1 implies (
                    #[trigger] trace[k]).picture() is None by {
                        assert(before[k] == trace[k]);
                    }
                }
                state = after;
                last = png;
                tried = place + 1;
            },
        }
    }
}

/// The thumbnail of a video: what the program wrote, if it succeeded and wrote anything.
pub fn render_media(success: bool, stdout: Vec<u8>) -> (thumbnail: Result<Vec<u8>, String>)
    ensures
        match thumbnail {
            Ok(output) => success && output == stdout && stdout@.len() > 0,
            Err(error) => !(success && stdout@.len() > 0) && error@
                == "Unable to render media thumbnail"@,
        },
{
    match accepted_output(success, stdout) {
        Some(output) => Ok(output),
        None => Err("Unable to render media thumbnail".to_owned()),
    }
}

/// What a worker renders is what it was asked for: exactly a sound request, with a known operation
/// and its one descriptor, makes it render, and it then renders that descriptor under the number,
/// operation and edge of the request.
pub proof fn workers_render_what_is_asked<F>(
    packet: Packet<F>,
    next: WorkerState,
    action: WorkerAction<F>,
)
    requires
        worker_may(WorkerState::Waiting, WorkerEvent::Received(Ok(packet)), next, action),
    ensures
        ({
            let asked = packet.envelope;
            let sound = asked.message_type == MessageType::Request && packet.fds@.len() == 1
                && asked.request_id != 0 && 1 <= asked.requested_edge <= 256 && asked.status == 0
                && asked.representation == 0 && asked.width == 0 && asked.height == 0
                && asked.stride == 0 && asked.output_len == 0;
            let known = asked.operation == 1 || asked.operation == 2;
            &&& sound && known ==> {
                &&& next == WorkerState::Rendering(asked.request_id)
                &&& action matches WorkerAction::Render(job) && job.request.request_id
                    == asked.request_id && job.request.requested_edge == asked.requested_edge
                    && job.request.operation == (if asked.operation == 1 {
                    Operation::ThumbnailPng
                } else {
                    Operation::ThumbnailPdf
                }) && job.input == packet.fds@[0]
            }
            &&& sound && !known ==> {
                &&& next == WorkerState::Replying(false)
                &&& action matches WorkerAction::Send { envelope, with_output, .. } && !with_output
                    && envelope.message_type == MessageType::Reply && envelope.request_id
                    == asked.request_id && envelope.status == 2 && envelope.output_len == 0
            }
            &&& !sound ==> {
                &&& next == WorkerState::Stopped
                &&& action matches WorkerAction::Stop(Err(WorkerError::InvalidRequest(_)))
            }
        }),
{
}

/// A picture that was rendered is sealed as it is, and the reply that announces its shape goes out
/// with the sealed file; the worker then waits for the next request.
pub proof fn rendered_pictures_are_sent<F>(
    request_id: u64,
    image: RgbaImage,
    sealing: WorkerState,
    seal: WorkerAction<F>,
    replying: WorkerState,
    reply: WorkerAction<F>,
    waiting: WorkerState,
    next: WorkerAction<F>,
)
    requires
        image.pixels@.len() <= u64::MAX,
        worker_may(
            WorkerState::Rendering(request_id),
            WorkerEvent::<F>::Rendered(Ok(image)),
            sealing,
            seal,
        ),
        worker_may(sealing, WorkerEvent::<F>::Sealed(Ok(())), replying, reply),
        worker_may(replying, WorkerEvent::<F>::Sent(Ok(())), waiting, next),
    ensures
        seal matches WorkerAction::Seal(bytes) && bytes == image.pixels,
        reply matches WorkerAction::Send { envelope, deadline, with_output } && with_output
            && deadline == 12_000_000_000 && envelope.message_type == MessageType::Reply
            && envelope.request_id == request_id && envelope.status == 0 && envelope.operation == 1
            && envelope.representation == 2 && envelope.width == image.width && envelope.height
            == image.height && envelope.stride == image.stride && envelope.output_len
            == image.pixels@.len(),
        waiting == WorkerState::Waiting,
        next matches WorkerAction::Receive { deadline } && deadline == 12_000_000_000,
{
}

/// A picture that cannot be rendered is answered under its request's number with the failure and
/// without an output.
pub proof fn render_failures_are_answered<F>(
    request_id: u64,
    next: WorkerState,
    action: WorkerAction<F>,
)
    requires
        worker_may(
            WorkerState::Rendering(request_id),
            WorkerEvent::<F>::RenderFailed,
            next,
            action,
        ),
    ensures
        next == WorkerState::Replying(false),
        action matches WorkerAction::Send { envelope, with_output, .. } && !with_output
            && envelope.message_type == MessageType::Reply && envelope.request_id == request_id
            && envelope.status == 1 && envelope.output_len == 0,
{
}

/// A worker ends well only when its peer is gone; silence does not end it, and whatever else fails
/// ends it with that failure.
pub proof fn workers_end_for_a_reason<F>(
    state: WorkerState,
    event: WorkerEvent<F>,
    next: WorkerState,
    action: WorkerAction<F>,
)
    requires
        awaits(state, event),
        worker_may(state, event, next, action),
    ensures
        action matches WorkerAction::Stop(Ok(_)) <==> event matches WorkerEvent::Received(
            Err(ProtocolError::PeerClosed),
        ),
        event matches WorkerEvent::Received(Err(ProtocolError::Timeout)) ==> next
            == WorkerState::Waiting && action is Receive,
        event matches WorkerEvent::Received(Err(error)) ==> error == ProtocolError::PeerClosed
            || error == ProtocolError::Timeout || action == WorkerAction::<F>::Stop(
            Err(WorkerError::InvalidRequest(error)),
        ),
        event matches WorkerEvent::Rendered(Err(error)) ==> action == WorkerAction::<F>::Stop(
            Err(WorkerError::Pixels(error)),
        ),
        event matches WorkerEvent::Sealed(Err(error)) ==> action == WorkerAction::<F>::Stop(
            Err(WorkerError::Seal(error)),
        ),
        event matches WorkerEvent::Sent(Err(error)) ==> action == WorkerAction::<F>::Stop(
            Err(
                match state {
                    WorkerState::Announcing => WorkerError::Announce(error),
                    WorkerState::Replying(true) => WorkerError::SendReply(error),
                    _ => WorkerError::SendFailure(error),
                },
            ),
        ),
        event matches WorkerEvent::Sent(Ok(_)) ==> next == WorkerState::Waiting
            && action is Receive,
        action is Stop <==> next == WorkerState::Stopped,
{
}

/// An edge stays as it is between 16 and 256 pixels, and else becomes the nearer of the two.
pub proof fn edges_are_kept_within_bounds(value: int)
    ensures
        16 <= clamped_edge(value) <= 256,
        16 <= value <= 256 ==> clamped_edge(value) == value,
        value < 16 ==> clamped_edge(value) == 16,
        value > 256 ==> clamped_edge(value) == 256,
{
}

/// Each operation has its own name: thumbnails get the size that was asked for within its bounds,
/// image previews a fixed one, documents the page, and media the backend.
pub proof fn operations_have_names(value: i32, backend: MediaPreviewBackend)
    requires
        16 <= value <= 256,
    ensures
        job_of("thumbnail-image"@, value, backend) == Some(HelperJob::ThumbnailImage(value)),
        job_of("thumbnail-raw"@, value, backend) == Some(HelperJob::ThumbnailRaw(value)),
        job_of("thumbnail-pdf"@, value, backend) == Some(HelperJob::ThumbnailPdf(value)),
        job_of("thumbnail-video"@, value, backend) == Some(HelperJob::ThumbnailVideo(value)),
        job_of("preview-image"@, value, backend) == Some(HelperJob::PreviewImage(1400)),
        job_of("preview-pdf"@, value, backend) == Some(HelperJob::PreviewPdf(value)),
        job_of("preview-media"@, value, backend) == Some(HelperJob::PreviewMedia(backend)),
{
    reveal_strlit("thumbnail-image");
    reveal_strlit("thumbnail-raw");
    reveal_strlit("thumbnail-pdf");
    reveal_strlit("thumbnail-video");
    reveal_strlit("preview-image");
    reveal_strlit("preview-pdf");
    reveal_strlit("preview-media");
    assert("thumbnail-image"@[10] == 'i' && "thumbnail-raw"@[10] == 'r' && "thumbnail-pdf"@[10]
        == 'p' && "thumbnail-video"@[10] == 'v');
    assert("preview-image"@[0] == 'p' && "preview-image"@[8] == 'i');
    assert("preview-pdf"@[0] == 'p' && "preview-pdf"@[8] == 'p');
    assert("preview-media"@[0] == 'p' && "preview-media"@[8] == 'm');
    assert("thumbnail-image"@[0] == 't' && "thumbnail-raw"@[0] == 't' && "thumbnail-pdf"@[0] == 't'
        && "thumbnail-video"@[0] == 't');
}

/// A camera file's preview is tried with the picture library, then ImageMagick, then its embedded
/// picture; a thumbnail with the embedded picture first. The first that succeeds is the result,
/// and only where all three fail is there an error, the last one's.
pub proof fn renderers_are_tried_in_turn<
    S,
    R: Fn(S, &RawRenderer) -> (S, Result<Vec<u8>, String>),
>(
    order: Seq<RawRenderer>,
    render: R,
    start: S,
    trace: Seq<(S, Result<Vec<u8>, String>)>,
    end: S,
    outcome: Result<Vec<u8>, String>,
    k: int,
)
    requires
        renderers_ran(order, render, start, trace, end, outcome),
        order.len() == 3,
    ensures
        preview_renderers().len() == 3 && preview_renderers()[0] == RawRenderer::Pixbuf
            && preview_renderers()[1] == RawRenderer::ImageMagick && preview_renderers()[2]
            == RawRenderer::Dcraw,
        thumbnail_renderers().len() == 3 && thumbnail_renderers()[0] == RawRenderer::Dcraw
            && thumbnail_renderers()[1] == RawRenderer::Pixbuf && thumbnail_renderers()[2]
            == RawRenderer::ImageMagick,
        1 <= trace.len() <= 3,
        0 <= k < trace.len() ==> call_ensures(
            render,
            (
                if k == 0 {
                    start
                } else {
                    trace[k - 1].0
                },
                &order[k],
            ),
            trace[k],
        ),
        0 <= k < trace.len() - 1 ==> trace[k].1 is Err,
        end == trace[trace.len() - 1].0,
        outcome == trace[trace.len() - 1].1,
        outcome is Err ==> trace.len() == 3,
{
    if 0 <= k < trace.len() {
        assert(crate::fallback::attempted(render, order, start, trace, k));
    }
}

/// A run gives an output exactly if the program could be run, succeeded, and wrote something.
pub proof fn when_a_run_is_usable(run: Option<(bool, Vec<u8>)>)
    ensures
        usable_output(run) is Some <==> run is Some && (run->0).0 && (run->0).1@.len() > 0,
        usable_output(run) is Some ==> usable_output(run)->0 == (run->0).1,
{
}

/// Commands are run one after the other, once each, until one succeeds and writes something; that
/// is the result, and if none does all were run.
pub proof fn commands_are_run_in_turn<S, R: Fn(S, &CommandLine) -> (S, Option<(bool, Vec<u8>)>)>(
    run: R,
    commands: Seq<CommandLine>,
    start: S,
    trace: Seq<(S, Option<(bool, Vec<u8>)>)>,
    end: S,
    output: Result<Vec<u8>, String>,
    k: int,
)
    requires
        commands_ran(run, commands, start, trace, end, output),
    ensures
        trace.len() <= commands.len(),
        0 <= k < trace.len() ==> call_ensures(
            run,
            (
                if k == 0 {
                    start
                } else {
                    trace[k - 1].0
                },
                &commands[k],
            ),
            trace[k],
        ),
        0 <= k < trace.len() && (k < trace.len() - 1 || output is Err) ==> !(trace[k].1 is Some
            && (trace[k].1->0).0 && (trace[k].1->0).1@.len() > 0),
        output matches Ok(found) ==> trace.len() > 0 && trace.last().1 is Some
            && (trace.last().1->0).0 && found == (trace.last().1->0).1 && found@.len() > 0,
        output matches Err(error) ==> trace.len() == commands.len() && error@
            == "No RAW image renderer succeeded"@,
        end == if trace.len() == 0 {
            start
        } else {
            trace.last().0
        },
{
    if 0 <= k < trace.len() {
        assert(crate::fallback::attempted(run, commands, start, trace, k));
    }
}

/// The embedded picture of a camera file is what the first program wrote, scaled; the other way is
/// taken exactly where it wrote nothing usable or that could not be scaled.
pub proof fn the_other_way_is_the_last_resort<
    S,
    C: Fn(S, &Vec<u8>) -> (S, Result<Vec<u8>, String>),
    T: Fn(S) -> (S, Result<Vec<u8>, String>),
>(
    classic: Option<(bool, Vec<u8>)>,
    start: S,
    scale: C,
    simple: T,
    middle: (S, Result<Vec<u8>, String>),
    end: (S, Result<Vec<u8>, String>),
)
    requires
        dcraw_ran(classic, start, scale, simple, middle, end),
    ensures
        ({
            let usable = classic is Some && (classic->0).0 && (classic->0).1@.len() > 0;
            &&& !usable ==> call_ensures(simple, (start,), end)
            &&& usable ==> call_ensures(scale, (start, &(classic->0).1), middle)
            &&& usable && middle.1 is Ok ==> end == middle
            &&& usable && middle.1 is Err ==> call_ensures(simple, (middle.0,), end)
        }),
{
}

proof fn lemma_attempt<
    S,
    R: Fn(S, usize) -> (S, Option<Vec<u8>>),
    C: Fn(S, &Vec<u8>) -> (S, Result<Vec<u8>, String>),
>(attempt: EmbeddedAttempt<S>, read: R, scale: C, before: S, place: usize)
    requires
        attempt.may_follow(read, scale, before, place),
    ensures
        call_ensures(read, (before, place), attempt.read),
        attempt.scaled is Some <==> attempt.read.1 is Some && attempt.read.1->0@.len() > 0,
        attempt.scaled is Some ==> call_ensures(
            scale,
            (attempt.read.0, &attempt.read.1->0),
            attempt.scaled->0,
        ),
        attempt.end() == if attempt.scaled is Some {
            (attempt.scaled->0).0
        } else {
            attempt.read.0
        },
        attempt.picture() is None <==> attempt.scaled is None || (attempt.scaled->0).1 is Err,
        attempt.picture() is Some ==> attempt.picture() == Some((attempt.scaled->0).1->Ok_0),
{
}

/// The files next to a camera file are read in turn, once each, and scaled where they hold
/// something; all before the last gave no picture.
pub proof fn files_are_tried_in_turn<
    S,
    R: Fn(S, usize) -> (S, Option<Vec<u8>>),
    C: Fn(S, &Vec<u8>) -> (S, Result<Vec<u8>, String>),
>(
    count: usize,
    start: S,
    read: R,
    scale: C,
    trace: Seq<EmbeddedAttempt<S>>,
    end: S,
    png: Result<Vec<u8>, String>,
    k: int,
)
    requires
        files_tried(count, start, read, scale, trace, end, png),
        0 <= k < trace.len(),
    ensures
        ({
            let before = if k == 0 {
                start
            } else if trace[k - 1].scaled is Some {
                (trace[k - 1].scaled->0).0
            } else {
                trace[k - 1].read.0
            };
            let data = trace[k].read.1;
            &&& call_ensures(read, (before, k as usize), trace[k].read)
            &&& trace[k].scaled is Some <==> data is Some && data->0@.len() > 0
            &&& trace[k].scaled is Some ==> call_ensures(
                scale,
                (trace[k].read.0, &data->0),
                trace[k].scaled->0,
            )
            &&& k < trace.len() - 1 || png is Err ==> trace[k].scaled is None
                || (trace[k].scaled->0).1 is Err
        }),
{
    lemma_attempt(trace[k], read, scale, embedded_before(start, trace, k), k as usize);
    if k > 0 {
        lemma_attempt(
            trace[k - 1],
            read,
            scale,
            embedded_before(start, trace, k - 1),
            (k - 1) as usize,
        );
    }
}

/// The first file that can be scaled is the result, and where none can all were read; the outside
/// is left as the last attempt left it.
pub proof fn the_first_picture_is_taken<
    S,
    R: Fn(S, usize) -> (S, Option<Vec<u8>>),
    C: Fn(S, &Vec<u8>) -> (S, Result<Vec<u8>, String>),
>(
    count: usize,
    start: S,
    read: R,
    scale: C,
    trace: Seq<EmbeddedAttempt<S>>,
    end: S,
    png: Result<Vec<u8>, String>,
)
    requires
        files_tried(count, start, read, scale, trace, end, png),
    ensures
        trace.len() <= count,
        png matches Ok(found) ==> trace.len() > 0 && trace.last().scaled is Some
            && (trace.last().scaled->0).1 is Ok && (trace.last().scaled->0).1->Ok_0 == found,
        png matches Err(error) ==> trace.len() == count && error@
            == "simple_dcraw produced no thumbnail"@,
        end == if trace.len() == 0 {
            start
        } else if trace.last().scaled is Some {
            (trace.last().scaled->0).0
        } else {
            trace.last().read.0
        },
{
    if trace.len() > 0 {
        let last = trace.len() - 1;
        lemma_attempt(trace[last], read, scale, embedded_before(start, trace, last), last as usize);
    }
}

/// A worker takes just what answers its last question, and nothing once it has stopped.
pub proof fn workers_hear_what_they_asked_for<F>(state: WorkerState, event: WorkerEvent<F>)
    ensures
        awaits(state, event) <==> {
            ||| state == WorkerState::Announcing && event is Sent
            ||| state is Replying && event is Sent
            ||| state == WorkerState::Waiting && event is Received
            ||| state is Rendering && (event is RenderFailed || event is Rendered)
            ||| state is Sealing && event is Sealed
        },
{
}

/// A thumbnail of any kind is rendered within its bounds, whatever size was asked for; a preview
/// of a picture or a document does not depend on them. No other name is an operation.
pub proof fn sizes_and_names_are_bounded(
    operation: Seq<char>,
    value: i32,
    backend: MediaPreviewBackend,
)
    ensures
        job_of(operation, value, backend) matches Some(HelperJob::ThumbnailImage(edge)) ==> 16
            <= edge <= 256,
        job_of(operation, value, backend) matches Some(HelperJob::ThumbnailRaw(edge)) ==> 16 <= edge
            <= 256,
        job_of(operation, value, backend) matches Some(HelperJob::ThumbnailPdf(edge)) ==> 16 <= edge
            <= 256,
        job_of(operation, value, backend) matches Some(HelperJob::ThumbnailVideo(edge)) ==> 16
            <= edge <= 256,
        job_of(operation, value, backend) matches Some(HelperJob::PreviewImage(edge)) ==> edge
            == 1400,
        job_of(operation, value, backend) matches Some(HelperJob::PreviewPdf(page)) ==> page
            == value,
        job_of(operation, value, backend) matches Some(HelperJob::PreviewMedia(chosen)) ==> chosen
            == backend,
        job_of(operation, value, backend) is Some <==> operation == "thumbnail-image"@ || operation
            == "thumbnail-raw"@ || operation == "thumbnail-pdf"@ || operation == "thumbnail-video"@
            || operation == "preview-image"@ || operation == "preview-pdf"@ || operation
            == "preview-media"@,
{
}

/// The answers to an operation that is not known, and to a request that could not be rendered,
/// name their request and announce no output.
pub proof fn failures_announce_no_output(request_id: u64)
    ensures
        forall|answer: WireEnvelope|
            #![trigger answer.request_id]
            answer == unsupported_answer(request_id) || answer == failure_reply(request_id) ==> {
                &&& answer.request_id == request_id
                &&& answer.width == 0 && answer.height == 0
                &&& answer.stride == 0 && answer.output_len == 0
            },
{
}

/// The page that is shown is the one asked for, or the nearest that there is.
pub proof fn the_nearest_page_is_shown(requested: i32, pages: i32, index: Option<i32>, other: i32)
    requires
        call_ensures(pdf_page_index, (requested, pages), index),
    ensures
        index is Some <==> pages > 0,
        index is Some ==> 0 <= index->0 < pages,
        0 <= requested < pages ==> index == Some(requested),
        index is Some && 0 <= other < pages && requested < index->0 ==> index->0 <= other,
        index is Some && 0 <= other < pages && requested > index->0 ==> index->0 >= other,
{
}

} // verus!
