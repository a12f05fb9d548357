//! Rendering through persistent workers: one request on a worker, and the way of a
//! thumbnail through the pool.
use vstd::prelude::*;

use crate::helper::{clamp_edge, clamped_edge};
use crate::pool::{
    can_check_in, checkin_worker, checkout_worker, generations, lemma_without, note_spawn_failure,
    note_worker_dead, register_worker, reserve_generation, slots_outlast_retirement, IdleWorker,
    PoolError, PoolState, PoolView, SPAWN_BACKOFF,
};
use crate::protocol::{
    metadata_of, JobReply, OutputMetadata, Packet, ParentSession, SessionView, ValidatedOutput,
    WorkerGeneration, REQUEST_DEADLINE, STARTUP_DEADLINE,
};
use crate::wire::{
    Operation, ProtocolError, ProtocolResult, Representation, Status, WireEnvelope,
};

verus! {

/// Nanoseconds beyond a worker's own deadline that its supervisor may take to answer.
pub const SUPERVISOR_GRACE: u128 = 1_000_000_000;

/// Raw pixels of a thumbnail.
#[derive(Debug, PartialEq, Eq)]
pub struct RawThumbnail {
    pub pixels: Vec<u8>,
    pub width: i32,
    pub height: i32,
    pub stride: usize,
}

/// Why no thumbnail was rendered.
#[derive(Debug, PartialEq, Eq)]
pub enum RenderFailure {
    Cancelled,
    Snapshot(String),
    Pool(PoolError),
    Startup(String),
    StartupTimedOut,
    Retired,
    TimedOut,
    Prepare(ProtocolError),
    Send(ProtocolError),
    Receive(ProtocolError),
    Read(ProtocolError),
    Undecodable,
    InvalidReply(ProtocolError),
}

/// The failure in words, up to the protocol error that caused it.
pub open spec fn failure_text(failure: RenderFailure) -> Seq<char> {
    match failure {
        RenderFailure::Cancelled => "Preview cancelled"@,
        RenderFailure::Snapshot(error) => error@,
        RenderFailure::Pool(error) => match error {
            PoolError::ShutDown => "The thumbnail worker pool is shut down"@,
            PoolError::BackedOff => "Thumbnail worker spawning is temporarily backed off"@,
            PoolError::NoCapacity => "No thumbnail worker capacity is available"@,
            PoolError::GenerationsExhausted => "Unable to allocate thumbnail worker generation"@,
            PoolError::Cancelled => "Preview cancelled"@,
            PoolError::SnapshotTooLarge => "The source is too large to stage"@,
            PoolError::MemoryExceeded => "The thumbnail worker exceeded its memory limit"@,
            PoolError::Unmeasured => "The memory of the thumbnail worker could not be measured"@,
        },
        RenderFailure::Startup(error) => error@,
        RenderFailure::StartupTimedOut => "The thumbnail worker startup timed out"@,
        RenderFailure::Retired => "Thumbnail worker retired before receiving the request"@,
        RenderFailure::TimedOut => "The thumbnail worker timed out"@,
        RenderFailure::Prepare(_) => "Unable to prepare thumbnail worker request: "@,
        RenderFailure::Send(_) => "Unable to send thumbnail worker request: "@,
        RenderFailure::Receive(_) => "Unable to receive thumbnail worker reply: "@,
        RenderFailure::Read(_) => "Unable to read thumbnail worker output: "@,
        RenderFailure::Undecodable => "The thumbnail worker could not decode the image"@,
        RenderFailure::InvalidReply(_) => "Invalid thumbnail worker reply: "@,
    }
}

impl RenderFailure {
    /// The failure in words, up to the protocol error that caused it.
    pub fn message(&self) -> (text: String)
        ensures
            text@ == failure_text(*self),
    {
        match self {
            RenderFailure::Cancelled => "Preview cancelled".to_owned(),
            RenderFailure::Snapshot(error) => error.clone(),
            RenderFailure::Pool(error) => error.message().to_owned(),
            RenderFailure::Startup(error) => error.clone(),
            RenderFailure::StartupTimedOut => "The thumbnail worker startup timed out".to_owned(),
            RenderFailure::Retired =>
            "Thumbnail worker retired before receiving the request".to_owned(),
            RenderFailure::TimedOut => "The thumbnail worker timed out".to_owned(),
            RenderFailure::Prepare(_) => "Unable to prepare thumbnail worker request: ".to_owned(),
            RenderFailure::Send(_) => "Unable to send thumbnail worker request: ".to_owned(),
            RenderFailure::Receive(_) => "Unable to receive thumbnail worker reply: ".to_owned(),
            RenderFailure::Read(_) => "Unable to read thumbnail worker output: ".to_owned(),
            RenderFailure::Undecodable =>
            "The thumbnail worker could not decode the image".to_owned(),
            RenderFailure::InvalidReply(_) => "Invalid thumbnail worker reply: ".to_owned(),
        }
    }

    /// The protocol error behind the failure, where there is one.
    pub fn cause(&self) -> (error: Option<ProtocolError>)
        ensures
            error == match *self {
                RenderFailure::Prepare(error)
                | RenderFailure::Send(error)
                | RenderFailure::Receive(error)
                | RenderFailure::Read(error)
                | RenderFailure::InvalidReply(error) => Some(error),
                _ => None,
            },
    {
        match self {
            RenderFailure::Prepare(error) => Some(*error),
            RenderFailure::Send(error) => Some(*error),
            RenderFailure::Receive(error) => Some(*error),
            RenderFailure::Read(error) => Some(*error),
            RenderFailure::InvalidReply(error) => Some(*error),
            _ => None,
        }
    }
}

/// What came of a request, and whether its worker can serve the next one.
#[derive(Debug, PartialEq, Eq)]
pub struct RenderOutcome {
    pub result: Result<RawThumbnail, RenderFailure>,
    pub reusable: bool,
}

/// A worker as its supervisor sees it.
#[derive(Debug)]
pub struct WorkerRuntime {
    pub session: ParentSession,
    pub generation: WorkerGeneration,
}

/// Where a request is between two outside calls.
#[derive(Clone, Copy, Debug, PartialEq, Eq, Structural)]
pub enum RenderPhase {
    /// There is no request.
    Resting,
    Sending,
    Receiving,
    /// An output of this shape is being read.
    Reading(OutputMetadata),
}

/// What came of the outside call that a request asked for.
#[derive(Debug)]
pub enum RenderEvent<F> {
    Begin { operation: Operation, requested_edge: u16, cancelled: bool },
    Sent(ProtocolResult<()>),
    Received(ProtocolResult<Packet<F>>),
    OutputRead(ProtocolResult<Vec<u8>>),
    /// The request must not go on: the pool is shut down, or the worker uses too much memory
    /// or cannot be measured.
    Interrupted(PoolError),
}

/// The outside call that a request asks for.
#[derive(Debug)]
pub enum RenderAction<F> {
    /// Send a packet with the snapshot within `deadline` nanoseconds.
    Send { envelope: WireEnvelope, deadline: u128 },
    /// Receive a packet with at most one descriptor within `deadline` nanoseconds.
    Receive { deadline: u128 },
    /// Read the whole output.
    Read(ValidatedOutput<F>),
    Done(RenderOutcome),
}

/// Whether `event` is what a request in `phase` waits for.
pub open spec fn render_awaits<F>(phase: RenderPhase, event: RenderEvent<F>) -> bool {
    match phase {
        RenderPhase::Resting => event is Begin,
        RenderPhase::Sending => event is Sent || event is Interrupted,
        RenderPhase::Receiving => event is Received || event is Interrupted,
        RenderPhase::Reading(metadata) => match event {
            RenderEvent::OutputRead(Ok(bytes)) => metadata.acceptable()
                && metadata.representation == Representation::Rgba8 && bytes@.len()
                == metadata.output_len,
            RenderEvent::OutputRead(Err(_)) => true,
            RenderEvent::Interrupted(_) => true,
            _ => false,
        },
    }
}

/// A request ended in `failure`.
pub open spec fn failed_with<F>(
    next: RenderPhase,
    action: RenderAction<F>,
    failure: RenderFailure,
    reusable: bool,
) -> bool {
    &&& next == RenderPhase::Resting
    &&& action == RenderAction::<F>::Done(RenderOutcome { result: Err(failure), reusable })
}

/// Whether a request may go from `phase` to `next`, asking for `action`, after `event`,
/// while the session goes from `before` to `after`.
pub open spec fn render_may<F>(
    before: SessionView,
    generation: WorkerGeneration,
    phase: RenderPhase,
    event: RenderEvent<F>,
    after: SessionView,
    next: RenderPhase,
    action: RenderAction<F>,
) -> bool {
    match event {
        RenderEvent::Begin { operation, requested_edge, cancelled } => if cancelled {
            after == before && failed_with(next, action, RenderFailure::Cancelled, true)
        } else {
            match before.begin_error(generation, requested_edge) {
                Some(error) => after == before && failed_with(
                    next,
                    action,
                    RenderFailure::Prepare(error),
                    false,
                ),
                None => {
                    &&& after == before.begun()
                    &&& next == RenderPhase::Sending
                    &&& action == (RenderAction::<F>::Send {
                        envelope: WireEnvelope::spec_request(
                            before.next_request_id,
                            operation.code(),
                            requested_edge,
                        ),
                        deadline: REQUEST_DEADLINE,
                    })
                },
            }
        },
        RenderEvent::Sent(Err(error)) => after == before && failed_with(
            next,
            action,
            RenderFailure::Send(error),
            false,
        ),
        RenderEvent::Sent(Ok(_)) => {
            &&& after == before
            &&& next == RenderPhase::Receiving
            &&& action == (RenderAction::<F>::Receive { deadline: REQUEST_DEADLINE })
        },
        RenderEvent::Received(Err(error)) => after == before && failed_with(
            next,
            action,
            RenderFailure::Receive(error),
            false,
        ),
        RenderEvent::Received(Ok(packet)) => match before.accept_error(packet) {
            Some(error) => after == before && failed_with(
                next,
                action,
                RenderFailure::InvalidReply(error),
                false,
            ),
            None => {
                &&& after == before.answered()
                &&& if packet.envelope.status != Status::Success.code() {
                    failed_with(next, action, RenderFailure::Undecodable, true)
                } else if packet.envelope.representation != Representation::Rgba8.code() {
                    failed_with(
                        next,
                        action,
                        RenderFailure::InvalidReply(ProtocolError::InvalidMetadata),
                        false,
                    )
                } else {
                    &&& metadata_of(packet.envelope) matches Some(metadata) && next
                        == RenderPhase::Reading(metadata)
                    &&& action matches RenderAction::Read(output) && output.handle()
                        == packet.fds@[0].handle && metadata_of(packet.envelope) == Some(
                        output.described(),
                    )
                }
            },
        },
        RenderEvent::Interrupted(error) => after == before && failed_with(
            next,
            action,
            RenderFailure::Pool(error),
            false,
        ),
        RenderEvent::OutputRead(Err(error)) => after == before && failed_with(
            next,
            action,
            RenderFailure::Read(error),
            true,
        ),
        RenderEvent::OutputRead(Ok(pixels)) => {
            let metadata = phase->Reading_0;
            &&& after == before
            &&& next == RenderPhase::Resting
            &&& action == RenderAction::<F>::Done(
                RenderOutcome {
                    result: Ok(
                        RawThumbnail {
                            pixels,
                            width: metadata.width as i32,
                            height: metadata.height as i32,
                            stride: metadata.stride as usize,
                        },
                    ),
                    reusable: true,
                },
            )
            &&& pixels@.len() == metadata.stride * metadata.height
            &&& metadata.stride == 4 * metadata.width
        },
    }
}

fn failed<F>(failure: RenderFailure, reusable: bool) -> (step: (RenderPhase, RenderAction<F>))
    ensures
        failed_with(step.0, step.1, failure, reusable),
{
    (RenderPhase::Resting, RenderAction::Done(RenderOutcome { result: Err(failure), reusable }))
}

impl WorkerRuntime {
    /// One step of a request on this worker.
    pub fn render<F>(&mut self, phase: RenderPhase, event: RenderEvent<F>) -> (step: (
        RenderPhase,
        RenderAction<F>,
    ))
        requires
            render_awaits(phase, event),
        ensures
            final(self).generation == old(self).generation,
            render_may(
                old(self).session@,
                old(self).generation,
                phase,
                event,
                final(self).session@,
                step.0,
                step.1,
            ),
    {
        match event {
            RenderEvent::Begin { operation, requested_edge, cancelled } => {
                if cancelled {
                    return failed(RenderFailure::Cancelled, true);
                }
                match self.session.begin_request(self.generation, operation, requested_edge) {
                    Ok(envelope) => (
                        RenderPhase::Sending,
                        RenderAction::Send { envelope, deadline: REQUEST_DEADLINE },
                    ),
                    Err(error) => failed(RenderFailure::Prepare(error), false),
                }
            },
            RenderEvent::Sent(Ok(_)) => (
                RenderPhase::Receiving,
                RenderAction::Receive { deadline: REQUEST_DEADLINE },
            ),
            RenderEvent::Sent(Err(error)) => failed(RenderFailure::Send(error), false),
            RenderEvent::Received(Err(error)) => failed(RenderFailure::Receive(error), false),
            RenderEvent::Received(Ok(packet)) => match self.session.accept_reply(packet) {
                Ok(JobReply::Success(output)) => {
                    let metadata = output.metadata();
                    if metadata.representation != Representation::Rgba8 {
                        return failed(
                            RenderFailure::InvalidReply(ProtocolError::InvalidMetadata),
                            false,
                        );
                    }
                    (RenderPhase::Reading(metadata), RenderAction::Read(output))
                },
                Ok(JobReply::JobFailure(_)) => failed(RenderFailure::Undecodable, true),
                Err(error) => failed(RenderFailure::InvalidReply(error), false),
            },
            RenderEvent::Interrupted(error) => failed(RenderFailure::Pool(error), false),
            RenderEvent::OutputRead(Err(error)) => failed(RenderFailure::Read(error), true),
            RenderEvent::OutputRead(Ok(pixels)) => {
                let thumbnail = match phase {
                    RenderPhase::Reading(metadata) => RawThumbnail {
                        pixels,
                        width: metadata.width as i32,
                        height: metadata.height as i32,
                        stride: metadata.stride as usize,
                    },
                    _ => RawThumbnail { pixels, width: 0, height: 0, stride: 0 },
                };
                (
                    RenderPhase::Resting,
                    RenderAction::Done(RenderOutcome { result: Ok(thumbnail), reusable: true }),
                )
            },
        }
    }
}

/// Longest pause between two looks at a worker that renders.
pub const SUPERVISION_INTERVAL: u128 = 50_000_000;

/// What a look at a worker that renders leads to.
#[derive(Clone, Copy, Debug, PartialEq, Eq, Structural)]
pub enum SupervisionStep {
    /// Look again after this many nanoseconds, or when something arrives.
    Wait(u128),
    /// The time for the request is over.
    TimedOut,
    /// End the request.
    Interrupt(PoolError),
}

/// Looks at a worker that renders: whether the pool is shut down, whether the memory of its
/// processes could be measured and accounted for, and how much of the deadline is left.
pub fn supervise(
    shut_down: bool,
    accounted: Result<(), PoolError>,
    elapsed: u128,
    deadline: u128,
) -> (step: SupervisionStep)
    ensures
        step == if shut_down {
            SupervisionStep::Interrupt(PoolError::ShutDown)
        } else {
            match accounted {
                Err(error) => SupervisionStep::Interrupt(error),
                Ok(_) => if elapsed >= deadline {
                    SupervisionStep::TimedOut
                } else if deadline - elapsed < SUPERVISION_INTERVAL {
                    SupervisionStep::Wait((deadline - elapsed) as u128)
                } else {
                    SupervisionStep::Wait(SUPERVISION_INTERVAL)
                },
            }
        },
{
    if shut_down {
        return SupervisionStep::Interrupt(PoolError::ShutDown);
    }
    if let Err(error) = accounted {
        return SupervisionStep::Interrupt(error);
    }
    if elapsed >= deadline {
        SupervisionStep::TimedOut
    } else if deadline - elapsed < SUPERVISION_INTERVAL {
        SupervisionStep::Wait(deadline - elapsed)
    } else {
        SupervisionStep::Wait(SUPERVISION_INTERVAL)
    }
}

/// Shutdown ends a request wherever it is: what follows is a failure, and its worker does not
/// serve again.
pub proof fn shutdown_ends_active_renders<F>(
    before: SessionView,
    generation: WorkerGeneration,
    phase: RenderPhase,
    after: SessionView,
    next: RenderPhase,
    action: RenderAction<F>,
)
    requires
        phase != RenderPhase::Resting,
        render_may(
            before,
            generation,
            phase,
            RenderEvent::<F>::Interrupted(PoolError::ShutDown),
            after,
            next,
            action,
        ),
    ensures
        render_awaits(phase, RenderEvent::<F>::Interrupted(PoolError::ShutDown)),
        next == RenderPhase::Resting,
        action matches RenderAction::Done(outcome) && outcome.result is Err && !outcome.reusable,
{
}

/// A worker that kept to the protocol and is told to serve again can: its session accepts
/// the next request. Here: after a content failure, which carries no descriptor.
pub proof fn content_failure_leaves_worker_reusable<F>(
    before: SessionView,
    packet: Packet<F>,
    after: SessionView,
    next: RenderPhase,
    action: RenderAction<F>,
    requested_edge: u16,
)
    requires
        before.wf(),
        before.active_request == Some(packet.envelope.request_id),
        before.next_request_id < u64::MAX,
        packet.envelope.message_type == crate::wire::MessageType::Reply,
        packet.envelope.status == Status::DecodeFailed.code(),
        packet.envelope.output_len == 0,
        packet.fds@.len() == 0,
        1 <= requested_edge <= crate::protocol::MAX_EDGE,
        render_may(
            before,
            before.generation,
            RenderPhase::Receiving,
            RenderEvent::Received(Ok(packet)),
            after,
            next,
            action,
        ),
    ensures
        action matches RenderAction::Done(outcome) && outcome.reusable && outcome.result == Result::<
            RawThumbnail,
            RenderFailure,
        >::Err(RenderFailure::Undecodable),
        after.begin_error(before.generation, requested_edge) is None,
{
    crate::protocol::job_failure_leaves_session_usable(before, packet, requested_edge);
}

/// What the thread that supervises a worker hears of.
#[derive(Clone, Copy, Debug, PartialEq, Eq, Structural)]
pub enum SupervisorEvent {
    /// The worker announced itself, and whoever started it was told or is gone.
    Ready { starter_waits: bool },
    /// A request for the worker.
    Render,
    /// The request is answered, and the answer handed on.
    Rendered { reusable: bool },
    Retire,
    Shutdown,
    /// Nobody can send anything any more.
    Disconnected,
    /// Nothing came for a while.
    Quiet,
}

/// What the thread that supervises a worker does next.
#[derive(Clone, Copy, Debug, PartialEq, Eq, Structural)]
pub enum SupervisorAction {
    /// Wait for the next event.
    Wait,
    /// Render the request.
    Render,
    /// End the worker and reap it.
    Terminate,
}

/// The life of a worker as its supervisor sees it: it renders until it breaks, is told to
/// end, or nobody is left to ask; silence alone does not end it.
pub fn worker_thread(event: SupervisorEvent) -> (action: SupervisorAction)
    ensures
        action == match event {
            SupervisorEvent::Ready { starter_waits: true } => SupervisorAction::Wait,
            SupervisorEvent::Ready { starter_waits: false } => SupervisorAction::Terminate,
            SupervisorEvent::Render => SupervisorAction::Render,
            SupervisorEvent::Rendered { reusable: true } => SupervisorAction::Wait,
            SupervisorEvent::Rendered { reusable: false } => SupervisorAction::Terminate,
            SupervisorEvent::Retire => SupervisorAction::Terminate,
            SupervisorEvent::Shutdown => SupervisorAction::Terminate,
            SupervisorEvent::Disconnected => SupervisorAction::Terminate,
            SupervisorEvent::Quiet => SupervisorAction::Wait,
        },
{
    match event {
        SupervisorEvent::Ready { starter_waits } => {
            if starter_waits {
                SupervisorAction::Wait
            } else {
                SupervisorAction::Terminate
            }
        },
        SupervisorEvent::Render => SupervisorAction::Render,
        SupervisorEvent::Rendered { reusable } => {
            if reusable {
                SupervisorAction::Wait
            } else {
                SupervisorAction::Terminate
            }
        },
        SupervisorEvent::Retire | SupervisorEvent::Shutdown | SupervisorEvent::Disconnected =>
        SupervisorAction::Terminate,
        SupervisorEvent::Quiet => SupervisorAction::Wait,
    }
}

/// Where a thumbnail is on its way through the pool.
#[derive(Clone, Copy, Debug, PartialEq, Eq, Structural)]
pub enum PersistentState {
    Fresh { operation: Operation, wanted_edge: i32 },
    /// The source is being copied.
    Snapshotting { operation: Operation, requested_edge: u16 },
    /// A worker is being started.
    Starting { generation: WorkerGeneration, operation: Operation, requested_edge: u16 },
    /// The request is being handed to a worker.
    Submitting { generation: WorkerGeneration },
    /// A worker renders.
    Awaiting { generation: WorkerGeneration },
    Finished,
}

/// Why a worker did not start.
#[derive(Debug, PartialEq, Eq)]
pub enum StartFailure {
    Failed(String),
    TimedOut,
}

/// What came of the outside call that a thumbnail asked for. An event that tells of a
/// failed worker comes once the worker's process has been reaped.
#[derive(Debug)]
pub enum PersistentEvent {
    Begin { cancelled: bool },
    Snapshot { taken: Result<(), String>, cancelled: bool },
    Started(Result<(), StartFailure>),
    /// `false` if the worker was gone.
    Submitted(bool),
    /// `None` if no answer came in time.
    Answered(Option<RenderOutcome>),
}

/// The outside call that a thumbnail asks for.
#[derive(Debug)]
pub enum PersistentAction {
    TakeSnapshot,
    /// Start a worker, which has `limit` nanoseconds to announce itself.
    Start { generation: WorkerGeneration, limit: u128 },
    Submit { generation: WorkerGeneration, operation: Operation, requested_edge: u16 },
    /// Wait for the answer for `limit` nanoseconds.
    Await { generation: WorkerGeneration, limit: u128 },
    /// Hand the result out. If `end_worker`, the worker is not needed any more.
    Finish { result: Result<RawThumbnail, RenderFailure>, end_worker: bool },
}

/// Whether `event` is what a thumbnail in `state` waits for.
pub open spec fn persistent_awaits(state: PersistentState, event: PersistentEvent) -> bool {
    match state {
        PersistentState::Fresh { .. } => event is Begin,
        PersistentState::Snapshotting { .. } => event is Snapshot,
        PersistentState::Starting { .. } => event is Started,
        PersistentState::Submitting { .. } => event is Submitted,
        PersistentState::Awaiting { .. } => event is Answered,
        PersistentState::Finished => false,
    }
}

/// The pool after a worker failed: the worker is gone and no other is started for a while.
pub open spec fn worker_failed(pool: PoolView, generation: WorkerGeneration, now: u128) -> PoolView {
    PoolView {
        backoff: Some(
            if now + SPAWN_BACKOFF > u128::MAX {
                u128::MAX
            } else {
                (now + SPAWN_BACKOFF) as u128
            },
        ),
        ..pool.reaped(generation)
    }
}

/// A thumbnail ended without pixels.
pub open spec fn gave_up(
    next: PersistentState,
    action: PersistentAction,
    failure: RenderFailure,
) -> bool {
    &&& next == PersistentState::Finished
    &&& action == (PersistentAction::Finish { result: Err(failure), end_worker: false })
}

/// Whether a thumbnail may go from `state` to `next`, asking for `action`, after `event` at
/// `now`, while the pool goes from `before` to `after`.
pub open spec fn persistent_may(
    before: PoolView,
    state: PersistentState,
    event: PersistentEvent,
    now: u128,
    after: PoolView,
    next: PersistentState,
    action: PersistentAction,
) -> bool {
    match (state, event) {
        (
            PersistentState::Fresh { operation, wanted_edge },
            PersistentEvent::Begin { cancelled },
        ) => {
            &&& after == before
            &&& if cancelled {
                gave_up(next, action, RenderFailure::Cancelled)
            } else {
                &&& next == (PersistentState::Snapshotting {
                    operation,
                    requested_edge: clamped_edge(wanted_edge as int) as u16,
                })
                &&& action == PersistentAction::TakeSnapshot
            }
        },
        (
            PersistentState::Snapshotting { operation, requested_edge },
            PersistentEvent::Snapshot { taken, cancelled },
        ) => match taken {
            Err(error) => after == before && gave_up(next, action, RenderFailure::Snapshot(error)),
            Ok(_) => if cancelled {
                after == before && gave_up(next, action, RenderFailure::Cancelled)
            } else if before.idle.len() > 0 {
                let generation = before.idle.last().generation;
                &&& after == (PoolView { idle: before.idle.drop_last(), ..before })
                &&& next == (PersistentState::Submitting { generation })
                &&& action == (PersistentAction::Submit { generation, operation, requested_edge })
            } else {
                match before.reserve_error(now) {
                    Some(error) => after == before && gave_up(
                        next,
                        action,
                        RenderFailure::Pool(error),
                    ),
                    None => {
                        &&& next matches PersistentState::Starting {
                            generation,
                            operation: kept,
                            requested_edge: edge,
                        } && generation.number() == before.coming_generation() && kept == operation
                            && edge == requested_edge && after == before.reserved(generation)
                            && action == (PersistentAction::Start {
                            generation,
                            limit: (STARTUP_DEADLINE + SUPERVISOR_GRACE) as u128,
                        })
                    },
                }
            },
        },
        (
            PersistentState::Starting { generation, operation, requested_edge },
            PersistentEvent::Started(result),
        ) => match result {
            Ok(_) => {
                &&& after == if before.slots.contains(generation) {
                    PoolView { workers: before.workers.push(generation), ..before }
                } else {
                    before
                }
                &&& next == (PersistentState::Submitting { generation })
                &&& action == (PersistentAction::Submit { generation, operation, requested_edge })
            },
            Err(failure) => {
                &&& after == worker_failed(before, generation, now)
                &&& gave_up(
                    next,
                    action,
                    match failure {
                        StartFailure::Failed(error) => RenderFailure::Startup(error),
                        StartFailure::TimedOut => RenderFailure::StartupTimedOut,
                    },
                )
            },
        },
        (PersistentState::Submitting { generation }, PersistentEvent::Submitted(accepted)) => {
            if accepted {
                &&& after == before
                &&& next == (PersistentState::Awaiting { generation })
                &&& action == (PersistentAction::Await {
                    generation,
                    limit: (REQUEST_DEADLINE + SUPERVISOR_GRACE) as u128,
                })
            } else {
                &&& after == worker_failed(before, generation, now)
                &&& gave_up(next, action, RenderFailure::Retired)
            }
        },
        (PersistentState::Awaiting { generation }, PersistentEvent::Answered(answer)) => match answer {
            None => {
                &&& after == worker_failed(before, generation, now)
                &&& gave_up(next, action, RenderFailure::TimedOut)
            },
            Some(outcome) => {
                &&& next == PersistentState::Finished
                &&& if outcome.reusable {
                    &&& after == if can_check_in(before, generation) {
                        PoolView {
                            idle: before.idle.push(IdleWorker { generation, since: now }),
                            ..before
                        }
                    } else {
                        before
                    }
                    &&& action == (PersistentAction::Finish {
                        result: outcome.result,
                        end_worker: !can_check_in(before, generation),
                    })
                } else {
                    &&& after == worker_failed(before, generation, now)
                    &&& action == (PersistentAction::Finish {
                        result: outcome.result,
                        end_worker: false,
                    })
                }
            },
        },
        _ => false,
    }
}

/// The worker that an event tells the failure of, if it does.
pub open spec fn failed_worker(state: PersistentState, event: PersistentEvent) -> Option<
    WorkerGeneration,
> {
    match (state, event) {
        (PersistentState::Starting { generation, .. }, PersistentEvent::Started(Err(_))) => Some(
            generation,
        ),
        (PersistentState::Submitting { generation }, PersistentEvent::Submitted(false)) => Some(
            generation,
        ),
        (PersistentState::Awaiting { generation }, PersistentEvent::Answered(None)) => Some(
            generation,
        ),
        (PersistentState::Awaiting { generation }, PersistentEvent::Answered(Some(outcome))) =>
        if outcome.reusable {
            None
        } else {
            Some(generation)
        },
        _ => None,
    }
}

fn fail_worker(pool: &mut PoolState, generation: WorkerGeneration, now: u128)
    requires
        old(pool)@.wf(),
    ensures
        final(pool)@ == worker_failed(old(pool)@, generation, now),
        old(pool)@.slots.contains(generation) && old(pool)@.next_generation < u64::MAX
            ==> final(pool)@.slots.len() == old(pool)@.slots.len() - 1,
        final(pool)@.wf(),
{
    note_worker_dead(pool, generation);
    note_spawn_failure(pool, now);
}

fn give_up(failure: RenderFailure) -> (step: (PersistentState, PersistentAction))
    ensures
        gave_up(step.0, step.1, failure),
{
    (
        PersistentState::Finished,
        PersistentAction::Finish { result: Err(failure), end_worker: false },
    )
}

/// One step of a thumbnail on its way through the pool: copy the source, take an idle
/// worker or start one, hand the request over, wait, and give the worker back if it can
/// serve again.
pub fn render_persistent_thumbnail(
    pool: &mut PoolState,
    state: PersistentState,
    event: PersistentEvent,
    now: u128,
) -> (step: (PersistentState, PersistentAction))
    requires
        old(pool)@.wf(),
        persistent_awaits(state, event),
    ensures
        persistent_may(old(pool)@, state, event, now, final(pool)@, step.0, step.1),
        failed_worker(state, event) matches Some(generation) ==> {
            &&& final(pool)@ == worker_failed(old(pool)@, generation, now)
            &&& old(pool)@.slots.contains(generation) && old(pool)@.next_generation < u64::MAX
                ==> final(pool)@.slots.len() == old(pool)@.slots.len() - 1
        },
        final(pool)@.wf(),
{
    match (state, event) {
        (
            PersistentState::Fresh { operation, wanted_edge },
            PersistentEvent::Begin { cancelled },
        ) => {
            if cancelled {
                return give_up(RenderFailure::Cancelled);
            }
            let requested_edge: u16 = clamp_edge(wanted_edge) as u16;
            (
                PersistentState::Snapshotting { operation, requested_edge },
                PersistentAction::TakeSnapshot,
            )
        },
        (
            PersistentState::Snapshotting { operation, requested_edge },
            PersistentEvent::Snapshot { taken, cancelled },
        ) => {
            if let Err(error) = taken {
                return give_up(RenderFailure::Snapshot(error));
            }
            if cancelled {
                return give_up(RenderFailure::Cancelled);
            }
            match checkout_worker(pool) {
                Some(generation) => (
                    PersistentState::Submitting { generation },
                    PersistentAction::Submit { generation, operation, requested_edge },
                ),
                None => match reserve_generation(pool, now) {
                    Ok(generation) => (
                        PersistentState::Starting { generation, operation, requested_edge },
                        PersistentAction::Start {
                            generation,
                            limit: STARTUP_DEADLINE + SUPERVISOR_GRACE,
                        },
                    ),
                    Err(error) => give_up(RenderFailure::Pool(error)),
                },
            }
        },
        (
            PersistentState::Starting { generation, operation, requested_edge },
            PersistentEvent::Started(result),
        ) => match result {
            Ok(_) => {
                let _registered = register_worker(pool, generation);
                (
                    PersistentState::Submitting { generation },
                    PersistentAction::Submit { generation, operation, requested_edge },
                )
            },
            Err(failure) => {
                fail_worker(pool, generation, now);
                match failure {
                    StartFailure::Failed(error) => give_up(RenderFailure::Startup(error)),
                    StartFailure::TimedOut => give_up(RenderFailure::StartupTimedOut),
                }
            },
        },
        (PersistentState::Submitting { generation }, PersistentEvent::Submitted(accepted)) => {
            if accepted {
                (
                    PersistentState::Awaiting { generation },
                    PersistentAction::Await {
                        generation,
                        limit: REQUEST_DEADLINE + SUPERVISOR_GRACE,
                    },
                )
            } else {
                fail_worker(pool, generation, now);
                give_up(RenderFailure::Retired)
            }
        },
        (PersistentState::Awaiting { generation }, PersistentEvent::Answered(answer)) => match answer {
            None => {
                fail_worker(pool, generation, now);
                give_up(RenderFailure::TimedOut)
            },
            Some(outcome) => {
                let mut end_worker: bool = false;
                if outcome.reusable {
                    end_worker = !checkin_worker(pool, generation, now);
                } else {
                    fail_worker(pool, generation, now);
                }
                (
                    PersistentState::Finished,
                    PersistentAction::Finish { result: outcome.result, end_worker },
                )
            },
        },
        _ => (
            PersistentState::Finished,
            PersistentAction::Finish { result: Err(RenderFailure::Cancelled), end_worker: false },
        ),
    }
}

/// A worker that failed is in no list of the pool any more, and frees exactly one slot.
pub proof fn failed_workers_leave_the_pool(
    pool: PoolView,
    generation: WorkerGeneration,
    now: u128,
)
    requires
        pool.wf(),
        pool.slots.contains(generation),
    ensures
        !generations(worker_failed(pool, generation, now).idle).contains(generation),
        !worker_failed(pool, generation, now).workers.contains(generation),
        !worker_failed(pool, generation, now).slots.contains(generation),
        pool.next_generation < u64::MAX ==> worker_failed(pool, generation, now).slots.len()
            == pool.slots.len() - 1,
{
    slots_outlast_retirement(pool, generation);
    lemma_without(pool.workers, generation);
}

/// After a worker failed, no worker is started until the backoff is over.
pub proof fn failures_back_off(
    pool: PoolView,
    generation: WorkerGeneration,
    now: u128,
    later: u128,
)
    requires
        !pool.shutdown,
        later < now + SPAWN_BACKOFF,
        later < u128::MAX,
    ensures
        worker_failed(pool, generation, now).reserve_error(later) == Some(PoolError::BackedOff),
{
}

/// The thumbnail that is handed out is the worker's answer, whatever that is: the pixels of a
/// picture come out as they are, and so does a failure.
pub proof fn answers_are_handed_out(
    before: PoolView,
    generation: WorkerGeneration,
    outcome: RenderOutcome,
    now: u128,
    after: PoolView,
    next: PersistentState,
    action: PersistentAction,
)
    requires
        persistent_may(
            before,
            PersistentState::Awaiting { generation },
            PersistentEvent::Answered(Some(outcome)),
            now,
            after,
            next,
            action,
        ),
    ensures
        next == PersistentState::Finished,
        action matches PersistentAction::Finish { result, .. } && result == outcome.result,
        outcome.result matches Ok(picture) ==> action matches PersistentAction::Finish {
            result: Ok(given),
            ..
        } && given.pixels@ == picture.pixels@ && given.width == picture.width && given.height
            == picture.height && given.stride == picture.stride,
{
}

/// A worker that can serve again goes back to the pool at once: it is the latest of the idle
/// ones, and nothing else of the pool changes. It is ended instead, with the pool as it was, if
/// the pool is shut down, does not know it, or has it already.
pub proof fn workers_come_back(
    before: PoolView,
    generation: WorkerGeneration,
    outcome: RenderOutcome,
    now: u128,
    after: PoolView,
    next: PersistentState,
    action: PersistentAction,
)
    requires
        outcome.reusable,
        persistent_may(
            before,
            PersistentState::Awaiting { generation },
            PersistentEvent::Answered(Some(outcome)),
            now,
            after,
            next,
            action,
        ),
    ensures
        ({
            let welcome = !before.shutdown && before.workers.contains(generation) && forall|i: int|
                0 <= i < before.idle.len() ==> (#[trigger] before.idle[i]).generation != generation;
            &&& action matches PersistentAction::Finish { end_worker, .. } && end_worker == !welcome
            &&& if welcome {
                &&& after.idle.len() == before.idle.len() + 1
                &&& after.idle.drop_last() == before.idle
                &&& after.idle.last().generation == generation
                &&& after.idle.last().since == now
                &&& after.workers == before.workers
                &&& after.slots == before.slots
                &&& after.next_generation == before.next_generation
                &&& after.backoff == before.backoff
                &&& after.shutdown == before.shutdown
                &&& after.staged == before.staged
                &&& after.memory == before.memory
            } else {
                after == before
            }
        }),
{
    let listed = generations(before.idle);
    assert forall|i: int| 0 <= i < before.idle.len() implies listed[i] == (
    #[trigger] before.idle[i]).generation by {}
    if listed.contains(generation) {
        let i = listed.index_of(generation);
        assert(before.idle[i].generation == generation);
    } else {
        assert forall|i: int| 0 <= i < before.idle.len() implies (
        #[trigger] before.idle[i]).generation != generation by {
            assert(listed[i] == before.idle[i].generation);
        }
    }
    if can_check_in(before, generation) {
        assert(after.idle.drop_last() =~= before.idle);
    }
}

/// A worker that broke, is gone, or did not answer in time is known to the pool no more, and no
/// other is started for half a second.
pub proof fn broken_workers_are_dropped(
    before: PoolView,
    state: PersistentState,
    event: PersistentEvent,
    generation: WorkerGeneration,
    now: u128,
    after: PoolView,
    next: PersistentState,
    action: PersistentAction,
)
    requires
        persistent_may(before, state, event, now, after, next, action),
        ({
            ||| state == (PersistentState::Awaiting { generation }) && event
                == PersistentEvent::Answered(None)
            ||| state == (PersistentState::Awaiting { generation }) && (event matches
                PersistentEvent::Answered(Some(outcome)) && !outcome.reusable)
            ||| state == (PersistentState::Submitting { generation }) && event
                == PersistentEvent::Submitted(false)
            ||| (state matches PersistentState::Starting { generation: started, .. } && started
                == generation) && event is Started && event->Started_0 is Err
        }),
        now <= u128::MAX - 500_000_000,
    ensures
        next == PersistentState::Finished,
        action matches PersistentAction::Finish { end_worker, .. } && !end_worker,
        !after.workers.contains(generation),
        !after.slots.contains(generation),
        forall|i: int|
            0 <= i < after.idle.len() ==> (#[trigger] after.idle[i]).generation != generation,
        forall|other: WorkerGeneration|
            other != generation ==> (#[trigger] after.slots.contains(other)
                == before.slots.contains(other)),
        forall|other: WorkerGeneration|
            other != generation ==> (#[trigger] after.workers.contains(other)
                == before.workers.contains(other)),
        after.backoff == Some((now + 500_000_000) as u128),
        after.shutdown == before.shutdown,
        after.next_generation == before.next_generation,
        after.staged == before.staged,
{
    lemma_without(before.workers, generation);
    lemma_without(before.slots, generation);
    crate::pool::idle_without_keeps_the_others(before.idle, generation);
}

/// What went wrong is what is reported: a source that could not be copied and a worker that did
/// not start with their own words, a worker that was gone or silent as such.
pub proof fn failures_are_reported(
    before: PoolView,
    state: PersistentState,
    event: PersistentEvent,
    now: u128,
    after: PoolView,
    next: PersistentState,
    action: PersistentAction,
)
    requires
        persistent_may(before, state, event, now, after, next, action),
    ensures
        event matches PersistentEvent::Begin { cancelled: true } ==> action matches
            PersistentAction::Finish { result: Err(RenderFailure::Cancelled), .. } && after
            == before,
        event matches PersistentEvent::Snapshot { taken: Ok(_), cancelled: true } ==> action matches
            PersistentAction::Finish { result: Err(RenderFailure::Cancelled), .. } && after
            == before,
        event matches PersistentEvent::Snapshot { taken: Err(error), .. } ==> action matches
            PersistentAction::Finish { result: Err(RenderFailure::Snapshot(words)), .. } && words
            == error && after == before,
        event matches PersistentEvent::Started(Err(StartFailure::Failed(error))) ==> action matches
            PersistentAction::Finish { result: Err(RenderFailure::Startup(words)), .. } && words
            == error,
        event matches PersistentEvent::Started(Err(StartFailure::TimedOut)) ==> action matches
            PersistentAction::Finish { result: Err(RenderFailure::StartupTimedOut), .. },
        event == PersistentEvent::Submitted(false) ==> action matches
            PersistentAction::Finish { result: Err(RenderFailure::Retired), .. },
        event == PersistentEvent::Answered(None) ==> action matches
            PersistentAction::Finish { result: Err(RenderFailure::TimedOut), .. },
        next == PersistentState::Finished <==> action is Finish,
        action matches PersistentAction::Finish { result: Ok(_), .. } ==> event matches
            PersistentEvent::Answered(Some(_)),
{
}

/// The edge that a thumbnail is rendered at is the one that was asked for, as far as it lies
/// between 16 and 256 pixels, and else the nearer of the two.
pub proof fn thumbnails_keep_to_their_edges(
    before: PoolView,
    operation: Operation,
    wanted_edge: i32,
    now: u128,
    after: PoolView,
    next: PersistentState,
    action: PersistentAction,
)
    requires
        persistent_may(
            before,
            PersistentState::Fresh { operation, wanted_edge },
            PersistentEvent::Begin { cancelled: false },
            now,
            after,
            next,
            action,
        ),
    ensures
        after == before,
        action == PersistentAction::TakeSnapshot,
        next matches PersistentState::Snapshotting { operation: kept, requested_edge } && kept
            == operation && 16 <= requested_edge <= 256 && (16 <= wanted_edge <= 256
            ==> requested_edge == wanted_edge) && (wanted_edge < 16 ==> requested_edge == 16) && (
        wanted_edge > 256 ==> requested_edge == 256),
{
}

/// An idle worker is used before a new one is started: the latest one that came in gets the
/// request as it was made, and only leaves the idle ones.
pub proof fn idle_workers_are_used_first(
    before: PoolView,
    operation: Operation,
    requested_edge: u16,
    now: u128,
    after: PoolView,
    next: PersistentState,
    action: PersistentAction,
)
    requires
        before.idle.len() > 0,
        persistent_may(
            before,
            PersistentState::Snapshotting { operation, requested_edge },
            PersistentEvent::Snapshot { taken: Ok(()), cancelled: false },
            now,
            after,
            next,
            action,
        ),
    ensures
        next == (PersistentState::Submitting { generation: before.idle.last().generation }),
        action == (PersistentAction::Submit {
            generation: before.idle.last().generation,
            operation,
            requested_edge,
        }),
        after.idle == before.idle.drop_last(),
        after.workers == before.workers,
        after.slots == before.slots,
        after.next_generation == before.next_generation,
        after.backoff == before.backoff,
        after.shutdown == before.shutdown,
        after.staged == before.staged,
        after.memory == before.memory,
{
}

/// Without an idle worker one is started under a new number, unless the pool is shut down, backs
/// off, or has four already; it gets three seconds to announce itself.
pub proof fn workers_are_started_within_the_limits(
    before: PoolView,
    operation: Operation,
    requested_edge: u16,
    now: u128,
    after: PoolView,
    next: PersistentState,
    action: PersistentAction,
)
    requires
        before.idle.len() == 0,
        before.next_generation < u64::MAX,
        persistent_may(
            before,
            PersistentState::Snapshotting { operation, requested_edge },
            PersistentEvent::Snapshot { taken: Ok(()), cancelled: false },
            now,
            after,
            next,
            action,
        ),
    ensures
        ({
            let may_start = !before.shutdown && !(before.backoff matches Some(until) && now < until)
                && before.slots.len() < 4;
            &&& may_start ==> {
                &&& next matches PersistentState::Starting {
                    generation,
                    operation: kept,
                    requested_edge: edge,
                } && generation.number() == before.next_generation + 1 && kept == operation && edge
                    == requested_edge && action == (PersistentAction::Start {
                    generation,
                    limit: 3_000_000_000,
                }) && after.slots == before.slots.push(generation)
                &&& after.next_generation == before.next_generation + 1
                &&& after.idle == before.idle
                &&& after.workers == before.workers
                &&& after.backoff == before.backoff
                &&& !after.shutdown
            }
            &&& !may_start ==> {
                &&& after == before
                &&& action matches PersistentAction::Finish {
                    result: Err(RenderFailure::Pool(error)),
                    ..
                } && (before.shutdown ==> error == PoolError::ShutDown) && (error
                    == PoolError::ShutDown ==> before.shutdown) && (error == PoolError::NoCapacity
                    ==> before.slots.len() >= 4) && (error == PoolError::BackedOff
                    ==> before.backoff is Some && now < before.backoff->0) && (error
                    == PoolError::ShutDown || error == PoolError::BackedOff || error
                    == PoolError::NoCapacity)
            }
        }),
{
}

/// The whole way of a thumbnail through an idle worker: the worker gets what was asked for,
/// what it answers is handed out, and the pool is as it was but for the time at which the
/// worker came in.
pub proof fn a_thumbnail_through_an_idle_worker(
    pools: Seq<PoolView>,
    states: Seq<PersistentState>,
    actions: Seq<PersistentAction>,
    times: Seq<u128>,
    operation: Operation,
    wanted_edge: i32,
    outcome: RenderOutcome,
)
    requires
        pools.len() == 5,
        states.len() == 5,
        actions.len() == 4,
        times.len() == 4,
        pools[0].wf(),
        !pools[0].shutdown,
        pools[0].idle.len() > 0,
        16 <= wanted_edge <= 256,
        outcome.reusable,
        states[0] == (PersistentState::Fresh { operation, wanted_edge }),
        persistent_may(
            pools[0],
            states[0],
            PersistentEvent::Begin { cancelled: false },
            times[0],
            pools[1],
            states[1],
            actions[0],
        ),
        persistent_may(
            pools[1],
            states[1],
            PersistentEvent::Snapshot { taken: Ok(()), cancelled: false },
            times[1],
            pools[2],
            states[2],
            actions[1],
        ),
        persistent_may(
            pools[2],
            states[2],
            PersistentEvent::Submitted(true),
            times[2],
            pools[3],
            states[3],
            actions[2],
        ),
        persistent_may(
            pools[3],
            states[3],
            PersistentEvent::Answered(Some(outcome)),
            times[3],
            pools[4],
            states[4],
            actions[3],
        ),
    ensures
        actions[0] == PersistentAction::TakeSnapshot,
        ({
            let worker = pools[0].idle.last().generation;
            &&& actions[1] == (PersistentAction::Submit {
                generation: worker,
                operation,
                requested_edge: wanted_edge as u16,
            })
            &&& actions[2] == (PersistentAction::Await {
                generation: worker,
                limit: 13_000_000_000,
            })
            &&& actions[3] == (PersistentAction::Finish {
                result: outcome.result,
                end_worker: false,
            })
            &&& pools[4].idle == pools[0].idle.drop_last().push(
                IdleWorker { generation: worker, since: times[3] },
            )
        }),
        states[4] == PersistentState::Finished,
        pools[4].workers == pools[0].workers,
        pools[4].slots == pools[0].slots,
        pools[4].next_generation == pools[0].next_generation,
        pools[4].backoff == pools[0].backoff,
        pools[4].staged == pools[0].staged,
        pools[4].memory == pools[0].memory,
        !pools[4].shutdown,
{
    let idle = pools[0].idle;
    let worker = idle.last().generation;
    assert(generations(idle)[idle.len() - 1] == worker);
    assert(generations(idle).contains(worker));
    assert forall|i: int| 0 <= i < idle.drop_last().len() implies (
    #[trigger] idle.drop_last()[i]).generation != worker by {
        assert(idle[i].generation != idle[idle.len() - 1].generation);
    }
    workers_come_back(pools[3], worker, outcome, times[3], pools[4], states[4], actions[3]);
    assert(pools[4].idle =~= pools[4].idle.drop_last().push(pools[4].idle.last()));
}

/// A worker that was started gets the request once it announced itself, is registered with the
/// slot that it has, and is then waited for.
pub proof fn started_workers_get_the_request(
    before: PoolView,
    generation: WorkerGeneration,
    operation: Operation,
    requested_edge: u16,
    now: u128,
    after: PoolView,
    next: PersistentState,
    action: PersistentAction,
    later: u128,
    waiting_pool: PoolView,
    waiting: PersistentState,
    wait: PersistentAction,
)
    requires
        persistent_may(
            before,
            PersistentState::Starting { generation, operation, requested_edge },
            PersistentEvent::Started(Ok(())),
            now,
            after,
            next,
            action,
        ),
        persistent_may(
            after,
            next,
            PersistentEvent::Submitted(true),
            later,
            waiting_pool,
            waiting,
            wait,
        ),
    ensures
        action == (PersistentAction::Submit { generation, operation, requested_edge }),
        wait == (PersistentAction::Await { generation, limit: 13_000_000_000 }),
        waiting == (PersistentState::Awaiting { generation }),
        waiting_pool == after,
        after.slots == before.slots,
        after.idle == before.idle,
        before.slots.contains(generation) ==> after.workers == before.workers.push(generation),
        !before.slots.contains(generation) ==> after.workers == before.workers,
{
}

/// The pixels that were read are the thumbnail, in the shape that the reply announced, and the
/// worker can serve again.
pub proof fn pixels_are_handed_out<F>(
    before: SessionView,
    generation: WorkerGeneration,
    metadata: OutputMetadata,
    pixels: Vec<u8>,
    after: SessionView,
    next: RenderPhase,
    action: RenderAction<F>,
)
    requires
        render_may(
            before,
            generation,
            RenderPhase::Reading(metadata),
            RenderEvent::<F>::OutputRead(Ok(pixels)),
            after,
            next,
            action,
        ),
    ensures
        after == before,
        next == RenderPhase::Resting,
        action matches RenderAction::Done(outcome) && outcome.reusable && outcome.result is Ok
            && outcome.result->Ok_0.pixels == pixels && outcome.result->Ok_0.width == metadata.width
            && outcome.result->Ok_0.height == metadata.height && outcome.result->Ok_0.stride
            == metadata.stride,
{
}

/// A request begins only on its own worker, with an edge from 1 to 256, and one at a time; its
/// packet then carries the operation and the edge that were asked for under a new number.
pub proof fn requests_are_sent_as_asked<F>(
    before: SessionView,
    generation: WorkerGeneration,
    phase: RenderPhase,
    operation: Operation,
    requested_edge: u16,
    after: SessionView,
    next: RenderPhase,
    action: RenderAction<F>,
)
    requires
        render_may(
            before,
            generation,
            phase,
            RenderEvent::<F>::Begin { operation, requested_edge, cancelled: false },
            after,
            next,
            action,
        ),
    ensures
        ({
            let possible = generation == before.generation && before.active_request is None && 1
                <= requested_edge <= 256 && before.next_request_id < u64::MAX;
            &&& possible ==> {
                &&& next == RenderPhase::Sending
                &&& action matches RenderAction::Send { envelope, deadline } && deadline
                    == 12_000_000_000 && envelope.message_type
                    == crate::wire::MessageType::Request && envelope.request_id
                    == before.next_request_id && envelope.operation == (match operation {
                    Operation::ThumbnailPng => 1u16,
                    Operation::ThumbnailPdf => 2u16,
                }) && envelope.requested_edge == requested_edge
                &&& after.active_request == Some(before.next_request_id)
                &&& after.next_request_id == before.next_request_id + 1
                &&& after.generation == before.generation
            }
            &&& !possible ==> {
                &&& after == before
                &&& next == RenderPhase::Resting
                &&& action matches RenderAction::Done(outcome) && !outcome.reusable
                    && outcome.result matches Err(RenderFailure::Prepare(_))
            }
        }),
{
}

/// What a request dies of is what is reported. Only a failure to read the output, and a request
/// that nobody wants any more, leave a worker that can serve again.
pub proof fn render_failures_are_reported<F>(
    before: SessionView,
    generation: WorkerGeneration,
    phase: RenderPhase,
    event: RenderEvent<F>,
    after: SessionView,
    next: RenderPhase,
    action: RenderAction<F>,
)
    requires
        render_may(before, generation, phase, event, after, next, action),
    ensures
        event matches RenderEvent::Begin { cancelled: true, .. } ==> {
            &&& after == before
            &&& next == RenderPhase::Resting
            &&& action matches RenderAction::Done(outcome)
            && outcome.reusable && outcome.result == Err::<RawThumbnail, RenderFailure>(
            RenderFailure::Cancelled,
        )
        },
        event matches RenderEvent::Sent(Err(error)) ==> {
            &&& after == before
            &&& next == RenderPhase::Resting
            &&& action matches RenderAction::Done(outcome)
            && !outcome.reusable && outcome.result == Err::<RawThumbnail, RenderFailure>(
            RenderFailure::Send(error),
        )
        },
        event matches RenderEvent::Sent(Ok(_)) ==> {
            &&& after == before
            &&& next == RenderPhase::Receiving
            &&& action matches RenderAction::Receive { deadline }
            && deadline == 12_000_000_000
        },
        event matches RenderEvent::Received(Err(error)) ==> {
            &&& after == before
            &&& next == RenderPhase::Resting
            &&& action matches RenderAction::Done(outcome)
            && !outcome.reusable && outcome.result == Err::<RawThumbnail, RenderFailure>(
            RenderFailure::Receive(error),
        )
        },
        event matches RenderEvent::OutputRead(Err(error)) ==> {
            &&& after == before
            &&& next == RenderPhase::Resting
            &&& action matches RenderAction::Done(outcome)
            && outcome.reusable && outcome.result == Err::<RawThumbnail, RenderFailure>(
            RenderFailure::Read(error),
        )
        },
        event matches RenderEvent::Interrupted(error) ==> {
            &&& after == before
            &&& next == RenderPhase::Resting
            &&& action matches RenderAction::Done(outcome)
            && !outcome.reusable && outcome.result == Err::<RawThumbnail, RenderFailure>(
            RenderFailure::Pool(error),
        )
        },
{
}

/// A reply is read exactly if it answers the request in progress with raw pixels: a shape from 1
/// to 256 pixels either way, four bytes a pixel, in one sealed regular file of just that length.
/// What is read is that file, and the request is answered.
pub proof fn only_sound_pictures_are_read<F>(
    before: SessionView,
    generation: WorkerGeneration,
    packet: Packet<F>,
    after: SessionView,
    next: RenderPhase,
    action: RenderAction<F>,
)
    requires
        render_may(
            before,
            generation,
            RenderPhase::Receiving,
            RenderEvent::Received(Ok(packet)),
            after,
            next,
            action,
        ),
    ensures
        ({
            let reply = packet.envelope;
            let sound = {
                &&& before.active_request == Some(reply.request_id)
                &&& reply.message_type == crate::wire::MessageType::Reply
                &&& reply.request_id != 0
                &&& reply.status == 0
                &&& reply.operation == 1
                &&& reply.representation == 2
                &&& 1 <= reply.width <= 256
                &&& 1 <= reply.height <= 256
                &&& reply.stride == 4 * reply.width
                &&& reply.output_len == 4 * reply.width * reply.height
                &&& packet.fds@.len() == 1
                &&& packet.fds@[0].status matches Ok(status) && status.mode & 0o170000 == 0o100000
                    && status.size == reply.output_len
                &&& packet.fds@[0].seals matches Ok(seals) && seals & 0x0f == 0x0f
            };
            &&& sound ==> {
                &&& action matches RenderAction::Read(output) && output.handle()
                    == packet.fds@[0].handle && output.described().output_len == reply.output_len
                &&& next matches RenderPhase::Reading(metadata) && metadata.width == reply.width
                    && metadata.height == reply.height && metadata.stride == reply.stride
                    && metadata.output_len == reply.output_len && metadata.representation
                    == Representation::Rgba8
                &&& after.active_request is None
                &&& after.next_request_id == before.next_request_id
            }
            &&& !sound ==> {
                &&& next == RenderPhase::Resting
                &&& action matches RenderAction::Done(outcome) && outcome.result is Err
            }
        }),
{
    let reply = packet.envelope;
    assert(reply.width * 4 * reply.height == 4 * reply.width * reply.height) by (nonlinear_arith);
    assert(1 <= reply.width <= 256 && 1 <= reply.height <= 256 ==> 4 <= 4 * reply.width
        * reply.height <= 4 * 256 * 256) by (nonlinear_arith);
    assert(reply.stride == 4 * reply.width ==> reply.stride * reply.height == 4 * reply.width
        * reply.height) by (nonlinear_arith);
}

/// A worker that says it could not render what was asked for, in a reply without descriptors,
/// can serve again; any other refused reply ends it.
pub proof fn only_told_failures_leave_workers<F>(
    before: SessionView,
    generation: WorkerGeneration,
    packet: Packet<F>,
    after: SessionView,
    next: RenderPhase,
    action: RenderAction<F>,
)
    requires
        render_may(
            before,
            generation,
            RenderPhase::Receiving,
            RenderEvent::Received(Ok(packet)),
            after,
            next,
            action,
        ),
        action is Done,
    ensures
        ({
            let told = {
                &&& before.active_request == Some(packet.envelope.request_id)
                &&& packet.envelope.message_type == crate::wire::MessageType::Reply
                &&& packet.envelope.request_id != 0
                &&& packet.envelope.status == 1 || packet.envelope.status == 2
                &&& packet.envelope.output_len == 0
                &&& packet.fds@.len() == 0
            };
            action matches RenderAction::Done(outcome) && outcome.reusable == told && (told
                ==> outcome.result == Err::<RawThumbnail, RenderFailure>(RenderFailure::Undecodable)
                && after.active_request is None) && (!told ==> outcome.result matches Err(
                RenderFailure::InvalidReply(_),
            ))
        }),
{
}

/// Every failure has its words; those that a source, a worker or the pool gave are passed on.
pub proof fn failures_have_words(failure: RenderFailure)
    ensures
        ({
            let words = failure_text(failure);
            match failure {
                RenderFailure::Cancelled => words == "Preview cancelled"@,
                RenderFailure::Snapshot(error) => words == error@,
                RenderFailure::Pool(PoolError::ShutDown) => words
                    == "The thumbnail worker pool is shut down"@,
                RenderFailure::Pool(PoolError::BackedOff) => words
                    == "Thumbnail worker spawning is temporarily backed off"@,
                RenderFailure::Pool(PoolError::NoCapacity) => words
                    == "No thumbnail worker capacity is available"@,
                RenderFailure::Pool(PoolError::GenerationsExhausted) => words
                    == "Unable to allocate thumbnail worker generation"@,
                RenderFailure::Pool(PoolError::Cancelled) => words == "Preview cancelled"@,
                RenderFailure::Pool(PoolError::SnapshotTooLarge) => words
                    == "The source is too large to stage"@,
                RenderFailure::Pool(PoolError::MemoryExceeded) => words
                    == "The thumbnail worker exceeded its memory limit"@,
                RenderFailure::Pool(PoolError::Unmeasured) => words
                    == "The memory of the thumbnail worker could not be measured"@,
                RenderFailure::Startup(error) => words == error@,
                RenderFailure::StartupTimedOut => words
                    == "The thumbnail worker startup timed out"@,
                RenderFailure::Retired => words
                    == "Thumbnail worker retired before receiving the request"@,
                RenderFailure::TimedOut => words == "The thumbnail worker timed out"@,
                RenderFailure::Prepare(_) => words
                    == "Unable to prepare thumbnail worker request: "@,
                RenderFailure::Send(_) => words == "Unable to send thumbnail worker request: "@,
                RenderFailure::Receive(_) => words
                    == "Unable to receive thumbnail worker reply: "@,
                RenderFailure::Read(_) => words == "Unable to read thumbnail worker output: "@,
                RenderFailure::Undecodable => words
                    == "The thumbnail worker could not decode the image"@,
                RenderFailure::InvalidReply(_) => words == "Invalid thumbnail worker reply: "@,
            }
        }),
{
}

/// A thumbnail on its way takes just what answers its last question, and a request on a worker
/// also that it must not go on.
pub proof fn answers_fit_the_questions<F>(
    state: PersistentState,
    event: PersistentEvent,
    phase: RenderPhase,
    news: RenderEvent<F>,
)
    ensures
        persistent_awaits(state, event) <==> {
            ||| state is Fresh && event is Begin
            ||| state is Snapshotting && event is Snapshot
            ||| state is Starting && event is Started
            ||| state is Submitting && event is Submitted
            ||| state is Awaiting && event is Answered
        },
        phase == RenderPhase::Resting ==> (render_awaits(phase, news) <==> news is Begin),
        phase == RenderPhase::Sending ==> (render_awaits(phase, news) <==> news is Sent
            || news is Interrupted),
        phase == RenderPhase::Receiving ==> (render_awaits(phase, news) <==> news is Received
            || news is Interrupted),
        phase is Reading && news is Interrupted ==> render_awaits(phase, news),
        phase is Reading && (news matches RenderEvent::OutputRead(Err(_))) ==> render_awaits(
            phase,
            news,
        ),
{
}

/// A request that cannot begin, and a reply that is refused, are reported with what is wrong; a
/// refused reply leaves the session as it was.
pub proof fn faults_are_passed_on<F>(
    before: SessionView,
    generation: WorkerGeneration,
    phase: RenderPhase,
    event: RenderEvent<F>,
    after: SessionView,
    next: RenderPhase,
    action: RenderAction<F>,
)
    requires
        render_may(before, generation, phase, event, after, next, action),
        action is Done,
    ensures
        (event matches RenderEvent::Begin { requested_edge, cancelled: false, .. } ==> {
            let outcome = action->Done_0;
            &&& generation != before.generation ==> outcome.result == Err::<
                RawThumbnail,
                RenderFailure,
            >(RenderFailure::Prepare(ProtocolError::WorkerGenerationMismatch))
            &&& generation == before.generation ==> outcome.result == Err::<
                RawThumbnail,
                RenderFailure,
            >(RenderFailure::Prepare(ProtocolError::InvalidState))
        }),
        (event matches RenderEvent::Received(Ok(packet)) ==> {
            let outcome = action->Done_0;
            let fault = before.accept_error(packet);
            &&& fault is Some ==> after == before && outcome.result == Err::<
                RawThumbnail,
                RenderFailure,
            >(RenderFailure::InvalidReply(fault->0))
            &&& fault is None && packet.envelope.status == 0 ==> outcome.result == Err::<
                RawThumbnail,
                RenderFailure,
            >(RenderFailure::InvalidReply(ProtocolError::InvalidMetadata)) && !outcome.reusable
        }),
{
}

/// The deadlines of the channel: two seconds to announce, twelve to answer, and one more for the
/// supervisor.
pub proof fn deadlines()
    ensures
        STARTUP_DEADLINE == 2_000_000_000,
        REQUEST_DEADLINE == 12_000_000_000,
        SUPERVISOR_GRACE == 1_000_000_000,
        SPAWN_BACKOFF == 500_000_000,
{
}

/// A worker has failed where it could not be started, did not take the request, gave no answer,
/// or gave one that leaves it unusable; no other news tells of a failed worker.
pub proof fn which_workers_failed(state: PersistentState, event: PersistentEvent)
    ensures
        ({
            let failed = failed_worker(state, event);
            &&& failed is Some <==> {
                ||| state is Starting && event is Started && event->Started_0 is Err
                ||| state is Submitting && event == PersistentEvent::Submitted(false)
                ||| state is Awaiting && event is Answered && (event->Answered_0 is None
                    || !event->Answered_0->0.reusable)
            }
            &&& failed is Some && state is Starting ==> failed->0 == state->Starting_generation
            &&& failed is Some && state is Submitting ==> failed->0 == state->Submitting_generation
            &&& failed is Some && state is Awaiting ==> failed->0 == state->Awaiting_generation
        }),
{
}

/// A supervised worker ends unless it is still waited for, can be used again, has a request or
/// has nothing to do; it renders just where a request came.
pub proof fn supervised_workers_end_in_time(event: SupervisorEvent, action: SupervisorAction)
    requires
        call_ensures(worker_thread, (event,), action),
    ensures
        action is Render <==> event is Render,
        action is Wait <==> {
            ||| event == (SupervisorEvent::Ready { starter_waits: true })
            ||| event == (SupervisorEvent::Rendered { reusable: true })
            ||| event is Quiet
        },
{
}

} // verus!
