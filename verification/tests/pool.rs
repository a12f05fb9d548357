use strata::memory::{process_sample, process_tree_rss, ProcessSample};
use strata::pool::{
    account_rss, checkin_worker, checkout_worker, idle_worker_count, note_spawn_failure,
    note_worker_dead, register_worker, reserve_generation, retire_expired, retire_idle_worker,
    retire_idle_thumbnail_worker_for_oneshot, shutdown_thumbnail_worker_pool, stage,
    total_worker_count, unstage, PoolError, PoolState, StageStep, IDLE_TIMEOUT,
    MAX_PERSISTENT_THUMBNAIL_WORKERS, MAX_STAGED_BYTES, MAX_WORKER_RSS, SPAWN_BACKOFF,
};
use strata::protocol::{
    Descriptor, FileStatus, Packet, ParentSession, WorkerGeneration, REGULAR_FILE,
    REQUIRED_OUTPUT_SEALS,
};
use strata::render::{
    render_persistent_thumbnail, supervise, PersistentAction, PersistentEvent, PersistentState, RawThumbnail,
    RenderAction, RenderEvent, RenderFailure, RenderOutcome, RenderPhase, StartFailure,
    SupervisionStep, SupervisorAction, SupervisorEvent, WorkerRuntime, SUPERVISION_INTERVAL,
};
use strata::source::{FileMetadata, SourceRevision};
use strata::wire::{Operation, ProtocolError, Representation, Status, WireEnvelope};

fn started(pool: &mut PoolState) -> WorkerGeneration {
    let generation = reserve_generation(pool, 0).expect("slot");
    assert!(register_worker(pool, generation));
    generation
}

#[test]
fn slots_are_free_only_after_reaping() {
    let mut pool = PoolState::new();
    assert_eq!(total_worker_count(&pool), 0);
    let mut workers = Vec::new();
    for _ in 0..MAX_PERSISTENT_THUMBNAIL_WORKERS {
        workers.push(started(&mut pool));
    }
    assert_eq!(
        reserve_generation(&mut pool, 0),
        Err(PoolError::NoCapacity)
    );
    assert!(checkin_worker(&mut pool, workers[0], 0));
    assert!(!checkin_worker(&mut pool, workers[0], 0));
    assert!(retire_idle_worker(&mut pool, workers[0]));
    assert!(!retire_idle_worker(&mut pool, workers[0]));
    assert_eq!(
        reserve_generation(&mut pool, 0),
        Err(PoolError::NoCapacity)
    );
    note_worker_dead(&mut pool, workers[0]);
    assert!(!pool.has_slot(workers[0]));
    assert_eq!(
        total_worker_count(&pool),
        MAX_PERSISTENT_THUMBNAIL_WORKERS - 1
    );
    note_worker_dead(&mut pool, workers[0]);
    assert_eq!(
        total_worker_count(&pool),
        MAX_PERSISTENT_THUMBNAIL_WORKERS - 1
    );
    let next = reserve_generation(&mut pool, 0).expect("free slot");
    assert_eq!(next.value(), MAX_PERSISTENT_THUMBNAIL_WORKERS as u64 + 1);
    assert!(!register_worker(&mut pool, workers[0]));
}

#[test]
fn idle_workers_are_reused_and_expire_after_their_last_checkin() {
    let mut pool = PoolState::new();
    let worker = started(&mut pool);
    let base = 1_000;
    assert!(checkin_worker(&mut pool, worker, base));
    for _ in 0..100 {
        assert_eq!(checkout_worker(&mut pool), Some(worker));
        assert!(checkin_worker(&mut pool, worker, base + 10));
    }
    assert_eq!(retire_expired(&mut pool, base + IDLE_TIMEOUT), vec![]);
    assert_eq!(idle_worker_count(&pool), 1);
    assert_eq!(
        retire_expired(&mut pool, base + 10 + IDLE_TIMEOUT),
        vec![worker]
    );
    assert_eq!(idle_worker_count(&pool), 0);
    assert_eq!(total_worker_count(&pool), 1);
    note_worker_dead(&mut pool, worker);
    assert_eq!(total_worker_count(&pool), 0);
}

#[test]
fn one_shot_renderers_take_the_latest_idle_slot() {
    let mut pool = PoolState::new();
    let first = started(&mut pool);
    let second = started(&mut pool);
    assert_eq!(retire_idle_thumbnail_worker_for_oneshot(&mut pool), None);
    assert!(checkin_worker(&mut pool, first, 0));
    assert!(checkin_worker(&mut pool, second, 0));
    assert_eq!(
        retire_idle_thumbnail_worker_for_oneshot(&mut pool),
        Some(second)
    );
    assert_eq!(total_worker_count(&pool), 2);
    note_worker_dead(&mut pool, second);
    assert_eq!(total_worker_count(&pool), 1);
    assert_eq!(checkout_worker(&mut pool), Some(first));
    assert_eq!(checkout_worker(&mut pool), None);
}

#[test]
fn crash_backoff_and_staging_and_rss_budgets_are_process_wide() {
    let mut pool = PoolState::new();
    note_spawn_failure(&mut pool, 100);
    assert_eq!(checkout_worker(&mut pool), None);
    assert_eq!(
        reserve_generation(&mut pool, 99 + SPAWN_BACKOFF),
        Err(PoolError::BackedOff)
    );
    assert_eq!(total_worker_count(&pool), 0);
    assert!(reserve_generation(&mut pool, 100 + SPAWN_BACKOFF).is_ok());

    assert_eq!(stage(&mut pool, MAX_STAGED_BYTES, false), StageStep::Granted);
    assert_eq!(pool.staged_bytes(), MAX_STAGED_BYTES);
    assert_eq!(stage(&mut pool, 1, false), StageStep::Wait);
    assert_eq!(
        stage(&mut pool, 1, true),
        StageStep::Refused(PoolError::Cancelled)
    );
    unstage(&mut pool, MAX_STAGED_BYTES);
    assert_eq!(pool.staged_bytes(), 0);
    assert_eq!(
        stage(&mut pool, MAX_STAGED_BYTES + 1, false),
        StageStep::Refused(PoolError::SnapshotTooLarge)
    );

    let worker = |number: u64| WorkerGeneration::new(number).expect("generation");
    assert_eq!(
        account_rss(&mut pool, worker(1), MAX_WORKER_RSS + 1),
        Err(PoolError::MemoryExceeded)
    );
    assert!(account_rss(&mut pool, worker(1), MAX_WORKER_RSS).is_ok());
    assert!(account_rss(&mut pool, worker(2), MAX_WORKER_RSS).is_ok());
    assert!(account_rss(&mut pool, worker(3), 1).is_err());
    assert!(account_rss(&mut pool, worker(2), MAX_WORKER_RSS - 1).is_ok());
    assert!(account_rss(&mut pool, worker(3), 1).is_ok());
    assert_eq!(
        PoolError::BackedOff.message(),
        "Thumbnail worker spawning is temporarily backed off"
    );
    assert_eq!(
        PoolError::NoCapacity.message(),
        "No thumbnail worker capacity is available"
    );
}

#[test]
fn shutdown_ends_workers_and_starts_no_more() {
    let mut pool = PoolState::new();
    let idle = started(&mut pool);
    let lent = started(&mut pool);
    assert!(checkin_worker(&mut pool, idle, 0));
    assert_eq!(
        shutdown_thumbnail_worker_pool(&mut pool),
        vec![idle, lent]
    );
    assert!(pool.is_shut_down());
    assert_eq!(idle_worker_count(&pool), 0);
    assert_eq!(total_worker_count(&pool), 2);
    assert_eq!(reserve_generation(&mut pool, 0), Err(PoolError::ShutDown));
    assert!(!checkin_worker(&mut pool, lent, 0));
    note_worker_dead(&mut pool, idle);
    note_worker_dead(&mut pool, lent);
    assert_eq!(total_worker_count(&pool), 0);
    assert_eq!(reserve_generation(&mut pool, 0), Err(PoolError::ShutDown));
    assert_eq!(
        stage(&mut pool, 1, false),
        StageStep::Refused(PoolError::ShutDown)
    );
}

fn runtime() -> WorkerRuntime {
    let generation = WorkerGeneration::new(1).expect("generation");
    WorkerRuntime {
        session: ParentSession::new(generation),
        generation,
    }
}

fn begin(edge: u16, cancelled: bool) -> RenderEvent<u8> {
    RenderEvent::Begin {
        operation: Operation::ThumbnailPng,
        requested_edge: edge,
        cancelled,
    }
}

fn done(step: (RenderPhase, RenderAction<u8>)) -> RenderOutcome {
    match step {
        (RenderPhase::Resting, RenderAction::Done(outcome)) => outcome,
        other => panic!("unexpected step {other:?}"),
    }
}

fn output(size: i64) -> Descriptor<u8> {
    Descriptor {
        handle: 6,
        status: Ok(FileStatus {
            mode: REGULAR_FILE,
            size,
        }),
        seals: Ok(REQUIRED_OUTPUT_SEALS),
    }
}

#[test]
fn renders_give_raw_pixels_and_keep_the_worker() {
    let mut worker = runtime();
    let (phase, action) = worker.render(RenderPhase::Resting, begin(16, false));
    assert!(matches!(
        action,
        RenderAction::Send { envelope, .. } if envelope == WireEnvelope::request(1, 1, 16)
    ));
    let (phase, action) = worker.render::<u8>(phase, RenderEvent::Sent(Ok(())));
    assert!(matches!(action, RenderAction::Receive { .. }));
    let reply = Packet {
        envelope: WireEnvelope::reply(1, Status::Success, Representation::Rgba8, 2, 1, 8, 8),
        fds: vec![output(8)],
    };
    let (phase, action) = worker.render(phase, RenderEvent::Received(Ok(reply)));
    assert!(matches!(action, RenderAction::Read(_)));
    let outcome = done(worker.render(phase, RenderEvent::OutputRead(Ok(vec![3; 8]))));
    assert!(outcome.reusable);
    assert_eq!(
        outcome.result,
        Ok(RawThumbnail {
            pixels: vec![3; 8],
            width: 2,
            height: 1,
            stride: 8
        })
    );

    let (phase, _) = worker.render(RenderPhase::Resting, begin(16, false));
    let (phase, _) = worker.render::<u8>(phase, RenderEvent::Sent(Ok(())));
    let failure = Packet {
        envelope: WireEnvelope::reply(2, Status::DecodeFailed, Representation::Png, 0, 0, 0, 0),
        fds: Vec::new(),
    };
    let outcome = done(worker.render(phase, RenderEvent::Received(Ok(failure))));
    assert!(outcome.reusable);
    assert_eq!(outcome.result, Err(RenderFailure::Undecodable));

    let outcome = done(worker.render(RenderPhase::Resting, begin(16, true)));
    assert!(outcome.reusable);
    assert_eq!(outcome.result, Err(RenderFailure::Cancelled));
}

#[test]
fn broken_workers_are_not_used_again() {
    let outcome = done(runtime().render(RenderPhase::Resting, begin(0, false)));
    assert!(!outcome.reusable);
    assert_eq!(
        outcome.result,
        Err(RenderFailure::Prepare(ProtocolError::InvalidState))
    );
    let outcome = done(runtime().render(
        RenderPhase::Sending,
        RenderEvent::Sent(Err(ProtocolError::Timeout)),
    ));
    assert!(!outcome.reusable);
    let outcome = done(runtime().render(
        RenderPhase::Receiving,
        RenderEvent::Received(Err(ProtocolError::PeerClosed)),
    ));
    assert!(!outcome.reusable);
    assert_eq!(
        outcome.result,
        Err(RenderFailure::Receive(ProtocolError::PeerClosed))
    );
    let mut worker = runtime();
    let (phase, _) = worker.render(RenderPhase::Resting, begin(16, false));
    let (phase, _) = worker.render::<u8>(phase, RenderEvent::Sent(Ok(())));
    let encoded = Packet {
        envelope: WireEnvelope::reply(1, Status::Success, Representation::Png, 2, 1, 0, 8),
        fds: vec![output(8)],
    };
    let outcome = done(worker.render(phase, RenderEvent::Received(Ok(encoded))));
    assert!(!outcome.reusable);
    assert_eq!(
        outcome.result,
        Err(RenderFailure::InvalidReply(ProtocolError::InvalidMetadata))
    );
    let failure = RenderFailure::Send(ProtocolError::Timeout);
    assert_eq!(failure.message(), "Unable to send thumbnail worker request: ");
    assert_eq!(failure.cause(), Some(ProtocolError::Timeout));
    assert_eq!(RenderFailure::Retired.cause(), None);
    assert_eq!(
        RenderFailure::Pool(PoolError::NoCapacity).message(),
        "No thumbnail worker capacity is available"
    );
}

#[test]
fn shutdown_and_memory_end_active_renders() {
    for phase in [RenderPhase::Sending, RenderPhase::Receiving] {
        let outcome =
            done(runtime().render(phase, RenderEvent::Interrupted(PoolError::ShutDown)));
        assert!(!outcome.reusable);
        assert_eq!(
            outcome.result,
            Err(RenderFailure::Pool(PoolError::ShutDown))
        );
    }
    assert_eq!(
        supervise(true, Ok(()), 0, 10),
        SupervisionStep::Interrupt(PoolError::ShutDown)
    );
    assert_eq!(
        supervise(false, Err(PoolError::MemoryExceeded), 0, 10),
        SupervisionStep::Interrupt(PoolError::MemoryExceeded)
    );
    assert_eq!(supervise(false, Ok(()), 10, 10), SupervisionStep::TimedOut);
    assert_eq!(supervise(false, Ok(()), 4, 10), SupervisionStep::Wait(6));
    assert_eq!(
        supervise(false, Ok(()), 0, u128::MAX),
        SupervisionStep::Wait(SUPERVISION_INTERVAL)
    );
}

fn sampled(pid: u64, parent: u64, start: u64, resident: u64) -> ProcessSample {
    ProcessSample {
        pid,
        parent,
        start,
        resident,
    }
}

#[test]
fn resource_measurement_follows_descendants_and_checks_host_identity() {
    let processes = [
        sampled(44, 43, 930, 4),
        sampled(1, 0, 5, 1_000),
        sampled(43, 42, 920, 2),
        sampled(42, 1, 900, 1),
        sampled(50, 1, 940, 500),
    ];
    assert_eq!(process_tree_rss(&processes, 42, 900), Ok(7));
    assert_eq!(
        process_tree_rss(&processes, 42, 901),
        Err(PoolError::Unmeasured)
    );
    assert_eq!(
        process_tree_rss(&processes, 45, 900),
        Err(PoolError::Unmeasured)
    );
    assert_eq!(process_tree_rss(&processes, 50, 940), Ok(500));
    assert_eq!(
        process_tree_rss(&[sampled(7, 7, 1, u64::MAX), sampled(8, 7, 2, 1)], 7, 1),
        Ok(u64::MAX)
    );
}

#[test]
fn process_table_lines_are_read_behind_the_name() {
    let line = b"4242 (sh) S 17 4242 4242 0 -1 4194304 100 0 0 0 0 0 0 0 20 0 1 0 900 8000000 300 18446744073709551615\n";
    assert_eq!(
        process_sample(line, 4096),
        Some(sampled(4242, 17, 900, 300 * 4096))
    );
    let odd = b"9 (a) b) (c) R 3 9 9 0 -1 0 0 0 0 0 0 0 0 0 20 0 1 0 77 0 2 0";
    assert_eq!(process_sample(odd, 10), Some(sampled(9, 3, 77, 20)));
    assert_eq!(
        process_sample(odd, u64::MAX),
        Some(sampled(9, 3, 77, u64::MAX))
    );
    assert_eq!(process_sample(b"", 4096), None);
    assert_eq!(process_sample(b"9 (sh) S 3", 4096), None);
    assert_eq!(process_sample(b"9 sh S 3 9 9 0 -1 0 0 0", 4096), None);
    let long = b"9 (a) R 3 9 9 0 -1 0 0 0 0 0 0 0 0 0 20 0 1 0 18446744073709551616 0 2 0";
    assert_eq!(process_sample(long, 1), None);
}

fn fresh() -> PersistentState {
    PersistentState::Fresh {
        operation: Operation::ThumbnailPdf,
        wanted_edge: 1_000,
    }
}

fn snapshot() -> PersistentEvent {
    PersistentEvent::Snapshot {
        taken: Ok(()),
        cancelled: false,
    }
}

fn finished(step: (PersistentState, PersistentAction)) -> Result<RawThumbnail, RenderFailure> {
    match step {
        (PersistentState::Finished, PersistentAction::Finish { result, .. }) => result,
        other => panic!("unexpected step {other:?}"),
    }
}

#[test]
fn thumbnails_start_and_reuse_workers() {
    let mut pool = PoolState::new();
    let begin = PersistentEvent::Begin { cancelled: false };
    let (state, action) = render_persistent_thumbnail(&mut pool, fresh(), begin, 0);
    assert!(matches!(action, PersistentAction::TakeSnapshot));
    let (state, action) = render_persistent_thumbnail(&mut pool, state, snapshot(), 0);
    assert!(matches!(
        action,
        PersistentAction::Start { generation, limit: 3_000_000_000 } if generation.value() == 1
    ));
    let (state, action) =
        render_persistent_thumbnail(&mut pool, state, PersistentEvent::Started(Ok(())), 0);
    assert!(matches!(
        action,
        PersistentAction::Submit {
            operation: Operation::ThumbnailPdf,
            requested_edge: 256,
            ..
        }
    ));
    let (state, action) =
        render_persistent_thumbnail(&mut pool, state, PersistentEvent::Submitted(true), 0);
    assert!(matches!(
        action,
        PersistentAction::Await {
            limit: 13_000_000_000,
            ..
        }
    ));
    let answer = RenderOutcome {
        result: Err(RenderFailure::Undecodable),
        reusable: true,
    };
    let step = render_persistent_thumbnail(
        &mut pool,
        state,
        PersistentEvent::Answered(Some(answer)),
        7,
    );
    assert_eq!(finished(step), Err(RenderFailure::Undecodable));
    assert_eq!(idle_worker_count(&pool), 1);

    let begin = PersistentEvent::Begin { cancelled: false };
    let (state, _) = render_persistent_thumbnail(&mut pool, fresh(), begin, 8);
    let (state, action) = render_persistent_thumbnail(&mut pool, state, snapshot(), 8);
    assert!(matches!(
        action,
        PersistentAction::Submit { generation, .. } if generation.value() == 1
    ));
    let (state, _) =
        render_persistent_thumbnail(&mut pool, state, PersistentEvent::Submitted(true), 8);
    let step =
        render_persistent_thumbnail(&mut pool, state, PersistentEvent::Answered(None), 9);
    assert_eq!(finished(step), Err(RenderFailure::TimedOut));
    assert_eq!(total_worker_count(&pool), 0);
    assert_eq!(
        reserve_generation(&mut pool, 10),
        Err(PoolError::BackedOff)
    );
}

#[test]
fn thumbnails_give_up_before_and_after_the_snapshot() {
    let mut pool = PoolState::new();
    let cancelled = PersistentEvent::Begin { cancelled: true };
    let step = render_persistent_thumbnail(&mut pool, fresh(), cancelled, 0);
    assert_eq!(finished(step), Err(RenderFailure::Cancelled));
    let waiting = PersistentState::Snapshotting {
        operation: Operation::ThumbnailPng,
        requested_edge: 64,
    };
    let late = PersistentEvent::Snapshot {
        taken: Ok(()),
        cancelled: true,
    };
    let step = render_persistent_thumbnail(&mut pool, waiting, late, 0);
    assert_eq!(finished(step), Err(RenderFailure::Cancelled));
    let unreadable = PersistentEvent::Snapshot {
        taken: Err("gone".to_owned()),
        cancelled: false,
    };
    let step = render_persistent_thumbnail(&mut pool, waiting, unreadable, 0);
    assert_eq!(finished(step), Err(RenderFailure::Snapshot("gone".to_owned())));

    let (state, _) = render_persistent_thumbnail(&mut pool, waiting, snapshot(), 0);
    let failed = PersistentEvent::Started(Err(StartFailure::TimedOut));
    let step = render_persistent_thumbnail(&mut pool, state, failed, 0);
    assert_eq!(finished(step), Err(RenderFailure::StartupTimedOut));
    let step = render_persistent_thumbnail(&mut pool, waiting, snapshot(), 1);
    assert_eq!(
        finished(step),
        Err(RenderFailure::Pool(PoolError::BackedOff))
    );
    let (state, _) = render_persistent_thumbnail(&mut pool, waiting, snapshot(), SPAWN_BACKOFF);
    let failed = PersistentEvent::Started(Err(StartFailure::Failed("no sandbox".to_owned())));
    let step = render_persistent_thumbnail(&mut pool, state, failed, SPAWN_BACKOFF);
    assert_eq!(
        finished(step),
        Err(RenderFailure::Startup("no sandbox".to_owned()))
    );
    let (state, _) =
        render_persistent_thumbnail(&mut pool, waiting, snapshot(), 2 * SPAWN_BACKOFF);
    let (state, _) = render_persistent_thumbnail(
        &mut pool,
        state,
        PersistentEvent::Started(Ok(())),
        2 * SPAWN_BACKOFF,
    );
    let step = render_persistent_thumbnail(
        &mut pool,
        state,
        PersistentEvent::Submitted(false),
        2 * SPAWN_BACKOFF,
    );
    assert_eq!(finished(step), Err(RenderFailure::Retired));
    assert_eq!(total_worker_count(&pool), 0);
}

#[test]
fn supervisors_end_workers_that_broke_or_are_told_to() {
    let next = strata::render::worker_thread;
    assert_eq!(next(SupervisorEvent::Quiet), SupervisorAction::Wait);
    assert_eq!(next(SupervisorEvent::Render), SupervisorAction::Render);
    for (event, action) in [
        (
            SupervisorEvent::Ready {
                starter_waits: true,
            },
            SupervisorAction::Wait,
        ),
        (
            SupervisorEvent::Ready {
                starter_waits: false,
            },
            SupervisorAction::Terminate,
        ),
        (
            SupervisorEvent::Rendered { reusable: true },
            SupervisorAction::Wait,
        ),
        (
            SupervisorEvent::Rendered { reusable: false },
            SupervisorAction::Terminate,
        ),
        (SupervisorEvent::Retire, SupervisorAction::Terminate),
        (SupervisorEvent::Shutdown, SupervisorAction::Terminate),
        (SupervisorEvent::Disconnected, SupervisorAction::Terminate),
    ] {
        assert_eq!(next(event), action);
    }
}

fn metadata(path: &std::path::Path) -> Result<FileMetadata, String> {
    let stat = rustix::fs::stat(path).map_err(|error| error.to_string())?;
    Ok(FileMetadata {
        is_file: rustix::fs::FileType::from_raw_mode(stat.st_mode).is_file(),
        device: stat.st_dev,
        inode: stat.st_ino,
        size: stat.st_size as u64,
        modified: stat.st_mtime,
        modified_ns: stat.st_mtime_nsec as i64,
        changed: stat.st_ctime,
        changed_ns: stat.st_ctime_nsec as i64,
    })
}

fn read(path: &std::path::Path) -> Result<SourceRevision, String> {
    SourceRevision::read(metadata(path))
}

fn write(path: &std::path::Path, bytes: &[u8]) -> rustix::fd::OwnedFd {
    let file = rustix::fs::open(
        path,
        rustix::fs::OFlags::WRONLY
            .union(rustix::fs::OFlags::CREATE)
            .union(rustix::fs::OFlags::TRUNC),
        rustix::fs::Mode::from_raw_mode(0o600),
    )
    .expect("open source");
    rustix::io::write(&file, bytes).expect("write source");
    file
}

fn set_modified(file: &rustix::fd::OwnedFd, seconds: i64, nanoseconds: i64) {
    let time = rustix::fs::Timespec {
        tv_sec: seconds,
        tv_nsec: nanoseconds,
    };
    rustix::fs::futimens(
        file,
        &rustix::fs::Timestamps {
            last_access: time,
            last_modification: time,
        },
    )
    .expect("preserved mtime");
}

#[test]
fn replacements_with_identical_size_and_mtime_have_distinct_revisions() {
    let root = tempfile::tempdir().expect("fixture directory");
    let path = root.path().join("source");
    write(&path, b"old");
    let before = read(&path).expect("original revision");
    let replacement = root.path().join("replacement");
    let file = write(&replacement, b"new");
    set_modified(&file, before.modified, before.modified_ns);
    rustix::fs::rename(&replacement, &path).expect("replace source");
    assert!(!before.matches(read(&path)));
    let after = read(&path).expect("new revision");
    assert_eq!(before.size, after.size);
    assert_eq!(before.modified, after.modified);
    assert_ne!(before.cache_stamp(), after.cache_stamp());
}

#[test]
fn subsecond_mutations_and_nonregular_sources_are_rejected() {
    let root = tempfile::tempdir().expect("fixture directory");
    let path = root.path().join("source");
    let file = write(&path, b"old");
    set_modified(&file, 100, 0);
    let before = read(&path).expect("revision");
    set_modified(&file, 100, 1);
    assert!(!before.matches(read(&path)));
    assert!(read(root.path()).is_err());
}

#[test]
fn stamps_list_every_field() {
    let metadata = FileMetadata {
        is_file: true,
        device: 1,
        inode: 22,
        size: u64::MAX,
        modified: -4,
        modified_ns: 5,
        changed: i64::MIN,
        changed_ns: 0,
    };
    let revision = SourceRevision::from_metadata(&metadata).expect("revision");
    assert_eq!(
        revision.cache_stamp(),
        "1:22:18446744073709551615:-4:5:-9223372036854775808:0"
    );
    assert!(revision.matches(Ok(revision)));
    assert!(!revision.matches(Err("gone".to_owned())));
    assert_eq!(
        SourceRevision::from_metadata(&FileMetadata {
            is_file: false,
            ..metadata
        }),
        Err("Thumbnail input is not a regular file".to_owned())
    );
    assert_eq!(
        SourceRevision::read(Err("denied".to_owned())),
        Err("denied".to_owned())
    );
}
