use std::io::{IoSlice, IoSliceMut};
use std::mem::MaybeUninit;
use std::time::{Duration, Instant};

use rustix::event::{poll, PollFd, PollFlags, Timespec};
use rustix::fd::{AsFd, BorrowedFd, OwnedFd};
use rustix::fs::{fcntl_get_seals, fstat, memfd_create, MemfdFlags, SealFlags};
use rustix::io::Errno;
use rustix::net::{
    recvmsg, sendmsg, socketpair, AddressFamily, RecvAncillaryBuffer, RecvAncillaryMessage,
    RecvFlags, ReturnFlags, SendAncillaryBuffer, SendAncillaryMessage, SendFlags, SocketFlags,
    SocketType,
};
use strata::protocol::{
    check_ready, unsupported_reply, validate_output_metadata, validate_reply_packet,
    validate_request, validate_snapshot_request, Descriptor, FileStatus, JobReply, OutputReader,
    Packet, ParentSession, ValidatedOutput, WorkerGeneration, FILE_TYPE_MASK, MAX_EDGE,
    READ_CHUNK_BYTES, REGULAR_FILE, REQUIRED_OUTPUT_SEALS, STARTUP_DEADLINE,
    THUMBNAIL_OUTPUT_CAP_BYTES,
};
use strata::transport::{
    call_step, check_expected_fds, check_sent, open_packet, outgoing_packet, poll_step, wait_step,
    Ancillary, CallStep, PollTimeout, Received, SealedWrite, WaitStep, CONTROL_TRUNCATED,
    INTERRUPTED, PACKET_TRUNCATED, POLL_GONE, SECOND, WOULD_BLOCK,
};
use strata::wire::{
    MessageType, Operation, ProtocolError, ProtocolResult, Representation, Status, WireEnvelope,
    CONTROL_PACKET_BYTES,
};

const TEST_DEADLINE: Duration = Duration::from_secs(1);
const RIGHTS_SPACE: usize = 64;

fn control_socketpair() -> (OwnedFd, OwnedFd) {
    socketpair(
        AddressFamily::UNIX,
        SocketType::SEQPACKET,
        SocketFlags::CLOEXEC.union(SocketFlags::NONBLOCK),
        None,
    )
    .expect("socketpair")
}

fn describe(handle: OwnedFd) -> Descriptor<OwnedFd> {
    let status = fstat(&handle)
        .map(|stat| FileStatus {
            mode: stat.st_mode,
            size: stat.st_size,
        })
        .map_err(|error| error.raw_os_error());
    let seals = fcntl_get_seals(&handle)
        .map(|seals| seals.bits())
        .map_err(|error| error.raw_os_error());
    Descriptor {
        handle,
        status,
        seals,
    }
}

fn wait_for(socket: BorrowedFd<'_>, events: PollFlags, timeout: Duration) -> ProtocolResult<()> {
    let started = Instant::now();
    loop {
        let limit = wait_step(started.elapsed().as_nanos(), timeout.as_nanos())?;
        let timespec = Timespec {
            tv_sec: limit.seconds,
            tv_nsec: limit.nanoseconds,
        };
        let mut pollfd = [PollFd::from_borrowed_fd(socket, events)];
        let result = poll(&mut pollfd, Some(&timespec))
            .map(|ready| (ready, pollfd[0].revents().bits()))
            .map_err(|error| error.raw_os_error());
        match poll_step(events.bits(), result) {
            WaitStep::Ready => return Ok(()),
            WaitStep::Again => continue,
            WaitStep::Failed(error) => return Err(error),
        }
    }
}

fn send_packet(
    socket: BorrowedFd<'_>,
    envelope: WireEnvelope,
    fds: &[BorrowedFd<'_>],
    deadline: Duration,
) -> ProtocolResult<()> {
    let encoded = outgoing_packet(envelope, fds.len())?;
    wait_for(socket, PollFlags::OUT, deadline)?;
    loop {
        let mut space = [MaybeUninit::<u8>::uninit(); RIGHTS_SPACE];
        let mut ancillary = SendAncillaryBuffer::new(&mut space);
        if !fds.is_empty() {
            assert!(ancillary.push(SendAncillaryMessage::ScmRights(fds)));
        }
        let result = sendmsg(
            socket,
            &[IoSlice::new(&encoded)],
            &mut ancillary,
            SendFlags::NOSIGNAL,
        )
        .map_err(|error| error.raw_os_error());
        match call_step(result) {
            CallStep::Done(sent) => return check_sent(sent),
            CallStep::Again => continue,
            CallStep::Failed(error) => return Err(error),
        }
    }
}

fn recv_packet(
    socket: BorrowedFd<'_>,
    deadline: Duration,
    expected_fds: usize,
) -> ProtocolResult<Packet<OwnedFd>> {
    check_expected_fds(expected_fds)?;
    wait_for(socket, PollFlags::IN, deadline)?;
    loop {
        let mut buffer = [0u8; CONTROL_PACKET_BYTES];
        let mut space = [MaybeUninit::<u8>::uninit(); RIGHTS_SPACE];
        let mut control = RecvAncillaryBuffer::new(&mut space);
        let result = recvmsg(
            socket,
            &mut [IoSliceMut::new(&mut buffer)],
            &mut control,
            RecvFlags::CMSG_CLOEXEC.union(RecvFlags::TRUNC),
        );
        let flags = result.as_ref().map_or(0, |message| message.flags.bits());
        let count = result
            .map(|message| message.bytes)
            .map_err(|error| error.raw_os_error());
        match call_step(count) {
            CallStep::Done(bytes) => {
                let mut ancillary = Vec::new();
                for item in control.drain() {
                    ancillary.push(match item {
                        RecvAncillaryMessage::ScmRights(fds) => {
                            Ancillary::Rights(fds.map(describe).collect())
                        }
                        _ => Ancillary::Other,
                    });
                }
                return open_packet(
                    Received {
                        bytes,
                        flags,
                        buffer,
                        ancillary,
                    },
                    expected_fds,
                    expected_fds,
                );
            }
            CallStep::Again => continue,
            CallStep::Failed(error) => return Err(error),
        }
    }
}

fn expect_ready(socket: BorrowedFd<'_>) -> ProtocolResult<()> {
    let deadline = Duration::from_nanos(STARTUP_DEADLINE as u64);
    check_ready(recv_packet(socket, deadline, 0)?)
}

fn sealed_memfd(name: &str, bytes: &[u8]) -> OwnedFd {
    let fd = memfd_create(
        name,
        MemfdFlags::CLOEXEC.union(MemfdFlags::ALLOW_SEALING),
    )
    .expect("memfd");
    let mut progress = SealedWrite::new(bytes);
    while let Some(offset) = progress.next_write() {
        let result =
            rustix::io::write(&fd, &bytes[offset..]).map_err(|error| error.raw_os_error());
        progress.accept_write(result).expect("write");
    }
    rustix::fs::ftruncate(&fd, bytes.len() as u64).expect("truncate");
    rustix::fs::fcntl_add_seals(&fd, SealFlags::from_bits_retain(REQUIRED_OUTPUT_SEALS))
        .expect("seal");
    fd
}

fn read_all(output: ValidatedOutput<OwnedFd>) -> ProtocolResult<Vec<u8>> {
    let (fd, mut reader): (OwnedFd, OutputReader) = output.read_all();
    while let Some((offset, length)) = reader.next_read() {
        let mut chunk = vec![0u8; length];
        let result = rustix::io::pread(&fd, chunk.as_mut_slice(), offset)
            .map(|read| {
                chunk.truncate(read);
                chunk
            })
            .map_err(|error| error.raw_os_error());
        reader.accept_read(result)?;
    }
    Ok(reader.finish())
}

fn packet(envelope: WireEnvelope, fds: Vec<OwnedFd>) -> Packet<OwnedFd> {
    Packet {
        envelope,
        fds: fds.into_iter().map(describe).collect(),
    }
}

fn named_memfd_count(name: &str) -> usize {
    let needle = format!("/memfd:{name}");
    let directory = rustix::fs::open(
        "/proc/self/fd",
        rustix::fs::OFlags::RDONLY.union(rustix::fs::OFlags::CLOEXEC),
        rustix::fs::Mode::empty(),
    )
    .expect("fd dir");
    let mut count = 0;
    for entry in rustix::fs::Dir::read_from(&directory).expect("fd entries") {
        let entry = entry.expect("fd entry");
        if let Ok(target) = rustix::fs::readlinkat(&directory, entry.file_name(), Vec::new()) {
            if target.to_string_lossy().starts_with(&needle) {
                count += 1;
            }
        }
    }
    count
}

fn send_raw_with_fd(socket: BorrowedFd<'_>, envelope: WireEnvelope, fd: BorrowedFd<'_>) {
    let encoded = envelope.encode();
    let mut space = [MaybeUninit::<u8>::uninit(); RIGHTS_SPACE];
    let mut ancillary = SendAncillaryBuffer::new(&mut space);
    let fds = [fd];
    assert!(ancillary.push(SendAncillaryMessage::ScmRights(&fds)));
    let sent = sendmsg(
        socket,
        &[IoSlice::new(&encoded)],
        &mut ancillary,
        SendFlags::NOSIGNAL,
    )
    .expect("sendmsg");
    assert_eq!(sent, CONTROL_PACKET_BYTES);
}

fn success(reply: JobReply<OwnedFd>) -> ValidatedOutput<OwnedFd> {
    match reply {
        JobReply::Success(output) => output,
        JobReply::JobFailure(status) => panic!("unexpected failure {status:?}"),
    }
}

#[test]
fn round_trips_and_multiple_sequential_requests() {
    let (parent, worker) = control_socketpair();
    send_packet(worker.as_fd(), WireEnvelope::ready(), &[], TEST_DEADLINE).expect("ready");
    expect_ready(parent.as_fd()).expect("ready packet");
    let generation = WorkerGeneration::new(1).expect("generation");
    let mut session = ParentSession::new(generation);
    for value in 1..=3u64 {
        let request = session
            .begin_request(generation, Operation::ThumbnailPng, 64)
            .expect("begin");
        send_packet(parent.as_fd(), request, &[], TEST_DEADLINE).expect("send request");

        let request = validate_request(
            recv_packet(worker.as_fd(), TEST_DEADLINE, 0).expect("request packet"),
        )
        .expect("request");
        assert_eq!(request.request_id, value);
        assert_eq!(request.operation, Operation::ThumbnailPng);
        assert_eq!(request.requested_edge, 64);
        let bytes = [value as u8; 16];
        let fd = sealed_memfd("reply", &bytes);
        send_packet(
            worker.as_fd(),
            WireEnvelope::reply(
                request.request_id,
                Status::Success,
                Representation::Png,
                32,
                16,
                0,
                bytes.len() as u64,
            ),
            &[fd.as_fd()],
            TEST_DEADLINE,
        )
        .expect("reply");

        let reply = session
            .accept_reply(recv_packet(parent.as_fd(), TEST_DEADLINE, 1).expect("reply"))
            .expect("accept reply");
        let output = success(reply);
        assert_eq!(output.metadata().width, 32);
        assert_eq!(output.metadata().height, 16);
        assert_eq!(
            read_all(output).expect("read output"),
            vec![value as u8; 16]
        );
    }
}

#[test]
fn pdf_thumbnail_operation_is_a_valid_bounded_request() {
    let (parent, worker) = control_socketpair();
    let generation = WorkerGeneration::new(3).expect("generation");
    let mut session = ParentSession::new(generation);
    let request = session
        .begin_request(generation, Operation::ThumbnailPdf, 128)
        .expect("begin pdf request");
    send_packet(parent.as_fd(), request, &[], TEST_DEADLINE).expect("send pdf request");

    let request = validate_request(
        recv_packet(worker.as_fd(), TEST_DEADLINE, 0).expect("pdf request packet"),
    )
    .expect("pdf request");

    assert_eq!(request.operation, Operation::ThumbnailPdf);
    assert_eq!(request.requested_edge, 128);
}

#[test]
fn unknown_opcode_is_job_failure_and_loop_accepts_next_request() {
    let (parent, worker) = control_socketpair();
    send_packet(worker.as_fd(), WireEnvelope::ready(), &[], TEST_DEADLINE).expect("ready");
    expect_ready(parent.as_fd()).expect("ready");
    let generation = WorkerGeneration::new(7).expect("generation");
    let mut session = ParentSession::new(generation);
    let unknown = session
        .begin_request(generation, Operation::ThumbnailPng, 64)
        .expect("begin unknown");
    send_packet(
        parent.as_fd(),
        WireEnvelope {
            operation: 999,
            ..unknown
        },
        &[],
        TEST_DEADLINE,
    )
    .expect("send unknown");
    let bad = recv_packet(worker.as_fd(), TEST_DEADLINE, 0).expect("bad request");
    assert_eq!(
        validate_request(bad).expect_err("unknown opcode"),
        ProtocolError::InvalidMetadata
    );
    send_packet(worker.as_fd(), unsupported_reply(1), &[], TEST_DEADLINE)
        .expect("unsupported reply");
    assert_eq!(
        match session
            .accept_reply(recv_packet(parent.as_fd(), TEST_DEADLINE, 0).expect("failure reply"))
            .expect("job failure")
        {
            JobReply::JobFailure(status) => status,
            JobReply::Success(_) => panic!("unexpected success"),
        },
        Status::UnsupportedOperation
    );

    let valid = session
        .begin_request(generation, Operation::ThumbnailPng, 64)
        .expect("begin valid");
    send_packet(parent.as_fd(), valid, &[], TEST_DEADLINE).expect("send valid");
    let request =
        validate_request(recv_packet(worker.as_fd(), TEST_DEADLINE, 0).expect("valid request"))
            .expect("valid request");
    let fd = sealed_memfd("reply", b"png");
    send_packet(
        worker.as_fd(),
        WireEnvelope::reply(
            request.request_id,
            Status::Success,
            Representation::Png,
            1,
            1,
            0,
            3,
        ),
        &[fd.as_fd()],
        TEST_DEADLINE,
    )
    .expect("success reply");
    assert!(matches!(
        session.accept_reply(recv_packet(parent.as_fd(), TEST_DEADLINE, 1).expect("success")),
        Ok(JobReply::Success(_))
    ));
}

#[test]
fn malformed_truncated_version_id_status_and_ordering_are_rejected() {
    assert_eq!(
        WireEnvelope::decode(&[0; 4]),
        Err(ProtocolError::MalformedPacket)
    );

    let mut bad_magic = WireEnvelope::ready().encode();
    bad_magic[0] = b'X';
    assert_eq!(
        WireEnvelope::decode(&bad_magic),
        Err(ProtocolError::BadMagic)
    );

    let mut bad_version = WireEnvelope::ready().encode();
    bad_version[4..6].copy_from_slice(&99u16.to_le_bytes());
    assert_eq!(
        WireEnvelope::decode(&bad_version),
        Err(ProtocolError::UnsupportedVersion(99))
    );

    let (a, b) = control_socketpair();
    rustix::net::send(b.as_fd(), &[1, 2, 3], SendFlags::NOSIGNAL).expect("send truncated");
    assert_eq!(
        recv_packet(a.as_fd(), TEST_DEADLINE, 0).expect_err("truncated packet"),
        ProtocolError::TruncatedPacket
    );

    let generation = WorkerGeneration::new(1).expect("generation");
    let mut session = ParentSession::new(generation);
    assert_eq!(
        session.begin_request(
            WorkerGeneration::new(2).expect("generation"),
            Operation::ThumbnailPng,
            64
        ),
        Err(ProtocolError::WorkerGenerationMismatch)
    );
    assert!(session
        .begin_request(generation, Operation::ThumbnailPng, 64)
        .is_ok());
    assert_eq!(
        session.begin_request(generation, Operation::ThumbnailPng, 64),
        Err(ProtocolError::InvalidState)
    );
    assert!(matches!(
        session.accept_reply(packet(
            WireEnvelope::reply(99, Status::Success, Representation::Png, 1, 1, 0, 1),
            Vec::new(),
        )),
        Err(ProtocolError::OrderingViolation)
    ));

    let bad_status = packet(
        WireEnvelope {
            status: 77,
            ..WireEnvelope::reply(1, Status::Success, Representation::Png, 1, 1, 0, 1)
        },
        Vec::new(),
    );
    assert_eq!(
        validate_reply_packet(bad_status).expect_err("bad status"),
        ProtocolError::MalformedPacket
    );
}

#[test]
fn fd_count_cases_and_ancillary_truncation_are_rejected_and_close_descriptors() {
    let (a, b) = control_socketpair();
    let fd = sealed_memfd("extra", b"x");
    send_packet(
        b.as_fd(),
        WireEnvelope::ready(),
        &[fd.as_fd()],
        TEST_DEADLINE,
    )
    .expect("send extra fd");
    assert_eq!(
        recv_packet(a.as_fd(), TEST_DEADLINE, 0).expect_err("extra descriptor"),
        ProtocolError::UnexpectedDescriptors
    );
    drop((a, b, fd));
    assert_eq!(named_memfd_count("extra"), 0);

    let (a, b) = control_socketpair();
    let fd = sealed_memfd("truncated", b"x");
    send_raw_with_fd(b.as_fd(), WireEnvelope::ready(), fd.as_fd());
    let mut buffer = [0u8; CONTROL_PACKET_BYTES];
    let mut iov = [IoSliceMut::new(&mut buffer)];
    let mut tiny = [MaybeUninit::<u8>::uninit(); 1];
    let mut ancillary = RecvAncillaryBuffer::new(&mut tiny);
    let message = recvmsg(
        a.as_fd(),
        &mut iov,
        &mut ancillary,
        RecvFlags::CMSG_CLOEXEC.union(RecvFlags::TRUNC),
    )
    .expect("recvmsg");
    assert!(message.flags.contains(ReturnFlags::CTRUNC));
    let received: Received<OwnedFd> = Received {
        bytes: message.bytes,
        flags: message.flags.bits(),
        buffer,
        ancillary: Vec::new(),
    };
    assert!(matches!(
        open_packet(received, 0, 0),
        Err(ProtocolError::AncillaryTruncated)
    ));
}

#[test]
fn output_validation_rejects_missing_seals_types_lengths_caps_and_metadata() {
    assert_eq!(
        validate_reply_packet(packet(
            WireEnvelope::reply(1, Status::Success, Representation::Png, 1, 1, 0, 1),
            Vec::new(),
        ))
        .expect_err("missing descriptor"),
        ProtocolError::MissingDescriptor
    );

    let unsealed = memfd_create(
        "unsealed",
        MemfdFlags::CLOEXEC.union(MemfdFlags::ALLOW_SEALING),
    )
    .expect("memfd");
    rustix::io::write(&unsealed, b"abc").expect("write");
    assert_eq!(
        validate_reply_packet(packet(
            WireEnvelope::reply(1, Status::Success, Representation::Png, 1, 1, 0, 3),
            vec![unsealed],
        ))
        .expect_err("missing seals"),
        ProtocolError::MissingSeals
    );

    let wrong_len = sealed_memfd("wrong-len", b"abc");
    assert_eq!(
        validate_reply_packet(packet(
            WireEnvelope::reply(1, Status::Success, Representation::Png, 1, 1, 0, 2),
            vec![wrong_len],
        ))
        .expect_err("wrong length"),
        ProtocolError::BadOutputLength
    );

    let too_large = sealed_memfd("too-large", b"x");
    assert_eq!(
        validate_reply_packet(packet(
            WireEnvelope::reply(
                1,
                Status::Success,
                Representation::Png,
                1,
                1,
                0,
                THUMBNAIL_OUTPUT_CAP_BYTES + 1,
            ),
            vec![too_large],
        ))
        .expect_err("too large"),
        ProtocolError::OutputTooLarge
    );

    for envelope in [
        WireEnvelope::reply(1, Status::Success, Representation::Png, 0, 1, 0, 1),
        WireEnvelope::reply(1, Status::Success, Representation::Png, MAX_EDGE + 1, 1, 0, 1),
        WireEnvelope::reply(1, Status::Success, Representation::Png, 1, 1, 4, 1),
        WireEnvelope {
            representation: 99,
            ..WireEnvelope::reply(1, Status::Success, Representation::Png, 1, 1, 0, 1)
        },
    ] {
        let fd = sealed_memfd("bad-meta", b"x");
        assert_eq!(
            validate_reply_packet(packet(envelope, vec![fd])).expect_err("invalid metadata"),
            ProtocolError::InvalidMetadata
        );
    }

    let directory = tempfile::tempdir().expect("tempdir");
    let dir = rustix::fs::open(
        directory.path(),
        rustix::fs::OFlags::RDONLY.union(rustix::fs::OFlags::CLOEXEC),
        rustix::fs::Mode::empty(),
    )
    .expect("open directory");
    assert_eq!(
        validate_reply_packet(packet(
            WireEnvelope::reply(1, Status::Success, Representation::Png, 1, 1, 0, 1),
            vec![dir],
        ))
        .expect_err("wrong descriptor type"),
        ProtocolError::WrongDescriptorType
    );
}

#[test]
fn peer_closure_eagain_bounded_waits_and_allocation_bounds() {
    let (a, b) = control_socketpair();
    drop(b);
    assert_eq!(
        recv_packet(a.as_fd(), TEST_DEADLINE, 0).expect_err("peer closure"),
        ProtocolError::PeerClosed
    );

    let (a, _b) = control_socketpair();
    assert_eq!(
        recv_packet(a.as_fd(), Duration::from_millis(1), 0).expect_err("timeout"),
        ProtocolError::Timeout
    );

    let mut envelope =
        WireEnvelope::reply(1, Status::Success, Representation::Png, 1, 1, 0, u64::MAX);
    assert_eq!(
        validate_output_metadata(&envelope),
        Err(ProtocolError::OutputTooLarge)
    );
    envelope.output_len = THUMBNAIL_OUTPUT_CAP_BYTES;
    assert!(validate_output_metadata(&envelope).is_ok());
}

#[test]
fn raw_rgba_output_requires_exact_stride_and_length() {
    let bytes = vec![0u8; 8];
    let fd = sealed_memfd("raw-output", &bytes);
    let reply = validate_reply_packet(packet(
        WireEnvelope::reply(1, Status::Success, Representation::Rgba8, 1, 2, 4, 8),
        vec![fd],
    ))
    .expect("valid raw output");
    let output = success(reply);
    assert_eq!(output.metadata().representation, Representation::Rgba8);
    assert_eq!(output.metadata().stride, 4);
    assert_eq!(read_all(output).expect("read raw output"), bytes);

    let fd = sealed_memfd("raw-bad-length", &[0u8; 8]);
    assert_eq!(
        validate_reply_packet(packet(
            WireEnvelope::reply(1, Status::Success, Representation::Rgba8, 1, 2, 4, 4),
            vec![fd],
        ))
        .expect_err("wrong raw length"),
        ProtocolError::BadOutputLength
    );

    let fd = sealed_memfd("raw-bad-stride", &[0u8; 8]);
    assert_eq!(
        validate_reply_packet(packet(
            WireEnvelope::reply(1, Status::Success, Representation::Rgba8, 1, 2, 8, 8),
            vec![fd],
        ))
        .expect_err("wrong raw stride"),
        ProtocolError::InvalidMetadata
    );
}

#[test]
fn high_entropy_maximum_size_output_and_requested_edge_succeed() {
    let mut bytes = vec![0u8; THUMBNAIL_OUTPUT_CAP_BYTES as usize];
    let mut state = 0x1234_5678_9abc_def0u64;
    for byte in &mut bytes {
        state = state.wrapping_mul(6364136223846793005).wrapping_add(1);
        *byte = (state >> 32) as u8;
    }
    let fd = sealed_memfd("max-output", &bytes);
    let reply = validate_reply_packet(packet(
        WireEnvelope::reply(
            42,
            Status::Success,
            Representation::Png,
            MAX_EDGE,
            MAX_EDGE,
            0,
            THUMBNAIL_OUTPUT_CAP_BYTES,
        ),
        vec![fd],
    ))
    .expect("validated output");
    let output = success(reply);
    assert_eq!(output.metadata().width, MAX_EDGE);
    assert_eq!(output.metadata().height, MAX_EDGE);
    assert_eq!(read_all(output).expect("read all"), bytes);
}

#[test]
fn disposable_sealed_fixture_can_be_created_without_paths_or_uris() {
    let fixture = sealed_memfd("input-fixture", b"fixture bytes");
    let seals = fcntl_get_seals(&fixture).expect("seals");
    assert!(seals.contains(
        SealFlags::SEAL
            .union(SealFlags::SHRINK)
            .union(SealFlags::GROW)
            .union(SealFlags::WRITE)
    ));
}

#[test]
fn constants_agree_with_the_system() {
    assert_eq!(Errno::INTR.raw_os_error(), INTERRUPTED);
    assert_eq!(Errno::AGAIN.raw_os_error(), WOULD_BLOCK);
    assert_eq!(ReturnFlags::TRUNC.bits(), PACKET_TRUNCATED);
    assert_eq!(ReturnFlags::CTRUNC.bits(), CONTROL_TRUNCATED);
    assert_eq!(PollFlags::HUP.union(PollFlags::ERR).bits(), POLL_GONE);
    assert_eq!(
        SealFlags::SEAL
            .union(SealFlags::SHRINK)
            .union(SealFlags::GROW)
            .union(SealFlags::WRITE)
            .bits(),
        REQUIRED_OUTPUT_SEALS
    );
    let regular = rustix::fs::FileType::RegularFile.as_raw_mode();
    assert_eq!(regular, REGULAR_FILE);
    assert_eq!(regular & FILE_TYPE_MASK, REGULAR_FILE);
}

#[test]
fn packets_have_fixed_bytes_and_survive_a_round_trip() {
    let envelope = WireEnvelope {
        message_type: MessageType::Reply,
        request_id: 0x0102_0304_0506_0708,
        operation: 0x1112,
        requested_edge: 0x1314,
        status: 0x1516,
        representation: 0x1718,
        width: 0x191a,
        height: 0x1b1c,
        stride: 0x1d1e_1f20,
        output_len: 0x2122_2324_2526_2728,
    };
    let expected: [u8; CONTROL_PACKET_BYTES] = [
        b'S', b'T', b'T', b'P', 1, 0, 3, 0, 8, 7, 6, 5, 4, 3, 2, 1, 0x12, 0x11, 0x14, 0x13, 0x16,
        0x15, 0x18, 0x17, 0x1a, 0x19, 0x1c, 0x1b, 0x20, 0x1f, 0x1e, 0x1d, 0x28, 0x27, 0x26, 0x25,
        0x24, 0x23, 0x22, 0x21, 0, 0, 0, 0, 0, 0, 0, 0,
    ];
    assert_eq!(envelope.encode(), expected);
    assert_eq!(WireEnvelope::decode(&expected), Ok(envelope));
    for at in [7usize, 40, 47] {
        let mut reserved = expected;
        reserved[at] = 1;
        assert_eq!(
            WireEnvelope::decode(&reserved),
            Err(ProtocolError::MalformedPacket)
        );
    }
    let mut unknown_type = expected;
    unknown_type[6] = 4;
    assert_eq!(
        WireEnvelope::decode(&unknown_type),
        Err(ProtocolError::MalformedPacket)
    );
}

#[test]
fn wire_numbers_are_read_back() {
    assert_eq!(Operation::from_wire(1), Some(Operation::ThumbnailPng));
    assert_eq!(Operation::from_wire(2), Some(Operation::ThumbnailPdf));
    assert_eq!(Operation::from_wire(3), None);
    for status in [
        Status::Success,
        Status::DecodeFailed,
        Status::UnsupportedOperation,
        Status::ProtocolFailure,
    ] {
        assert_eq!(Status::from_wire(status.to_wire()), Some(status));
    }
    assert_eq!(Status::from_wire(3), None);
    assert_eq!(Representation::from_wire(1), Some(Representation::Png));
    assert_eq!(Representation::from_wire(2), Some(Representation::Rgba8));
    assert_eq!(Representation::from_wire(0), None);
    assert_eq!(MessageType::from_wire(0), None);
}

#[test]
fn failure_replies_carry_nothing_and_keep_the_session_usable() {
    let generation = WorkerGeneration::new(5).expect("generation");
    let mut session = ParentSession::new(generation);
    let stray = packet(unsupported_reply(1), Vec::new());
    assert!(matches!(
        session.accept_reply(stray),
        Err(ProtocolError::UnsolicitedPacket)
    ));
    session
        .begin_request(generation, Operation::ThumbnailPng, MAX_EDGE)
        .expect("begin");
    let loaded = packet(unsupported_reply(1), vec![sealed_memfd("stray", b"x")]);
    assert!(matches!(
        session.accept_reply(loaded),
        Err(ProtocolError::UnexpectedDescriptors)
    ));
    let broken = WireEnvelope::reply(
        1,
        Status::ProtocolFailure,
        Representation::Png,
        0,
        0,
        0,
        0,
    );
    assert!(matches!(
        session.accept_reply(packet(broken, Vec::new())),
        Err(ProtocolError::MalformedPacket)
    ));
    assert!(matches!(
        session.accept_reply(packet(unsupported_reply(1), Vec::new())),
        Ok(JobReply::JobFailure(Status::UnsupportedOperation))
    ));
    let next = session
        .begin_request(generation, Operation::ThumbnailPdf, 1)
        .expect("next request");
    assert_eq!(next.request_id, 2);
    assert!(matches!(
        ParentSession::new(generation).begin_request(generation, Operation::ThumbnailPng, 0),
        Err(ProtocolError::InvalidState)
    ));
    assert!(matches!(
        ParentSession::new(generation).begin_request(
            generation,
            Operation::ThumbnailPng,
            MAX_EDGE + 1
        ),
        Err(ProtocolError::InvalidState)
    ));
    assert!(matches!(
        WorkerGeneration::new(0),
        Err(ProtocolError::WorkerGenerationMismatch)
    ));
}

#[test]
fn snapshot_requests_carry_exactly_their_input() {
    let request = WireEnvelope::request(9, 2, 32);
    let accepted =
        validate_snapshot_request(packet(request, vec![sealed_memfd("input", b"input")]))
            .expect("snapshot request");
    assert_eq!(accepted.request.request_id, 9);
    assert_eq!(accepted.request.operation, Operation::ThumbnailPdf);
    assert_eq!(
        accepted.input.status.expect("status").size,
        b"input".len() as i64
    );
    assert!(matches!(
        validate_snapshot_request(packet(request, Vec::new())),
        Err(ProtocolError::UnexpectedDescriptors)
    ));
    assert!(matches!(
        validate_snapshot_request(packet(
            WireEnvelope {
                status: 1,
                ..request
            },
            vec![sealed_memfd("input", b"input")]
        )),
        Err(ProtocolError::MalformedPacket)
    ));
}

#[test]
fn waits_split_what_is_left_and_read_poll_results() {
    assert_eq!(
        wait_step(SECOND / 2, 3 * SECOND),
        Ok(PollTimeout {
            seconds: 2,
            nanoseconds: 500_000_000
        })
    );
    assert_eq!(wait_step(5, 5), Err(ProtocolError::Timeout));
    assert_eq!(
        wait_step(0, u128::MAX).map(|limit| limit.seconds),
        Ok(i64::MAX)
    );
    let wanted = PollFlags::IN.bits();
    assert_eq!(poll_step(wanted, Ok((0, wanted))), WaitStep::Failed(ProtocolError::Timeout));
    assert_eq!(poll_step(wanted, Ok((1, wanted | 0x10))), WaitStep::Ready);
    assert_eq!(
        poll_step(wanted, Ok((1, 0x8))),
        WaitStep::Failed(ProtocolError::PeerClosed)
    );
    assert_eq!(poll_step(wanted, Ok((1, 0x4))), WaitStep::Again);
    assert_eq!(poll_step(wanted, Err(INTERRUPTED)), WaitStep::Again);
    assert_eq!(
        poll_step(wanted, Err(9)),
        WaitStep::Failed(ProtocolError::Io(9))
    );
    assert_eq!(call_step(Err(INTERRUPTED)), CallStep::Again);
    assert_eq!(
        call_step(Err(WOULD_BLOCK)),
        CallStep::Failed(ProtocolError::Timeout)
    );
    assert_eq!(call_step(Err(32)), CallStep::Failed(ProtocolError::Io(32)));
    assert_eq!(call_step(Ok(48)), CallStep::Done(48));
    assert_eq!(check_sent(47), Err(ProtocolError::TruncatedPacket));
    assert_eq!(check_expected_fds(2), Err(ProtocolError::UnexpectedDescriptors));
    assert_eq!(
        outgoing_packet(WireEnvelope::ready(), 2),
        Err(ProtocolError::UnexpectedDescriptors)
    );
}

#[test]
fn received_messages_are_checked_in_order() {
    let buffer = WireEnvelope::ready().encode();
    let message = |bytes: usize, flags: u32, ancillary: Vec<Ancillary<u8>>| Received {
        bytes,
        flags,
        buffer,
        ancillary,
    };
    let plain = |handle: u8| Descriptor {
        handle,
        status: Err(9),
        seals: Err(9),
    };
    assert!(matches!(
        open_packet(message(0, PACKET_TRUNCATED, Vec::new()), 0, 0),
        Err(ProtocolError::PeerClosed)
    ));
    assert!(matches!(
        open_packet(message(48, PACKET_TRUNCATED | CONTROL_TRUNCATED, Vec::new()), 0, 0),
        Err(ProtocolError::TruncatedPacket)
    ));
    assert!(matches!(
        open_packet(message(48, 0, vec![Ancillary::Other]), 0, 0),
        Err(ProtocolError::UnexpectedDescriptors)
    ));
    assert!(matches!(
        open_packet(message(48, 0, Vec::new()), 1, 1),
        Err(ProtocolError::MissingDescriptor)
    ));
    let two = vec![
        Ancillary::Rights(vec![plain(1)]),
        Ancillary::Rights(vec![plain(2)]),
    ];
    let opened = open_packet(message(48, 0, two), 0, 2).expect("two descriptors");
    assert_eq!(opened.envelope, WireEnvelope::ready());
    assert_eq!(
        opened.fds.iter().map(|fd| fd.handle).collect::<Vec<_>>(),
        vec![1, 2]
    );
    let reply = validate_reply_packet(Packet {
        envelope: WireEnvelope::reply(1, Status::Success, Representation::Png, 1, 1, 0, 1),
        fds: vec![plain(1)],
    });
    assert!(matches!(reply, Err(ProtocolError::Io(9))));
    assert!(matches!(
        check_ready(Packet::<u8> {
            envelope: WireEnvelope::request(1, 1, 1),
            fds: Vec::new()
        }),
        Err(ProtocolError::OrderingViolation)
    ));
}

#[test]
fn reads_and_writes_go_on_until_everything_is_there() {
    let bytes = vec![7u8; 70_000];
    let fd = sealed_memfd("long-output", &bytes);
    let reply = validate_reply_packet(packet(
        WireEnvelope::reply(1, Status::Success, Representation::Png, 1, 1, 0, 70_000),
        vec![fd],
    ))
    .expect("reply");
    let (_fd, mut reader) = success(reply).read_all();
    assert_eq!(reader.next_read(), Some((0, READ_CHUNK_BYTES as usize)));
    assert_eq!(reader.accept_read(Ok(Vec::new())), Err(ProtocolError::PeerClosed));
    assert_eq!(reader.accept_read(Err(5)), Err(ProtocolError::Io(5)));
    assert_eq!(reader.accept_read(Ok(vec![7u8; 65_000])), Ok(()));
    assert_eq!(reader.next_read(), Some((65_000, 5_000)));
    assert_eq!(reader.accept_read(Ok(vec![7u8; 5_000])), Ok(()));
    assert_eq!(reader.next_read(), None);
    assert_eq!(reader.finish(), bytes);

    let mut progress = SealedWrite::new(&bytes);
    assert_eq!(progress.accept_write(Ok(60_000)), Ok(()));
    assert_eq!(progress.next_write(), Some(60_000));
    assert_eq!(progress.accept_write(Ok(0)), Err(ProtocolError::PeerClosed));
    assert_eq!(progress.accept_write(Err(28)), Err(ProtocolError::Io(28)));
    assert_eq!(progress.accept_write(Ok(10_000)), Ok(()));
    assert_eq!(progress.next_write(), None);
    assert_eq!(SealedWrite::new(&[]).next_write(), None);
}
