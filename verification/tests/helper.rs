use std::io::{Read, Seek, SeekFrom, Write};

use strata::command::{
    dcraw_command, imagemagick_commands, simple_dcraw_command, video_thumbnail_command, Argument,
    CommandLine,
};
use strata::fallback::{fallback_step, FallbackStep};
use strata::helper::{
    clamp_edge, page_note, pdf_page_index, render_dcraw, render_imagemagick, render_media,
    render_raw, render_raw_thumbnail, render_simple_dcraw, run, run_thumbnail_worker, start_worker, HelperError, HelperJob, RawRenderer, WorkerAction,
    WorkerError, WorkerEvent, WorkerState,
};
use strata::media::{
    accepted_output, attempt_timeout, media_backends, media_command, numbered_name,
    run_media_backends, MediaBackend, MediaPreviewBackend, HARDWARE_ATTEMPT_TIME_LIMIT,
    HARDWARE_TOTAL_TIME_LIMIT, MEDIA_TOTAL_TIME_LIMIT,
};
use strata::path::{file_name, order_paths, Order};
use strata::pixels::{PixelError, RgbaImage};
use strata::process::{
    read_limit, read_limited, should_start, watch_step, BoundedRun, ReaderNews, RunFailure,
    RunStep, WatchStep, PROCESS_POLL_INTERVAL,
};
use strata::protocol::{
    unsupported_reply, Descriptor, JobReply, Packet, ParentSession, WorkerGeneration,
};
use strata::text::{decimal_string, parse_i32};
use strata::wire::{Operation, ProtocolError, Representation, Status, WireEnvelope};

fn path(text: &str) -> Vec<u8> {
    text.as_bytes().to_vec()
}

fn arguments(backend: &MediaBackend) -> String {
    joined(&media_command(backend, b"/input"))
}

fn joined(command: &CommandLine) -> String {
    command
        .arguments
        .iter()
        .map(|argument| match argument {
            Argument::Text(text) => text.clone(),
            Argument::Path(bytes) => String::from_utf8_lossy(bytes).into_owned(),
        })
        .collect::<Vec<_>>()
        .join(" ")
}

fn copied(backend: &MediaBackend) -> MediaBackend {
    match backend {
        MediaBackend::VaApi(device) => MediaBackend::VaApi(device.clone()),
        MediaBackend::Vulkan(index) => MediaBackend::Vulkan(*index),
        MediaBackend::Software => MediaBackend::Software,
    }
}

#[test]
fn media_backends_are_deterministic_and_ordered() {
    let devices = [
        path("/dev/nvidiactl"),
        path("/dev/dri/renderD129"),
        path("/dev/nvidia0"),
        path("/dev/dri/renderD128"),
    ];

    assert_eq!(
        media_backends(&devices, MediaPreviewBackend::Automatic),
        [
            MediaBackend::VaApi(path("/dev/dri/renderD128")),
            MediaBackend::VaApi(path("/dev/dri/renderD129")),
            MediaBackend::Vulkan(0),
            MediaBackend::Vulkan(1),
            MediaBackend::Software,
        ]
    );
    assert_eq!(
        media_backends(&devices, MediaPreviewBackend::VaApi),
        [
            MediaBackend::VaApi(path("/dev/dri/renderD128")),
            MediaBackend::VaApi(path("/dev/dri/renderD129")),
            MediaBackend::Software,
        ]
    );
    assert_eq!(
        media_backends(&devices, MediaPreviewBackend::Vulkan),
        [
            MediaBackend::Vulkan(0),
            MediaBackend::Vulkan(1),
            MediaBackend::Software,
        ]
    );
    assert_eq!(
        media_backends(&devices, MediaPreviewBackend::Software),
        [MediaBackend::Software]
    );
    assert_eq!(
        media_backends(
            &[path("/dev/nvidia0"), path("/dev/nvidiactl")],
            MediaPreviewBackend::Automatic,
        ),
        [MediaBackend::Vulkan(0), MediaBackend::Software]
    );
}

#[test]
fn hardware_failures_fall_back_and_first_success_stops() {
    let backends = [
        MediaBackend::VaApi(path("/dev/dri/renderD128")),
        MediaBackend::Vulkan(0),
        MediaBackend::Software,
    ];
    let (attempts, result) = run_media_backends(
        &backends,
        Vec::new(),
        |mut attempts: Vec<MediaBackend>, backend: &MediaBackend| {
            attempts.push(copied(backend));
            let outcome = match backend {
                MediaBackend::VaApi(_) => Err(()),
                MediaBackend::Vulkan(_) => Ok(None),
                MediaBackend::Software => Ok(Some("software")),
            };
            (attempts, outcome)
        },
    );

    assert_eq!(result, Ok("software"));
    assert_eq!(attempts, backends);

    let (attempts, result) = run_media_backends(
        &backends,
        Vec::new(),
        |mut attempts: Vec<MediaBackend>, backend: &MediaBackend| {
            attempts.push(copied(backend));
            let vulkan = if matches!(backend, MediaBackend::Vulkan(_)) {
                Some("vulkan")
            } else {
                None
            };
            (attempts, Ok::<_, ()>(vulkan))
        },
    );
    assert_eq!(result, Ok("vulkan"));
    assert_eq!(attempts, &backends[..2]);
}

#[test]
fn final_software_failure_returns_the_normalization_error() {
    let (_, result) = run_media_backends(&[MediaBackend::Software], (), |(), _: &MediaBackend| {
        ((), Ok::<Option<()>, ()>(None))
    });
    assert_eq!(result, Err("Unable to normalize media preview".to_owned()));
    let (attempts, result) = run_media_backends(&[], 0, |tried: i32, _: &MediaBackend| {
        (tried + 1, Ok::<Option<()>, ()>(None))
    });
    assert_eq!(attempts, 0);
    assert!(result.is_err());
}

#[test]
fn forced_backend_failure_goes_directly_to_software() {
    for backends in [
        media_backends(&[path("/dev/dri/renderD128")], MediaPreviewBackend::VaApi),
        media_backends(&[path("/dev/dri/renderD128")], MediaPreviewBackend::Vulkan),
    ] {
        let (attempts, result) = run_media_backends(
            &backends,
            Vec::new(),
            |mut attempts: Vec<MediaBackend>, backend: &MediaBackend| {
                attempts.push(copied(backend));
                let found = if *backend == MediaBackend::Software {
                    Some(())
                } else {
                    None
                };
                (attempts, Ok::<_, ()>(found))
            },
        );
        result.expect("software fallback should succeed");
        assert_eq!(attempts, backends);
        assert_eq!(attempts.len(), 2);
    }
}

#[test]
fn fallback_steps_stop_at_the_first_success() {
    assert_eq!(fallback_step::<u8>(2, 0, None), FallbackStep::Try(0));
    assert_eq!(fallback_step::<u8>(2, 1, None), FallbackStep::Try(1));
    assert_eq!(fallback_step(2, 1, Some(7)), FallbackStep::Done(7));
    assert_eq!(fallback_step::<u8>(2, 2, None), FallbackStep::Failed);
    assert_eq!(fallback_step(2, 2, Some(7)), FallbackStep::Done(7));
}

#[test]
fn media_commands_select_the_backend_and_preserve_limits() {
    for backend in [
        MediaBackend::VaApi(path("/dev/dri/renderD129")),
        MediaBackend::Vulkan(1),
    ] {
        assert!(media_command(&backend, b"/input")
            .environment
            .iter()
            .any(|(name, value)| name == "MALLOC_ARENA_MAX" && value == "1"));
    }
    assert!(media_command(&MediaBackend::Software, b"/input")
        .environment
        .is_empty());
    assert_eq!(
        media_command(&MediaBackend::Software, b"/input").program,
        "ffmpeg"
    );

    let vaapi = arguments(&MediaBackend::VaApi(path("/dev/dri/renderD129")));
    assert!(vaapi.contains("-threads 1 -filter_threads 1"));
    assert!(vaapi.contains("-hwaccel vaapi -hwaccel_device /dev/dri/renderD129"));
    assert!(vaapi.contains("-hwaccel_output_format vaapi"));
    assert!(vaapi.contains(
        "-vf scale_vaapi=w=1280:h=1280:force_original_aspect_ratio=decrease:force_divisible_by=16:format=nv12 -c:v h264_vaapi"
    ));
    assert!(vaapi.contains("-c:a aac -b:a 96k -movflags +frag_keyframe+empty_moov -f mp4"));

    let vulkan = arguments(&MediaBackend::Vulkan(1));
    assert!(vulkan.contains("-threads 1 -filter_threads 1"));
    assert!(vulkan.contains("-init_hw_device vulkan=vk:1 -filter_hw_device vk"));
    assert!(vulkan.contains("-hwaccel vulkan -hwaccel_device vk"));
    assert!(vulkan.contains(
        "-vf scale_vulkan=w='max(16,trunc(min(iw,iw*1280/max(iw,ih))/16)*16)':h='max(16,trunc(min(ih,ih*1280/max(iw,ih))/16)*16)':format=nv12 -c:v h264_vulkan"
    ));
    assert!(vulkan.contains("-usage transcode -tune ull"));
    assert!(vulkan.contains("-c:a aac -b:a 96k -movflags +frag_keyframe+empty_moov -f mp4"));

    let software = arguments(&MediaBackend::Software);
    assert!(software.contains(
        "-vf scale=w=1280:h=1280:force_original_aspect_ratio=decrease,format=yuv420p -c:v libvpx -auto-alt-ref 0"
    ));
    assert!(software.contains("-threads 2 -deadline realtime -cpu-used 8"));
    assert!(software.contains("-c:a libopus -b:a 96k -f webm"));

    for command in [vaapi, vulkan, software] {
        assert!(command.contains("-max_alloc 536870912 -max_pixels 50000000"));
        assert!(command.contains("-map 0:v:0 -map 0:a:0? -sn -dn -t 30"));
        assert!(command.contains("-fpsmax 30"));
        assert!(command.contains("-b:v 2M -maxrate 3M -bufsize 4M"));
        assert!(command.ends_with("pipe:1"));
    }
}

#[test]
fn file_reads_stop_before_exceeding_the_output_limit() {
    let mut exact = tempfile::tempfile().expect("tempfile");
    exact.write_all(b"1234").expect("write exact");
    exact.seek(SeekFrom::Start(0)).expect("rewind");
    let mut data = Vec::new();
    let read = exact.take(read_limit(4)).read_to_end(&mut data);
    let exact = read_limited(read.map(|_| data), 4).expect("read file at the limit");
    assert_eq!(exact, b"1234");

    let mut oversized = tempfile::tempfile().expect("tempfile");
    oversized
        .write_all(&vec![0_u8; 1025])
        .expect("write oversized");
    oversized.seek(SeekFrom::Start(0)).expect("rewind");
    let mut data = Vec::new();
    let read = oversized.take(read_limit(1024)).read_to_end(&mut data);
    assert!(read_limited(read.map(|_| data), 1024).is_err());
}

#[test]
fn bounded_runs_finish_time_out_or_fail() {
    assert!(!should_start(0));
    assert!(should_start(1));
    assert_eq!(read_limit(u64::MAX), u64::MAX);

    let mut run: BoundedRun<i32> = BoundedRun::new();
    assert!(run.wants_status() && run.wants_output());
    assert_eq!(run.take_status::<()>(Ok(None)), Ok(()));
    assert_eq!(run.take_output::<()>(ReaderNews::Busy, 2), Ok(()));
    assert_eq!(run.next_step(5), RunStep::Sleep(5));
    assert_eq!(
        run.next_step(u128::MAX),
        RunStep::Sleep(PROCESS_POLL_INTERVAL)
    );
    assert_eq!(run.next_step(0), RunStep::TimedOut);
    assert_eq!(run.take_status::<()>(Ok(Some(0))), Ok(()));
    assert!(!run.wants_status());
    assert_eq!(run.next_step(0), RunStep::TimedOut);
    assert_eq!(
        run.take_output::<()>(ReaderNews::Finished(b"ok".to_vec()), 2),
        Ok(())
    );
    assert_eq!(run.next_step(0), RunStep::Finished(0, b"ok".to_vec()));

    let mut run: BoundedRun<i32> = BoundedRun::new();
    assert_eq!(
        run.take_output::<()>(ReaderNews::Finished(vec![0; 1025]), 1_024),
        Err(RunFailure::OutputTooLarge)
    );
    assert_eq!(
        run.take_output::<()>(ReaderNews::Lost, 1_024),
        Err(RunFailure::ReaderLost)
    );
    assert_eq!(
        run.take_output(ReaderNews::Failed(5), 1_024),
        Err(RunFailure::System(5))
    );
    assert_eq!(run.take_status(Err(7)), Err(RunFailure::System(7)));
    assert_eq!(
        RunFailure::<()>::OutputTooLarge.message(),
        Some("Preview provider output exceeded its limit")
    );
    assert_eq!(
        RunFailure::<()>::ReaderLost.message(),
        Some("Unable to read provider output")
    );
    assert_eq!(RunFailure::System(1).message(), None);

    assert_eq!(watch_step(Some(true), 0), WatchStep::Finished(true));
    assert_eq!(watch_step(None, 0), WatchStep::TimedOut);
    assert_eq!(watch_step(None, 3), WatchStep::Sleep(3));
}

#[test]
fn attempts_share_their_time() {
    let hardware = MediaBackend::Vulkan(0);
    let software = MediaBackend::Software;
    assert_eq!(attempt_timeout(&hardware, 0, 0), HARDWARE_ATTEMPT_TIME_LIMIT);
    assert_eq!(
        attempt_timeout(&hardware, 0, 5_000_000_000),
        HARDWARE_TOTAL_TIME_LIMIT - 5_000_000_000
    );
    assert_eq!(attempt_timeout(&hardware, 0, u128::MAX), 0);
    assert_eq!(attempt_timeout(&hardware, 27_000_000_000, 0), 1_000_000_000);
    assert_eq!(
        attempt_timeout(&software, 12_000_000_000, 12_000_000_000),
        MEDIA_TOTAL_TIME_LIMIT - 12_000_000_000
    );
    assert_eq!(accepted_output(true, vec![1]), Some(vec![1]));
    assert_eq!(accepted_output(true, Vec::new()), None);
    assert_eq!(accepted_output(false, vec![1]), None);
}

#[test]
fn provider_commands_have_fixed_arguments() {
    let commands = imagemagick_commands(b"/in", 96);
    assert_eq!(commands[0].program, "magick");
    assert_eq!(commands[1].program, "convert");
    assert_eq!(
        joined(&commands[1]),
        "/in -auto-orient -thumbnail 96x96 png:-"
    );
    assert_eq!(joined(&dcraw_command(b"/in")), "-e -c /in");
    assert_eq!(joined(&simple_dcraw_command(b"/tmp/raw")), "-e /tmp/raw");
    let video = video_thumbnail_command(b"/in", 128);
    assert_eq!(video.program, "ffmpegthumbnailer");
    assert_eq!(joined(&video), "-i /in -o /dev/stdout -s 128 -q 8");
}

#[test]
fn paths_compare_by_component() {
    assert_eq!(file_name(b"/dev//dri/renderD128/."), Some(path("renderD128")));
    assert_eq!(file_name(b"/dev/.."), None);
    assert_eq!(file_name(b"/"), None);
    assert_eq!(file_name(b""), None);
    assert_eq!(order_paths(b"/a/b", b"/a//./b/"), Order::Same);
    assert_eq!(order_paths(b"/a-b", b"/a/b"), Order::After);
    assert_eq!(order_paths(b"/a", b"/a/b"), Order::Before);
    assert_eq!(order_paths(b"./a", b"a"), Order::Before);
    assert_eq!(order_paths(b"../a", b"!"), Order::Before);
    assert!(numbered_name(b"renderD128", b"renderD"));
    assert!(!numbered_name(b"renderD", b"renderD"));
    assert!(!numbered_name(b"renderD12x", b"renderD"));
    assert!(!numbered_name(b"xrenderD12", b"renderD"));
}

#[test]
fn numbers_are_read_and_written_in_decimal() {
    assert_eq!(decimal_string(0), "0");
    assert_eq!(decimal_string(u64::MAX), "18446744073709551615");
    for text in [
        "0",
        "-0",
        "+7",
        "0000000000000000000042",
        "2147483647",
        "2147483648",
        "-2147483648",
        "-2147483649",
        "99999999999999999999999999",
        "",
        "-",
        "+",
        "+-1",
        "1 ",
        "12a",
        "\u{0661}",
    ] {
        assert_eq!(parse_i32(text), text.parse::<i32>().ok(), "{text}");
    }
}

fn helper_arguments(operation: &str, value: &str) -> Vec<String> {
    ["", "/in", "/out", value, "software"]
        .iter()
        .enumerate()
        .map(|(index, text)| {
            if index == 0 {
                operation.to_owned()
            } else {
                (*text).to_owned()
            }
        })
        .collect()
}

#[test]
fn helper_arguments_select_a_job() {
    let software = Some(MediaPreviewBackend::Software);
    let job = |operation: &str, value: &str| {
        run(&helper_arguments(operation, value), software).map(|plan| plan.job)
    };
    assert_eq!(job("thumbnail-image", "8"), Ok(HelperJob::ThumbnailImage(16)));
    assert_eq!(job("thumbnail-raw", "64"), Ok(HelperJob::ThumbnailRaw(64)));
    assert_eq!(job("thumbnail-pdf", "999"), Ok(HelperJob::ThumbnailPdf(256)));
    assert_eq!(job("thumbnail-video", "-1"), Ok(HelperJob::ThumbnailVideo(16)));
    assert_eq!(job("preview-image", "3"), Ok(HelperJob::PreviewImage(1400)));
    assert_eq!(job("preview-pdf", "-3"), Ok(HelperJob::PreviewPdf(-3)));
    assert_eq!(
        job("preview-media", "0"),
        Ok(HelperJob::PreviewMedia(MediaPreviewBackend::Software))
    );
    assert_eq!(job("thumbnail", "1"), Err(HelperError::UnknownOperation));
    assert_eq!(job("preview-pdf", "x"), Err(HelperError::SizeOrPage));
    assert_eq!(
        run(&helper_arguments("preview-pdf", "1"), None),
        Err(HelperError::MediaBackend)
    );
    assert_eq!(
        run(&helper_arguments("preview-pdf", "1")[..4], software),
        Err(HelperError::Arguments)
    );
    let plan = run(&helper_arguments("preview-pdf", "1"), software).expect("plan");
    assert_eq!((plan.input.as_str(), plan.output.as_str()), ("/in", "/out"));
    assert_eq!(
        HelperError::Arguments.message(),
        "Invalid preview helper arguments"
    );
    assert_eq!(
        HelperError::SizeOrPage.message(),
        "Invalid preview helper size or page"
    );
    assert_eq!(
        HelperError::MediaBackend.message(),
        "Invalid media preview backend"
    );
    assert_eq!(
        HelperError::UnknownOperation.message(),
        "Unknown preview helper operation"
    );
    assert_eq!(clamp_edge(100), 100);
    assert_eq!(pdf_page_index(5, 3), Some(2));
    assert_eq!(pdf_page_index(-5, 3), Some(0));
    assert_eq!(pdf_page_index(1, 3), Some(1));
    assert_eq!(pdf_page_index(1, 0), None);
    assert_eq!(page_note(2, 10), "2 10");
}

#[test]
fn camera_files_fall_back_in_order() {
    let failing = |mut tried: Vec<RawRenderer>, renderer: &RawRenderer| {
        tried.push(*renderer);
        (tried, Err::<Vec<u8>, String>(format!("{renderer:?}")))
    };
    let (tried, result) = render_raw(Vec::new(), failing);
    assert_eq!(result, Err("Dcraw".to_owned()));
    assert_eq!(
        tried,
        [
            RawRenderer::Pixbuf,
            RawRenderer::ImageMagick,
            RawRenderer::Dcraw
        ]
    );
    let (tried, result) = render_raw_thumbnail(Vec::new(), failing);
    assert_eq!(result, Err("ImageMagick".to_owned()));
    assert_eq!(
        tried,
        [
            RawRenderer::Dcraw,
            RawRenderer::Pixbuf,
            RawRenderer::ImageMagick
        ]
    );
    let (tried, result) = render_raw_thumbnail(0, |tried: i32, renderer: &RawRenderer| {
        let png = if *renderer == RawRenderer::Pixbuf {
            Ok(vec![1])
        } else {
            Err(String::new())
        };
        (tried + 1, png)
    });
    assert_eq!((tried, result), (2, Ok(vec![1])));
}

#[test]
fn providers_are_tried_until_one_gives_a_usable_picture() {
    let commands = imagemagick_commands(b"/in", 8);
    let (tried, result) = render_imagemagick(
        &commands,
        Vec::new(),
        |mut tried: Vec<String>, line: &CommandLine| {
            tried.push(line.program.clone());
            let output = if line.program == "convert" {
                vec![1]
            } else {
                Vec::new()
            };
            (tried, Some((true, output)))
        },
    );
    assert_eq!(result, Ok(vec![1]));
    assert_eq!(tried, ["magick", "convert"]);
    let (tried, result) = render_imagemagick(&commands, 0, |tried: i32, _: &CommandLine| {
        (tried + 1, Some((true, vec![2])))
    });
    assert_eq!((tried, result), (1, Ok(vec![2])));
    let (tried, result) = render_imagemagick(&commands, 0, |tried: i32, _: &CommandLine| {
        (tried + 1, Some((false, vec![1])))
    });
    assert_eq!(tried, 2);
    assert_eq!(result, Err("No RAW image renderer succeeded".to_owned()));

    let scale = |mut calls: Vec<u8>, data: &Vec<u8>| {
        calls.push(data[0]);
        let png: Result<Vec<u8>, String> = if data[0] == 0 {
            Err("corrupt".to_owned())
        } else {
            Ok(vec![data[0] * 2])
        };
        (calls, png)
    };
    let simple = |mut calls: Vec<u8>| {
        calls.push(255);
        (calls, Err::<Vec<u8>, String>("simple".to_owned()))
    };
    assert_eq!(
        render_dcraw(Some((true, vec![4])), Vec::new(), scale, simple),
        (vec![4], Ok(vec![8]))
    );
    for useless in [None, Some((false, vec![4])), Some((true, vec![]))] {
        assert_eq!(
            render_dcraw(useless, Vec::new(), scale, simple),
            (vec![255], Err("simple".to_owned()))
        );
    }
    assert_eq!(
        render_dcraw(Some((true, vec![0])), Vec::new(), scale, simple),
        (vec![0, 255], Err("simple".to_owned()))
    );

    let files = [None, Some(vec![]), Some(vec![0]), Some(vec![5]), Some(vec![6])];
    let read = |mut calls: Vec<u8>, place: usize| {
        calls.push(100 + place as u8);
        (calls, files[place].clone())
    };
    assert_eq!(
        render_simple_dcraw(5, Vec::new(), read, scale),
        (vec![100, 101, 102, 0, 103, 5], Ok(vec![10]))
    );
    let (_, result) = render_simple_dcraw(3, Vec::new(), read, scale);
    assert_eq!(result, Err("simple_dcraw produced no thumbnail".to_owned()));
    assert_eq!(render_media(true, vec![1]), Ok(vec![1]));
    assert_eq!(
        render_media(true, vec![]),
        Err("Unable to render media thumbnail".to_owned())
    );
}

fn input(handle: u8) -> Descriptor<u8> {
    Descriptor {
        handle,
        status: Err(9),
        seals: Err(9),
    }
}

#[test]
fn workers_serve_until_their_peer_closes() {
    let (state, action) = start_worker::<u8>();
    assert!(matches!(
        action,
        WorkerAction::Send { envelope, with_output: false, .. } if envelope == WireEnvelope::ready()
    ));
    let (state, action) = run_thumbnail_worker::<u8>(state, WorkerEvent::Sent(Ok(())));
    assert!(matches!(action, WorkerAction::Receive { .. }));
    let (state, action) =
        run_thumbnail_worker::<u8>(state, WorkerEvent::Received(Err(ProtocolError::Timeout)));
    assert!(matches!(action, WorkerAction::Receive { .. }));
    let request = Packet {
        envelope: WireEnvelope::request(4, 1, 32),
        fds: vec![input(3)],
    };
    let (state, action) = run_thumbnail_worker(state, WorkerEvent::Received(Ok(request)));
    assert!(matches!(
        action,
        WorkerAction::Render(job) if job.request.requested_edge == 32 && job.input.handle == 3
    ));
    let (state, action) = run_thumbnail_worker::<u8>(state, WorkerEvent::RenderFailed);
    assert!(matches!(
        action,
        WorkerAction::Send { envelope, with_output: false, .. }
            if envelope == WireEnvelope::reply(4, Status::DecodeFailed, Representation::Png, 0, 0, 0, 0)
    ));
    let (state, _) = run_thumbnail_worker::<u8>(state, WorkerEvent::Sent(Ok(())));
    let request = Packet {
        envelope: WireEnvelope::request(5, 2, 16),
        fds: vec![input(3)],
    };
    let (state, _) = run_thumbnail_worker(state, WorkerEvent::Received(Ok(request)));
    let image = RgbaImage {
        pixels: vec![0; 8],
        width: 2,
        height: 1,
        stride: 8,
    };
    let (state, action) = run_thumbnail_worker::<u8>(state, WorkerEvent::Rendered(Ok(image)));
    assert!(matches!(action, WorkerAction::Seal(pixels) if pixels.len() == 8));
    let (state, action) = run_thumbnail_worker::<u8>(state, WorkerEvent::Sealed(Ok(())));
    assert!(matches!(
        action,
        WorkerAction::Send { envelope, with_output: true, .. }
            if envelope == WireEnvelope::reply(5, Status::Success, Representation::Rgba8, 2, 1, 8, 8)
    ));
    let (state, _) = run_thumbnail_worker::<u8>(state, WorkerEvent::Sent(Ok(())));
    let (state, action) = run_thumbnail_worker::<u8>(
        state,
        WorkerEvent::Received(Err(ProtocolError::PeerClosed)),
    );
    assert_eq!(state, WorkerState::Stopped);
    assert!(matches!(action, WorkerAction::Stop(Ok(()))));
}

#[test]
fn unknown_operations_are_answered_and_the_worker_serves_on() {
    let unknown = Packet {
        envelope: WireEnvelope::request(8, 999, 32),
        fds: vec![input(3)],
    };
    let (state, action) =
        run_thumbnail_worker(WorkerState::Waiting, WorkerEvent::Received(Ok(unknown)));
    assert!(matches!(
        action,
        WorkerAction::Send { envelope, with_output: false, .. } if envelope == unsupported_reply(8)
    ));
    let reply = Packet::<u8> {
        envelope: unsupported_reply(1),
        fds: Vec::new(),
    };
    let (state, action) = run_thumbnail_worker::<u8>(state, WorkerEvent::Sent(Ok(())));
    assert_eq!(state, WorkerState::Waiting);
    assert!(matches!(action, WorkerAction::Receive { .. }));
    let next = Packet {
        envelope: WireEnvelope::request(9, 1, 32),
        fds: vec![input(4)],
    };
    let (state, action) = run_thumbnail_worker(state, WorkerEvent::Received(Ok(next)));
    assert_eq!(state, WorkerState::Rendering(9));
    assert!(matches!(action, WorkerAction::Render(job) if job.input.handle == 4));

    let generation = WorkerGeneration::new(1).expect("generation");
    let mut session = ParentSession::new(generation);
    session
        .begin_request(generation, Operation::ThumbnailPng, 32)
        .expect("begin");
    assert!(matches!(
        session.accept_reply(reply),
        Ok(JobReply::JobFailure(Status::UnsupportedOperation))
    ));
    assert!(session
        .begin_request(generation, Operation::ThumbnailPng, 32)
        .is_ok());

    let malformed = Packet {
        envelope: WireEnvelope::request(0, 999, 32),
        fds: vec![input(3)],
    };
    let (state, _) =
        run_thumbnail_worker(WorkerState::Waiting, WorkerEvent::Received(Ok(malformed)));
    assert_eq!(state, WorkerState::Stopped);
}

#[test]
fn workers_stop_on_protocol_failures() {
    let stopped = |state: WorkerState, event: WorkerEvent<u8>| {
        match run_thumbnail_worker(state, event) {
            (WorkerState::Stopped, WorkerAction::Stop(Err(error))) => error,
            other => panic!("unexpected step {other:?}"),
        }
    };
    let failure = ProtocolError::Timeout;
    assert_eq!(
        stopped(WorkerState::Announcing, WorkerEvent::Sent(Err(failure))),
        WorkerError::Announce(failure)
    );
    assert_eq!(
        stopped(WorkerState::Replying(true), WorkerEvent::Sent(Err(failure))),
        WorkerError::SendReply(failure)
    );
    assert_eq!(
        stopped(WorkerState::Replying(false), WorkerEvent::Sent(Err(failure))),
        WorkerError::SendFailure(failure)
    );
    assert_eq!(
        stopped(
            WorkerState::Waiting,
            WorkerEvent::Received(Err(ProtocolError::BadMagic))
        ),
        WorkerError::InvalidRequest(ProtocolError::BadMagic)
    );
    let empty = Packet {
        envelope: WireEnvelope::request(1, 1, 1),
        fds: Vec::new(),
    };
    assert_eq!(
        stopped(WorkerState::Waiting, WorkerEvent::Received(Ok(empty))),
        WorkerError::InvalidRequest(ProtocolError::UnexpectedDescriptors)
    );
    assert_eq!(
        stopped(
            WorkerState::Rendering(1),
            WorkerEvent::Rendered(Err(PixelError::Truncated))
        ),
        WorkerError::Pixels(PixelError::Truncated)
    );
    assert_eq!(
        stopped(
            WorkerState::Sealing(WireEnvelope::ready()),
            WorkerEvent::Sealed(Err(failure))
        ),
        WorkerError::Seal(failure)
    );
    assert_eq!(
        WorkerError::Seal(failure).message(),
        "Unable to seal thumbnail worker output: "
    );
    assert_eq!(
        WorkerError::Pixels(PixelError::InvalidRowstride).message(),
        "invalid rowstride"
    );
}
