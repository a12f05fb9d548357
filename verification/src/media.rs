//! Normalised media previews: which backends to try, how, and for how long.
use vstd::prelude::*;

use crate::command::{texts, ArgumentView, CommandLine};
use crate::fallback::{
    attempted_in_order, fallback_step, lemma_one_more, state_after, FallbackStep,
};
use crate::path::{byte_views, file_name, file_name_of, insert_path, sorted_paths};
use crate::text::{append_decimal, decimal, decimal_string};

verus! {

/// Nanoseconds that one hardware attempt may take.
pub const HARDWARE_ATTEMPT_TIME_LIMIT: u128 = 8_000_000_000;

/// Nanoseconds that all hardware attempts may take together.
pub const HARDWARE_TOTAL_TIME_LIMIT: u128 = 12_000_000_000;

/// Nanoseconds that all attempts may take together.
pub const MEDIA_TOTAL_TIME_LIMIT: u128 = 28_000_000_000;

/// Largest single allocation of the media program, in bytes.
pub const MAX_MEDIA_ALLOCATION_BYTES: u64 = 536_870_912;

/// Largest frame that the media program decodes, in pixels.
pub const MAX_MEDIA_DECODE_PIXELS: u64 = 50_000_000;

/// Which backends the user allows.
#[derive(Clone, Copy, Debug, PartialEq, Eq, Structural)]
pub enum MediaPreviewBackend {
    Automatic,
    VaApi,
    Vulkan,
    Software,
}

/// One way to normalise a media file.
#[derive(Debug, PartialEq, Eq)]
pub enum MediaBackend {
    /// Through the render node at this path.
    VaApi(Vec<u8>),
    /// Through the Vulkan device with this number.
    Vulkan(usize),
    Software,
}

/// A backend as a value.
pub ghost enum BackendView {
    VaApi(Seq<u8>),
    Vulkan(usize),
    Software,
}

impl View for MediaBackend {
    type V = BackendView;

    open spec fn view(&self) -> BackendView {
        match self {
            MediaBackend::VaApi(device) => BackendView::VaApi(device@),
            MediaBackend::Vulkan(index) => BackendView::Vulkan(*index),
            MediaBackend::Software => BackendView::Software,
        }
    }
}

/// The views of a list of backends.
pub open spec fn backend_views(backends: Seq<MediaBackend>) -> Seq<BackendView> {
    backends.map_values(|backend: MediaBackend| backend@)
}

/// The bytes of `renderD`.
pub open spec fn render_node_prefix() -> Seq<u8> {
    seq![0x72u8, 0x65u8, 0x6eu8, 0x64u8, 0x65u8, 0x72u8, 0x44u8]
}

/// The bytes of `nvidia`.
pub open spec fn nvidia_prefix() -> Seq<u8> {
    seq![0x6eu8, 0x76u8, 0x69u8, 0x64u8, 0x69u8, 0x61u8]
}

/// Whether a name is `prefix` followed by a number.
pub open spec fn is_numbered(name: Seq<u8>, prefix: Seq<u8>) -> bool {
    &&& name.len() > prefix.len()
    &&& name.take(prefix.len() as int) == prefix
    &&& forall|i: int| prefix.len() <= i < name.len() ==> 0x30 <= #[trigger] name[i] <= 0x39
}

/// Whether a name is `prefix` followed by a number.
pub fn numbered_name(name: &[u8], prefix: &[u8]) -> (numbered: bool)
    ensures
        numbered == is_numbered(name@, prefix@),
{
    if name.len() <= prefix.len() {
        return false;
    }
    let mut index: usize = 0;
    while index < prefix.len()
        invariant
            index <= prefix.len() < name.len(),
            forall|i: int| 0 <= i < index ==> name@[i] == prefix@[i],
        decreases prefix.len() - index,
    {
        if name[index] != prefix[index] {
            assert(name@.take(prefix@.len() as int)[index as int] != prefix@[index as int]);
            return false;
        }
        index = index + 1;
    }
    assert(name@.take(prefix@.len() as int) =~= prefix@);
    while index < name.len()
        invariant
            prefix.len() <= index <= name.len(),
            prefix.len() < name.len(),
            name@.take(prefix@.len() as int) == prefix@,
            forall|i: int| prefix@.len() <= i < index ==> 0x30 <= #[trigger] name@[i] <= 0x39,
        decreases name.len() - index,
    {
        if !(0x30 <= name[index] && name[index] <= 0x39) {
            return false;
        }
        index = index + 1;
    }
    true
}

/// Whether a device path ends in `prefix` and a number.
pub open spec fn is_numbered_device(device: Seq<u8>, prefix: Seq<u8>) -> bool {
    file_name_of(device) matches Some(name) && is_numbered(name, prefix)
}

fn numbered_device(device: &[u8], prefix: &[u8]) -> (numbered: bool)
    ensures
        numbered == is_numbered_device(device@, prefix@),
{
    match file_name(device) {
        Some(name) => numbered_name(name.as_slice(), prefix),
        None => false,
    }
}

/// The devices among `devices` that are named `prefix` and a number.
pub open spec fn numbered_devices(devices: Seq<Seq<u8>>, prefix: Seq<u8>) -> Seq<Seq<u8>> {
    devices.filter(|device: Seq<u8>| is_numbered_device(device, prefix))
}

/// How many Vulkan devices to try: as many as there are render nodes or NVIDIA devices,
/// whichever are more.
pub open spec fn vulkan_count(devices: Seq<Seq<u8>>) -> nat {
    let nodes = numbered_devices(devices, render_node_prefix()).len();
    let cards = numbered_devices(devices, nvidia_prefix()).len();
    if nodes > cards {
        nodes
    } else {
        cards
    }
}

/// The render nodes among `devices`, in order.
pub open spec fn vaapi_candidates(devices: Seq<Seq<u8>>) -> Seq<BackendView> {
    sorted_paths(numbered_devices(devices, render_node_prefix())).map_values(
        |device: Seq<u8>| BackendView::VaApi(device),
    )
}

/// The Vulkan devices to try.
pub open spec fn vulkan_candidates(devices: Seq<Seq<u8>>) -> Seq<BackendView> {
    Seq::new(vulkan_count(devices), |i: int| BackendView::Vulkan(i as usize))
}

/// The backends to try, in order: hardware that the policy allows, then software.
pub open spec fn backend_order(devices: Seq<Seq<u8>>, policy: MediaPreviewBackend) -> Seq<
    BackendView,
> {
    let vaapi = if policy == MediaPreviewBackend::Automatic || policy
        == MediaPreviewBackend::VaApi {
        vaapi_candidates(devices)
    } else {
        Seq::empty()
    };
    let vulkan = if policy == MediaPreviewBackend::Automatic || policy
        == MediaPreviewBackend::Vulkan {
        vulkan_candidates(devices)
    } else {
        Seq::empty()
    };
    vaapi + vulkan + seq![BackendView::Software]
}

fn copy_bytes(bytes: &Vec<u8>) -> (copy: Vec<u8>)
    ensures
        copy@ == bytes@,
{
    let mut copy: Vec<u8> = Vec::new();
    copy.extend_from_slice(bytes.as_slice());
    assert(copy@ =~= bytes@);
    copy
}

/// The backends to try for the devices of this machine.
pub fn media_backends(devices: &[Vec<u8>], policy: MediaPreviewBackend) -> (backends: Vec<
    MediaBackend,
>)
    ensures
        backend_views(backends@) == backend_order(byte_views(devices@), policy),
{
    let node_prefix: [u8; 7] = [0x72, 0x65, 0x6e, 0x64, 0x65, 0x72, 0x44];
    let card_prefix: [u8; 6] = [0x6e, 0x76, 0x69, 0x64, 0x69, 0x61];
    assert(node_prefix@ =~= render_node_prefix());
    assert(card_prefix@ =~= nvidia_prefix());
    let ghost all = byte_views(devices@);
    let mut nodes: Vec<Vec<u8>> = Vec::new();
    let mut cards: usize = 0;
    let mut index: usize = 0;
    assert(all.take(0) =~= Seq::<Seq<u8>>::empty());
    assert(byte_views(nodes@) =~= Seq::<Seq<u8>>::empty());
    proof {
        reveal(Seq::filter);
    }
    assert(numbered_devices(all.take(0), render_node_prefix()) =~= Seq::<Seq<u8>>::empty());
    while index < devices.len()
        invariant
            index <= devices.len(),
            all == byte_views(devices@),
            node_prefix@ == render_node_prefix(),
            card_prefix@ == nvidia_prefix(),
            cards <= index,
            cards == numbered_devices(all.take(index as int), nvidia_prefix()).len(),
            byte_views(nodes@) == sorted_paths(
                numbered_devices(all.take(index as int), render_node_prefix()),
            ),
        decreases devices.len() - index,
    {
        proof {
            reveal(Seq::filter);
            assert(all.take(index + 1).drop_last() =~= all.take(index as int));
            assert(all.take(index + 1).last() == devices@[index as int]@);
            lemma_next_device(all, index as int, render_node_prefix());
            lemma_next_device(all, index as int, nvidia_prefix());
        }
        if numbered_device(devices[index].as_slice(), &node_prefix) {
            insert_path(&mut nodes, copy_bytes(&devices[index]));
            proof {
                let before = numbered_devices(all.take(index as int), render_node_prefix());
                assert(before.push(all[index as int]).drop_last() =~= before);
            }
        }
        if numbered_device(devices[index].as_slice(), &card_prefix) {
            cards = cards + 1;
        }
        index = index + 1;
    }
    assert(all.take(index as int) =~= all);
    proof {
        crate::path::sorting_orders_and_keeps(numbered_devices(all, render_node_prefix()));
    }
    assert(byte_views(nodes@).len() == nodes@.len());
    let vulkan: usize = if nodes.len() > cards {
        nodes.len()
    } else {
        cards
    };
    let mut backends: Vec<MediaBackend> = Vec::new();
    assert(backend_views(backends@) =~= Seq::<BackendView>::empty());
    let mut vaapi: usize = 0;
    if policy == MediaPreviewBackend::Automatic || policy == MediaPreviewBackend::VaApi {
        while vaapi < nodes.len()
            invariant
                vaapi <= nodes.len(),
                backends@.len() == vaapi,
                byte_views(nodes@) == sorted_paths(numbered_devices(all, render_node_prefix())),
                backend_views(backends@) == vaapi_candidates(all).take(vaapi as int),
            decreases nodes.len() - vaapi,
        {
            assert(byte_views(nodes@)[vaapi as int] == nodes@[vaapi as int]@);
            backends.push(MediaBackend::VaApi(copy_bytes(&nodes[vaapi])));
            assert(backend_views(backends@) =~= vaapi_candidates(all).take(vaapi + 1));
            vaapi = vaapi + 1;
        }
        assert(vaapi_candidates(all).take(vaapi as int) =~= vaapi_candidates(all));
    }
    let ghost hardware = backend_views(backends@);
    if policy == MediaPreviewBackend::Automatic || policy == MediaPreviewBackend::Vulkan {
        let mut device: usize = 0;
        assert(hardware + vulkan_candidates(all).take(0) =~= hardware);
        while device < vulkan
            invariant
                device <= vulkan,
                vulkan == vulkan_count(all),
                backend_views(backends@) == hardware + vulkan_candidates(all).take(device as int),
            decreases vulkan - device,
        {
            let ghost before = backend_views(backends@);
            backends.push(MediaBackend::Vulkan(device));
            assert(backend_views(backends@) =~= before.push(BackendView::Vulkan(device)));
            assert(vulkan_candidates(all).take(device + 1) =~= vulkan_candidates(all).take(
                device as int,
            ).push(BackendView::Vulkan(device)));
            assert(backend_views(backends@) =~= hardware + vulkan_candidates(all).take(
                device + 1,
            ));
            device = device + 1;
        }
        assert(vulkan_candidates(all).take(device as int) =~= vulkan_candidates(all));
    }
    let ghost before = backend_views(backends@);
    backends.push(MediaBackend::Software);
    assert(backend_views(backends@) =~= before.push(BackendView::Software));
    assert(backend_views(backends@) =~= backend_order(all, policy));
    backends
}

proof fn lemma_next_device(devices: Seq<Seq<u8>>, index: int, prefix: Seq<u8>)
    requires
        0 <= index < devices.len(),
    ensures
        numbered_devices(devices.take(index + 1), prefix) == if is_numbered_device(
            devices[index],
            prefix,
        ) {
            numbered_devices(devices.take(index), prefix).push(devices[index])
        } else {
            numbered_devices(devices.take(index), prefix)
        },
{
    reveal(Seq::filter);
    assert(devices.take(index + 1).drop_last() =~= devices.take(index));
}

/// Software comes last, and only there, whatever devices there are.
pub proof fn software_is_the_last_resort(devices: Seq<Seq<u8>>, policy: MediaPreviewBackend)
    ensures
        backend_order(devices, policy).len() >= 1,
        forall|i: int|
            0 <= i < backend_order(devices, policy).len() ==> (#[trigger] backend_order(
                devices,
                policy,
            )[i] == BackendView::Software <==> i == backend_order(devices, policy).len() - 1),
        policy == MediaPreviewBackend::Software ==> backend_order(devices, policy).len() == 1,
{
}

/// Nanoseconds that an attempt may take, after `elapsed` nanoseconds since the first one.
pub open spec fn attempt_limit(software: bool, elapsed: u128, hardware_elapsed: u128) -> int {
    let total = if elapsed < MEDIA_TOTAL_TIME_LIMIT {
        MEDIA_TOTAL_TIME_LIMIT - elapsed
    } else {
        0
    };
    let hardware = if hardware_elapsed < HARDWARE_TOTAL_TIME_LIMIT {
        HARDWARE_TOTAL_TIME_LIMIT - hardware_elapsed
    } else {
        0
    };
    if software {
        total
    } else if HARDWARE_ATTEMPT_TIME_LIMIT <= hardware && HARDWARE_ATTEMPT_TIME_LIMIT <= total {
        HARDWARE_ATTEMPT_TIME_LIMIT as int
    } else if hardware <= total {
        hardware
    } else {
        total
    }
}

/// How long an attempt with `backend` may take.
pub fn attempt_timeout(backend: &MediaBackend, elapsed: u128, hardware_elapsed: u128) -> (limit:
    u128)
    ensures
        limit == attempt_limit(backend@ == BackendView::Software, elapsed, hardware_elapsed),
{
    let total: u128 = MEDIA_TOTAL_TIME_LIMIT.saturating_sub(elapsed);
    match backend {
        MediaBackend::Software => total,
        _ => {
            let hardware: u128 = HARDWARE_TOTAL_TIME_LIMIT.saturating_sub(hardware_elapsed);
            let mut limit: u128 = HARDWARE_ATTEMPT_TIME_LIMIT;
            if hardware < limit {
                limit = hardware;
            }
            if total < limit {
                limit = total;
            }
            limit
        },
    }
}

/// However the clock runs, no attempt outlasts what is left of the total, and hardware
/// leaves time for software: attempts that begin within the hardware limit end within it.
pub proof fn hardware_leaves_time_for_software(elapsed: u128, hardware_elapsed: u128)
    ensures
        elapsed <= MEDIA_TOTAL_TIME_LIMIT ==> elapsed + attempt_limit(
            false,
            elapsed,
            hardware_elapsed,
        ) <= MEDIA_TOTAL_TIME_LIMIT,
        elapsed <= MEDIA_TOTAL_TIME_LIMIT ==> elapsed + attempt_limit(
            true,
            elapsed,
            hardware_elapsed,
        ) == MEDIA_TOTAL_TIME_LIMIT,
        hardware_elapsed <= HARDWARE_TOTAL_TIME_LIMIT ==> hardware_elapsed + attempt_limit(
            false,
            elapsed,
            hardware_elapsed,
        ) <= HARDWARE_TOTAL_TIME_LIMIT,
        attempt_limit(false, elapsed, hardware_elapsed) <= HARDWARE_ATTEMPT_TIME_LIMIT,
{
}

/// What a finished program produced, if it succeeded and produced anything.
pub fn accepted_output(success: bool, stdout: Vec<u8>) -> (output: Option<Vec<u8>>)
    ensures
        output == if success && stdout@.len() > 0 {
            Some(stdout)
        } else {
            None
        },
{
    if success && stdout.len() > 0 {
        Some(stdout)
    } else {
        None
    }
}

/// The output that an attempt gave, if it gave one.
pub open spec fn output_of<T, E>(outcome: Result<Option<T>, E>) -> Option<T> {
    match outcome {
        Ok(found) => found,
        Err(_) => None,
    }
}

/// Whether trying backends may have gone as `trace` says, ending in `end` with `output`: the
/// backends were run in order, once each, up to the first that gave an output.
pub open spec fn backends_ran<S, T, E, R: Fn(S, &MediaBackend) -> (S, Result<Option<T>, E>)>(
    run: R,
    backends: Seq<MediaBackend>,
    start: S,
    trace: Seq<(S, Result<Option<T>, E>)>,
    end: S,
    output: Result<T, String>,
) -> bool {
    &&& attempted_in_order(run, backends, start, trace)
    &&& end == state_after(start, trace)
    &&& forall|k: int|
        0 <= k < trace.len() - 1 ==> output_of((#[trigger] trace[k]).1) is None
    &&& match output {
        Ok(found) => trace.len() > 0 && output_of(trace.last().1) == Some(found),
        Err(error) => {
            &&& error@ == "Unable to normalize media preview"@
            &&& trace.len() == backends.len()
            &&& trace.len() > 0 ==> output_of(trace.last().1) is None
        },
    }
}

/// Runs backends in order, once each, until one gives an output. What running does outside is
/// threaded through as a state, `start` first.
pub fn run_media_backends<S, T, E, R: Fn(S, &MediaBackend) -> (S, Result<Option<T>, E>)>(
    backends: &[MediaBackend],
    start: S,
    run: R,
) -> (end: (S, Result<T, String>))
    requires
        forall|state: S, backend: &MediaBackend| call_requires(run, (state, backend)),
    ensures
        exists|trace: Seq<(S, Result<Option<T>, E>)>| #[trigger]
            backends_ran(run, backends@, start, trace, end.0, end.1),
{
    let mut state: S = start;
    let mut last: Option<T> = None;
    let mut tried: usize = 0;
    let ghost mut trace: Seq<(S, Result<Option<T>, E>)> = Seq::empty();
    loop
        invariant
            tried <= backends.len(),
            trace.len() == tried,
            forall|state: S, backend: &MediaBackend| call_requires(run, (state, backend)),
            attempted_in_order(run, backends@, start, trace),
            state == state_after(start, trace),
            forall|k: int|
                0 <= k < trace.len() - 1 ==> output_of((#[trigger] trace[k]).1) is None,
            tried == 0 ==> last is None,
            tried > 0 ==> last == output_of(trace.last().1),
        decreases backends.len() - tried,
    {
        match fallback_step(backends.len(), tried, last) {
            FallbackStep::Done(found) => {
                let end: (S, Result<T, String>) = (state, Ok(found));
                assert(backends_ran(run, backends@, start, trace, end.0, end.1));
                return end;
            },
            FallbackStep::Failed => {
                let end: (S, Result<T, String>) = (
                    state,
                    Err("Unable to normalize media preview".to_owned()),
                );
                assert(backends_ran(run, backends@, start, trace, end.0, end.1));
                return end;
            },
            FallbackStep::Try(index) => {
                let (next, outcome) = run(state, &backends[index]);
                proof {
                    let before = trace;
                    lemma_one_more(run, backends@, start, trace, (next, outcome));
                    trace = trace.push((next, outcome));
                    assert forall|k: int| 0 <= k < trace.len() - 1 implies output_of(
                        (#[trigger] trace[k]).1,
                    ) is None by {
                        if k < before.len() - 1 {
                            assert(before[k] == trace[k]);
                        }
                    }
                }
                state = next;
                last = match outcome {
                    Ok(found) => found,
                    Err(_) => None,
                };
                tried = index + 1;
            },
        }
    }
}

/// The limits that open every media command.
pub open spec fn limit_arguments() -> Seq<ArgumentView> {
    texts(
        seq![
            "-nostdin"@,
            "-v"@,
            "error"@,
            "-max_alloc"@,
            decimal(MAX_MEDIA_ALLOCATION_BYTES as nat),
            "-max_pixels"@,
            decimal(MAX_MEDIA_DECODE_PIXELS as nat),
        ],
    )
}

/// The arguments that select a decoder.
pub open spec fn decoder_arguments(backend: BackendView) -> Seq<ArgumentView> {
    match backend {
        BackendView::VaApi(device) => texts(
            seq![
                "-threads"@,
                "1"@,
                "-filter_threads"@,
                "1"@,
                "-hwaccel"@,
                "vaapi"@,
                "-hwaccel_device"@,
            ],
        ) + seq![ArgumentView::Path(device)] + texts(seq!["-hwaccel_output_format"@, "vaapi"@]),
        BackendView::Vulkan(index) => texts(
            seq![
                "-threads"@,
                "1"@,
                "-filter_threads"@,
                "1"@,
                "-init_hw_device"@,
                "vulkan=vk:"@ + decimal(index as nat),
                "-filter_hw_device"@,
                "vk"@,
                "-hwaccel"@,
                "vulkan"@,
                "-hwaccel_device"@,
                "vk"@,
                "-hwaccel_output_format"@,
                "vulkan"@,
            ],
        ),
        BackendView::Software => texts(seq!["-threads"@, "2"@]),
    }
}

/// The input, its first video and audio streams, and at most thirty seconds of them.
pub open spec fn input_arguments(path: Seq<u8>) -> Seq<ArgumentView> {
    seq![ArgumentView::Text("-i"@), ArgumentView::Path(path)] + texts(
        seq!["-map"@, "0:v:0"@, "-map"@, "0:a:0?"@, "-sn"@, "-dn"@, "-t"@, "30"@],
    )
}

/// The arguments that scale and encode the video.
pub open spec fn video_arguments(backend: BackendView) -> Seq<ArgumentView> {
    match backend {
        BackendView::VaApi(_) => texts(
            seq![
                "-vf"@,
                "scale_vaapi=w=1280:h=1280:force_original_aspect_ratio=decrease:force_divisible_by=16:format=nv12"@,
                "-c:v"@,
                "h264_vaapi"@,
            ],
        ),
        BackendView::Vulkan(_) => texts(
            seq![
                "-vf"@,
                "scale_vulkan=w='max(16,trunc(min(iw,iw*1280/max(iw,ih))/16)*16)':h='max(16,trunc(min(ih,ih*1280/max(iw,ih))/16)*16)':format=nv12"@,
                "-c:v"@,
                "h264_vulkan"@,
                "-usage"@,
                "transcode"@,
                "-tune"@,
                "ull"@,
            ],
        ),
        BackendView::Software => texts(
            seq![
                "-vf"@,
                "scale=w=1280:h=1280:force_original_aspect_ratio=decrease,format=yuv420p"@,
                "-c:v"@,
                "libvpx"@,
                "-auto-alt-ref"@,
                "0"@,
                "-threads"@,
                "2"@,
                "-deadline"@,
                "realtime"@,
                "-cpu-used"@,
                "8"@,
            ],
        ),
    }
}

/// The limits on the rate of the result.
pub open spec fn rate_arguments() -> Seq<ArgumentView> {
    texts(
        seq!["-fpsmax"@, "30"@, "-b:v"@, "2M"@, "-maxrate"@, "3M"@, "-bufsize"@, "4M"@],
    )
}

/// The audio encoding and the container.
pub open spec fn container_arguments(backend: BackendView) -> Seq<ArgumentView> {
    match backend {
        BackendView::Software => texts(
            seq!["-c:a"@, "libopus"@, "-b:a"@, "96k"@, "-f"@, "webm"@],
        ),
        _ => texts(
            seq![
                "-c:a"@,
                "aac"@,
                "-b:a"@,
                "96k"@,
                "-movflags"@,
                "+frag_keyframe+empty_moov"@,
                "-f"@,
                "mp4"@,
            ],
        ),
    }
}

/// All arguments of the media command.
pub open spec fn media_arguments(backend: BackendView, path: Seq<u8>) -> Seq<ArgumentView> {
    limit_arguments() + decoder_arguments(backend) + input_arguments(path) + video_arguments(
        backend,
    ) + rate_arguments() + container_arguments(backend) + texts(seq!["pipe:1"@])
}

/// The variables of the media command: hardware runs with one memory arena.
pub open spec fn media_environment(backend: BackendView) -> Seq<(Seq<char>, Seq<char>)> {
    if backend == BackendView::Software {
        Seq::empty()
    } else {
        seq![("MALLOC_ARENA_MAX"@, "1"@)]
    }
}

fn push_limits(command: &mut CommandLine)
    ensures
        final(command).program == old(command).program,
        final(command).env() == old(command).env(),
        final(command).args() == old(command).args() + limit_arguments(),
{
    let ghost before = command.args();
    command.text("-nostdin");
    command.text("-v");
    command.text("error");
    command.text("-max_alloc");
    command.string(decimal_string(MAX_MEDIA_ALLOCATION_BYTES));
    command.text("-max_pixels");
    command.string(decimal_string(MAX_MEDIA_DECODE_PIXELS));
    assert(command.args() =~= before + limit_arguments());
}

fn push_decoder(command: &mut CommandLine, backend: &MediaBackend)
    ensures
        final(command).program == old(command).program,
        final(command).env() == old(command).env() + media_environment(backend@),
        final(command).args() == old(command).args() + decoder_arguments(backend@),
{
    let ghost before = command.args();
    let ghost variables = command.env();
    match backend {
        MediaBackend::VaApi(device) => {
            command.variable("MALLOC_ARENA_MAX", "1");
            command.text("-threads");
            command.text("1");
            command.text("-filter_threads");
            command.text("1");
            command.text("-hwaccel");
            command.text("vaapi");
            command.text("-hwaccel_device");
            command.path(device.as_slice());
            command.text("-hwaccel_output_format");
            command.text("vaapi");
            assert(command.args() =~= before + decoder_arguments(backend@));
            assert(command.env() =~= variables + media_environment(backend@));
        },
        MediaBackend::Vulkan(index) => {
            command.variable("MALLOC_ARENA_MAX", "1");
            let mut device = "vulkan=vk:".to_owned();
            append_decimal(&mut device, *index as u64);
            command.text("-threads");
            command.text("1");
            command.text("-filter_threads");
            command.text("1");
            command.text("-init_hw_device");
            command.string(device);
            command.text("-filter_hw_device");
            command.text("vk");
            command.text("-hwaccel");
            command.text("vulkan");
            command.text("-hwaccel_device");
            command.text("vk");
            command.text("-hwaccel_output_format");
            command.text("vulkan");
            assert(command.args() =~= before + decoder_arguments(backend@));
            assert(command.env() =~= variables + media_environment(backend@));
        },
        MediaBackend::Software => {
            command.text("-threads");
            command.text("2");
            assert(command.args() =~= before + decoder_arguments(backend@));
            assert(command.env() =~= variables + media_environment(backend@));
        },
    }
}

fn push_input(command: &mut CommandLine, path: &[u8])
    ensures
        final(command).program == old(command).program,
        final(command).env() == old(command).env(),
        final(command).args() == old(command).args() + input_arguments(path@),
{
    let ghost before = command.args();
    command.text("-i");
    command.path(path);
    command.text("-map");
    command.text("0:v:0");
    command.text("-map");
    command.text("0:a:0?");
    command.text("-sn");
    command.text("-dn");
    command.text("-t");
    command.text("30");
    assert(command.args() =~= before + input_arguments(path@));
}

fn push_video(command: &mut CommandLine, backend: &MediaBackend)
    ensures
        final(command).program == old(command).program,
        final(command).env() == old(command).env(),
        final(command).args() == old(command).args() + video_arguments(backend@),
{
    let ghost before = command.args();
    command.text("-vf");
    match backend {
        MediaBackend::VaApi(_) => {
            command.text(
                "scale_vaapi=w=1280:h=1280:force_original_aspect_ratio=decrease:force_divisible_by=16:format=nv12",
            );
            command.text("-c:v");
            command.text("h264_vaapi");
            assert(command.args() =~= before + video_arguments(backend@));
        },
        MediaBackend::Vulkan(_) => {
            command.text(
                "scale_vulkan=w='max(16,trunc(min(iw,iw*1280/max(iw,ih))/16)*16)':h='max(16,trunc(min(ih,ih*1280/max(iw,ih))/16)*16)':format=nv12",
            );
            command.text("-c:v");
            command.text("h264_vulkan");
            command.text("-usage");
            command.text("transcode");
            command.text("-tune");
            command.text("ull");
            assert(command.args() =~= before + video_arguments(backend@));
        },
        MediaBackend::Software => {
            command.text("scale=w=1280:h=1280:force_original_aspect_ratio=decrease,format=yuv420p");
            command.text("-c:v");
            command.text("libvpx");
            command.text("-auto-alt-ref");
            command.text("0");
            command.text("-threads");
            command.text("2");
            command.text("-deadline");
            command.text("realtime");
            command.text("-cpu-used");
            command.text("8");
            assert(command.args() =~= before + video_arguments(backend@));
        },
    }
}

fn push_rates(command: &mut CommandLine)
    ensures
        final(command).program == old(command).program,
        final(command).env() == old(command).env(),
        final(command).args() == old(command).args() + rate_arguments(),
{
    let ghost before = command.args();
    command.text("-fpsmax");
    command.text("30");
    command.text("-b:v");
    command.text("2M");
    command.text("-maxrate");
    command.text("3M");
    command.text("-bufsize");
    command.text("4M");
    assert(command.args() =~= before + rate_arguments());
}

fn push_container(command: &mut CommandLine, backend: &MediaBackend)
    ensures
        final(command).program == old(command).program,
        final(command).env() == old(command).env(),
        final(command).args() == old(command).args() + container_arguments(backend@),
{
    let ghost before = command.args();
    command.text("-c:a");
    match backend {
        MediaBackend::Software => {
            command.text("libopus");
            command.text("-b:a");
            command.text("96k");
            command.text("-f");
            command.text("webm");
            assert(command.args() =~= before + container_arguments(backend@));
        },
        _ => {
            command.text("aac");
            command.text("-b:a");
            command.text("96k");
            command.text("-movflags");
            command.text("+frag_keyframe+empty_moov");
            command.text("-f");
            command.text("mp4");
            assert(command.args() =~= before + container_arguments(backend@));
        },
    }
}

/// The command that normalises the media file at `path` with `backend`.
pub fn media_command(backend: &MediaBackend, path: &[u8]) -> (command: CommandLine)
    ensures
        command.program@ == "ffmpeg"@,
        command.env() == media_environment(backend@),
        command.args() == media_arguments(backend@, path@),
{
    let mut command = CommandLine::new("ffmpeg");
    push_limits(&mut command);
    push_decoder(&mut command, backend);
    push_input(&mut command, path);
    push_video(&mut command, backend);
    push_rates(&mut command);
    push_container(&mut command, backend);
    let ghost before = command.args();
    command.text("pipe:1");
    assert(command.args() =~= before + texts(seq!["pipe:1"@]));
    assert(command.args() =~= media_arguments(backend@, path@));
    assert(command.env() =~= media_environment(backend@));
    command
}

/// Every backend gets the same limits first and writes to its output last.
pub proof fn limits_hold_for_every_backend(backend: BackendView, path: Seq<u8>)
    ensures
        media_arguments(backend, path).take(7) == limit_arguments(),
        media_arguments(backend, path).last() == ArgumentView::Text("pipe:1"@),
{
    assert(media_arguments(backend, path).take(7) =~= limit_arguments());
}

/// Software may use what is left of 28 seconds; hardware at most eight seconds, and no more than is
/// left of its own twelve or of the 28.
pub proof fn attempts_share_the_time(elapsed: u128, hardware_elapsed: u128)
    ensures
        attempt_limit(true, elapsed, hardware_elapsed) == vstd::math::max(
            0,
            28_000_000_000 - elapsed,
        ),
        attempt_limit(false, elapsed, hardware_elapsed) == vstd::math::min(
            8_000_000_000,
            vstd::math::min(
                vstd::math::max(0, 12_000_000_000 - hardware_elapsed),
                vstd::math::max(0, 28_000_000_000 - elapsed),
            ),
        ),
{
}

/// Backends are run one after the other, once each, until one gives an output; that is the result,
/// and if none does all were run.
pub proof fn backends_are_run_in_turn<S, T, E, R: Fn(S, &MediaBackend) -> (S, Result<Option<T>, E>)>(
    run: R,
    backends: Seq<MediaBackend>,
    start: S,
    trace: Seq<(S, Result<Option<T>, E>)>,
    end: S,
    output: Result<T, String>,
    k: int,
)
    requires
        backends_ran(run, backends, start, trace, end, output),
    ensures
        trace.len() <= backends.len(),
        0 <= k < trace.len() ==> call_ensures(
            run,
            (
                if k == 0 {
                    start
                } else {
                    trace[k - 1].0
                },
                &backends[k],
            ),
            trace[k],
        ),
        0 <= k < trace.len() && (k < trace.len() - 1 || output is Err) ==> trace[k].1 is Err
            || trace[k].1->Ok_0 is None,
        output matches Ok(found) ==> trace.len() > 0 && trace.last().1 is Ok
            && trace.last().1->Ok_0 == Some(found),
        output matches Err(error) ==> trace.len() == backends.len() && error@
            == "Unable to normalize media preview"@,
        end == if trace.len() == 0 {
            start
        } else {
            trace.last().0
        },
{
    if 0 <= k < trace.len() {
        assert(crate::fallback::attempted(run, backends, start, trace, k));
        assert(k < trace.len() - 1 ==> output_of(trace[k].1) is None);
    }
}

/// A device is one of its kind if its name is the kind's and at least one digit, and nothing else.
pub proof fn numbered_names_end_in_digits(name: Seq<u8>, prefix: Seq<u8>, i: int)
    ensures
        is_numbered(name, prefix) ==> name.len() > prefix.len() && (0 <= i < prefix.len() ==> name[i]
            == prefix[i]) && (prefix.len() <= i < name.len() ==> 48 <= name[i] <= 57),
        name.len() > prefix.len() && name.subrange(0, prefix.len() as int) == prefix && (forall|
            k: int,
        |
            prefix.len() <= k < name.len() ==> 48 <= #[trigger] name[k] <= 57) ==> is_numbered(
            name,
            prefix,
        ),
        render_node_prefix() == seq![0x72u8, 0x65u8, 0x6eu8, 0x64u8, 0x65u8, 0x72u8, 0x44u8],
        nvidia_prefix() == seq![0x6eu8, 0x76u8, 0x69u8, 0x64u8, 0x69u8, 0x61u8],
{
    assert(name.len() > prefix.len() ==> name.take(prefix.len() as int) =~= name.subrange(
        0,
        prefix.len() as int,
    ));
    if is_numbered(name, prefix) && 0 <= i < prefix.len() {
        assert(name.take(prefix.len() as int)[i] == prefix[i]);
    }
}

/// Hardware is tried through every render node there is if the policy allows that, and through
/// nothing else.
pub proof fn render_nodes_are_tried(
    devices: Seq<Seq<u8>>,
    policy: MediaPreviewBackend,
    device: Seq<u8>,
)
    ensures
        backend_order(devices, policy).contains(BackendView::VaApi(device)) <==> {
            &&& policy == MediaPreviewBackend::Automatic || policy == MediaPreviewBackend::VaApi
            &&& devices.contains(device)
            &&& file_name_of(device) is Some
            &&& is_numbered(file_name_of(device)->0, render_node_prefix())
        },
{
    let is_node = |d: Seq<u8>| is_numbered_device(d, render_node_prefix());
    let nodes = numbered_devices(devices, render_node_prefix());
    let sorted = sorted_paths(nodes);
    let vaapi = vaapi_candidates(devices);
    let order = backend_order(devices, policy);
    let allowed = policy == MediaPreviewBackend::Automatic || policy == MediaPreviewBackend::VaApi;
    crate::path::sorting_orders_and_keeps(nodes);
    vstd::seq_lib::to_multiset_contains(nodes, device);
    vstd::seq_lib::to_multiset_contains(sorted, device);
    if nodes.contains(device) {
        devices.lemma_filter_contains_rev(is_node, device);
        let i = nodes.index_of(device);
        devices.lemma_filter_pred(is_node, i);
        assert(is_node(nodes[i]));
    }
    if devices.contains(device) && is_node(device) {
        let i = devices.index_of(device);
        devices.lemma_filter_contains(is_node, i);
        assert(nodes.contains(devices[i]));
    }
    if sorted.contains(device) && allowed {
        let i = sorted.index_of(device);
        assert(vaapi[i] == BackendView::VaApi(device));
        assert(order[i] == vaapi[i]);
    }
    if order.contains(BackendView::VaApi(device)) {
        let i = order.index_of(BackendView::VaApi(device));
        assert(order[i] == BackendView::VaApi(device));
        assert(allowed && i < vaapi.len());
        assert(vaapi[i] == BackendView::VaApi(sorted[i]));
        assert(sorted[i] == device);
    }
}

/// Hardware is tried through as many Vulkan devices as there are render nodes or NVIDIA devices,
/// whichever are more, if the policy allows that.
pub proof fn vulkan_devices_are_tried(
    devices: Seq<Seq<u8>>,
    policy: MediaPreviewBackend,
    number: usize,
)
    requires
        devices.len() <= usize::MAX,
    ensures
        backend_order(devices, policy).contains(BackendView::Vulkan(number)) <==> {
            &&& policy == MediaPreviewBackend::Automatic || policy == MediaPreviewBackend::Vulkan
            &&& number < devices.filter(
                |device: Seq<u8>| is_numbered_device(device, render_node_prefix()),
            ).len() || number < devices.filter(
                |device: Seq<u8>| is_numbered_device(device, nvidia_prefix()),
            ).len()
        },
{
    let order = backend_order(devices, policy);
    let vulkan = vulkan_candidates(devices);
    let vaapi = if policy == MediaPreviewBackend::Automatic || policy
        == MediaPreviewBackend::VaApi {
        vaapi_candidates(devices)
    } else {
        Seq::empty()
    };
    let allowed = policy == MediaPreviewBackend::Automatic || policy
        == MediaPreviewBackend::Vulkan;
    devices.lemma_filter_len(|device: Seq<u8>| is_numbered_device(device, render_node_prefix()));
    devices.lemma_filter_len(|device: Seq<u8>| is_numbered_device(device, nvidia_prefix()));
    if allowed && number < vulkan_count(devices) {
        assert(vulkan[number as int] == BackendView::Vulkan(number));
        assert(order[vaapi.len() + number] == vulkan[number as int]);
    }
    if order.contains(BackendView::Vulkan(number)) {
        let i = order.index_of(BackendView::Vulkan(number));
        assert(order[i] == BackendView::Vulkan(number));
        assert(allowed && vaapi.len() <= i < vaapi.len() + vulkan.len());
        assert(order[i] == vulkan[i - vaapi.len()]);
        assert((i - vaapi.len()) as usize == number);
    }
}

/// Render nodes come before Vulkan devices, and both before software; render nodes go by their
/// paths, Vulkan devices from the first number on.
pub proof fn backends_keep_their_order(
    devices: Seq<Seq<u8>>,
    policy: MediaPreviewBackend,
    i: int,
)
    requires
        devices.len() <= usize::MAX,
        0 <= i < backend_order(devices, policy).len() - 1,
    ensures
        match (backend_order(devices, policy)[i], backend_order(devices, policy)[i + 1]) {
            (BackendView::VaApi(device), BackendView::VaApi(next)) => crate::path::path_order(
                device,
                next,
            ) != crate::path::Order::After,
            (BackendView::VaApi(_), BackendView::Vulkan(next)) => next == 0,
            (BackendView::VaApi(_), BackendView::Software) => true,
            (BackendView::Vulkan(number), BackendView::Vulkan(next)) => next == number + 1,
            (BackendView::Vulkan(_), BackendView::Software) => true,
            _ => false,
        },
{
    let order = backend_order(devices, policy);
    let nodes = numbered_devices(devices, render_node_prefix());
    crate::path::sorting_orders_and_keeps(nodes);
    devices.lemma_filter_len(|device: Seq<u8>| is_numbered_device(device, render_node_prefix()));
    devices.lemma_filter_len(|device: Seq<u8>| is_numbered_device(device, nvidia_prefix()));
    let vaapi = if policy == MediaPreviewBackend::Automatic || policy
        == MediaPreviewBackend::VaApi {
        vaapi_candidates(devices)
    } else {
        Seq::empty()
    };
    let vulkan = if policy == MediaPreviewBackend::Automatic || policy
        == MediaPreviewBackend::Vulkan {
        vulkan_candidates(devices)
    } else {
        Seq::empty()
    };
    if i + 1 < vaapi.len() {
        assert(order[i] == vaapi[i] && order[i + 1] == vaapi[i + 1]);
        assert(crate::path::in_order_at(sorted_paths(nodes), i));
    } else if i < vaapi.len() {
        assert(order[i] == vaapi[i]);
        if vulkan.len() > 0 {
            assert(order[i + 1] == vulkan[0]);
        }
    } else {
        assert(order[i] == vulkan[i - vaapi.len()]);
        if i + 1 < vaapi.len() + vulkan.len() {
            assert(order[i + 1] == vulkan[i + 1 - vaapi.len()]);
        }
    }
}

/// What a media command says, whatever the backend: how much memory and how large a frame it may
/// use, which file it reads, that it takes thirty seconds at most, and the rates of the result.
pub proof fn media_commands_keep_to_the_limits(backend: BackendView, path: Seq<u8>)
    ensures
        ({
            let said = media_arguments(backend, path);
            let input = 7 + (match backend {
                BackendView::VaApi(_) => 10int,
                BackendView::Vulkan(_) => 14int,
                BackendView::Software => 2int,
            });
            let rates = input + 10 + (match backend {
                BackendView::VaApi(_) => 4int,
                BackendView::Vulkan(_) => 8int,
                BackendView::Software => 12int,
            });
            &&& said[0] == ArgumentView::Text("-nostdin"@)
            &&& said[3] == ArgumentView::Text("-max_alloc"@) && said[4] == ArgumentView::Text(
                decimal(536_870_912),
            )
            &&& said[5] == ArgumentView::Text("-max_pixels"@) && said[6] == ArgumentView::Text(
                decimal(50_000_000),
            )
            &&& said[input] == ArgumentView::Text("-i"@) && said[input + 1] == ArgumentView::Path(
                path,
            )
            &&& said[input + 2] == ArgumentView::Text("-map"@) && said[input + 3]
                == ArgumentView::Text("0:v:0"@)
            &&& said[input + 4] == ArgumentView::Text("-map"@) && said[input + 5]
                == ArgumentView::Text("0:a:0?"@)
            &&& said[input + 8] == ArgumentView::Text("-t"@) && said[input + 9]
                == ArgumentView::Text("30"@)
            &&& said[rates] == ArgumentView::Text("-fpsmax"@) && said[rates + 1]
                == ArgumentView::Text("30"@)
            &&& said[rates + 2] == ArgumentView::Text("-b:v"@) && said[rates + 3]
                == ArgumentView::Text("2M"@)
            &&& said[rates + 4] == ArgumentView::Text("-maxrate"@) && said[rates + 5]
                == ArgumentView::Text("3M"@)
            &&& said[rates + 6] == ArgumentView::Text("-bufsize"@) && said[rates + 7]
                == ArgumentView::Text("4M"@)
            &&& said.last() == ArgumentView::Text("pipe:1"@)
        }),
{
    let said = media_arguments(backend, path);
    let decoder = decoder_arguments(backend);
    let video = video_arguments(backend);
    let before = limit_arguments() + decoder;
    let through = before + input_arguments(path);
    let filtered = through + video;
    let rated = filtered + rate_arguments();
    assert(before.len() == 7 + decoder.len());
    assert(through.len() == before.len() + 10);
    assert(said =~= rated + (container_arguments(backend) + texts(seq!["pipe:1"@])));
    assert forall|k: int| 0 <= k < rated.len() implies said[k] == #[trigger] rated[k] by {}
    assert forall|k: int| 0 <= k < 10 implies said[before.len() + k] == #[trigger] input_arguments(
        path,
    )[k] by {
        assert(rated[before.len() + k] == input_arguments(path)[k]);
    }
    assert forall|k: int| 0 <= k < 8 implies said[filtered.len() + k]
        == #[trigger] rate_arguments()[k] by {
        assert(rated[filtered.len() + k] == rate_arguments()[k]);
    }
    assert forall|k: int| 0 <= k < 7 implies said[k] == #[trigger] limit_arguments()[k] by {
        assert(rated[k] == limit_arguments()[k]);
    }
    let input = input_arguments(path);
    assert(said[before.len() as int + 0] == input[0] && said[before.len() as int + 1] == input[1]
        && said[before.len() as int + 2] == input[2] && said[before.len() as int + 3] == input[3]
        && said[before.len() as int + 4] == input[4] && said[before.len() as int + 5] == input[5]
        && said[before.len() as int + 8] == input[8] && said[before.len() as int + 9] == input[9]);
    let rates = rate_arguments();
    assert(said[filtered.len() as int + 0] == rates[0] && said[filtered.len() as int + 1] == rates[1]
        && said[filtered.len() as int + 2] == rates[2] && said[filtered.len() as int + 3] == rates[3]
        && said[filtered.len() as int + 4] == rates[4] && said[filtered.len() as int + 5] == rates[5]
        && said[filtered.len() as int + 6] == rates[6] && said[filtered.len() as int + 7] == rates[7]);
    let limits = limit_arguments();
    assert(said[0] == limits[0] && said[3] == limits[3] && said[4] == limits[4] && said[5]
        == limits[5] && said[6] == limits[6]);
}

/// What a backend adds to a media command: its decoder and device, its encoder, and a container
/// that its result fits in. Hardware runs with one memory arena, software in the environment as it
/// is.
pub proof fn backends_speak_for_themselves(backend: BackendView, path: Seq<u8>)
    ensures
        ({
            let said = media_arguments(backend, path);
            match backend {
                BackendView::VaApi(device) => {
                    &&& said[11] == ArgumentView::Text("-hwaccel"@) && said[12]
                        == ArgumentView::Text("vaapi"@)
                    &&& said[13] == ArgumentView::Text("-hwaccel_device"@) && said[14]
                        == ArgumentView::Path(device)
                    &&& said[29] == ArgumentView::Text("-c:v"@) && said[30] == ArgumentView::Text(
                        "h264_vaapi"@,
                    )
                    &&& said[said.len() - 3] == ArgumentView::Text("-f"@) && said[said.len() - 2]
                        == ArgumentView::Text("mp4"@)
                },
                BackendView::Vulkan(number) => {
                    &&& said[11] == ArgumentView::Text("-init_hw_device"@) && said[12]
                        == ArgumentView::Text("vulkan=vk:"@ + decimal(number as nat))
                    &&& said[15] == ArgumentView::Text("-hwaccel"@) && said[16]
                        == ArgumentView::Text("vulkan"@)
                    &&& said[33] == ArgumentView::Text("-c:v"@) && said[34] == ArgumentView::Text(
                        "h264_vulkan"@,
                    )
                    &&& said[said.len() - 3] == ArgumentView::Text("-f"@) && said[said.len() - 2]
                        == ArgumentView::Text("mp4"@)
                },
                BackendView::Software => {
                    &&& said[7] == ArgumentView::Text("-threads"@) && said[8]
                        == ArgumentView::Text("2"@)
                    &&& said[21] == ArgumentView::Text("-c:v"@) && said[22] == ArgumentView::Text(
                        "libvpx"@,
                    )
                    &&& said[said.len() - 3] == ArgumentView::Text("-f"@) && said[said.len() - 2]
                        == ArgumentView::Text("webm"@)
                },
            }
        }),
        backend == BackendView::Software ==> media_environment(backend).len() == 0,
        backend != BackendView::Software ==> media_environment(backend).len() == 1
            && media_environment(backend)[0].0 == "MALLOC_ARENA_MAX"@
            && media_environment(backend)[0].1 == "1"@,
{
    let said = media_arguments(backend, path);
    let decoder = decoder_arguments(backend);
    let video = video_arguments(backend);
    let container = container_arguments(backend);
    let before = limit_arguments() + decoder;
    let through = before + input_arguments(path);
    let filtered = through + video;
    let rated = filtered + rate_arguments();
    let closed = rated + container;
    assert(said =~= closed + texts(seq!["pipe:1"@]));
    assert forall|k: int| 0 <= k < decoder.len() implies said[7 + k] == #[trigger] decoder[k] by {
        assert(before[7 + k] == decoder[k]);
        assert(closed[7 + k] == before[7 + k]);
    }
    assert forall|k: int| 0 <= k < video.len() implies said[through.len() + k]
        == #[trigger] video[k] by {
        assert(filtered[through.len() + k] == video[k]);
        assert(closed[through.len() + k] == filtered[through.len() + k]);
    }
    assert forall|k: int| 0 <= k < container.len() implies said[rated.len() + k]
        == #[trigger] container[k] by {
        assert(closed[rated.len() + k] == container[k]);
    }
    assert(through.len() == 17 + decoder.len());
    match backend {
        BackendView::VaApi(device) => {
            assert(said[7int + 4] == decoder[4] && said[7int + 5] == decoder[5] && said[7int + 6]
                == decoder[6] && said[7int + 7] == decoder[7]);
            assert(said[through.len() as int + 2] == video[2] && said[through.len() as int + 3] == video[3]);
            assert(said[rated.len() as int + 6] == container[6] && said[rated.len() as int + 7] == container[7]);
        },
        BackendView::Vulkan(number) => {
            assert(said[7int + 4] == decoder[4] && said[7int + 5] == decoder[5] && said[7int + 8]
                == decoder[8] && said[7int + 9] == decoder[9]);
            assert(said[through.len() as int + 2] == video[2] && said[through.len() as int + 3] == video[3]);
            assert(said[rated.len() as int + 6] == container[6] && said[rated.len() as int + 7] == container[7]);
        },
        BackendView::Software => {
            assert(said[7int + 0] == decoder[0] && said[7int + 1] == decoder[1]);
            assert(said[through.len() as int + 2] == video[2] && said[through.len() as int + 3] == video[3]);
            assert(said[rated.len() as int + 4] == container[4] && said[rated.len() as int + 5] == container[5]);
        },
    }
}

/// Every argument of a media command beside those that all backends share, for each backend, and
/// how many there are in all: what is decoded on hardware stays there until it is encoded, and the
/// result is at most 1280 pixels wide or high.
pub proof fn media_commands_are_complete(backend: BackendView, path: Seq<u8>)
    ensures
        media_arguments(backend, path).len() == (match backend {
            BackendView::VaApi(_) => 48nat,
            BackendView::Vulkan(_) => 56nat,
            BackendView::Software => 46nat,
        }),
        ({
            let said = decoder_arguments(backend) + video_arguments(backend) + container_arguments(
                backend,
            );
            match backend {
                BackendView::VaApi(device) => {
                    &&& said[0] == ArgumentView::Text("-threads"@) && said[1] == ArgumentView::Text(
                        "1"@,
                    )
                    &&& said[2] == ArgumentView::Text("-filter_threads"@) && said[3]
                        == ArgumentView::Text("1"@)
                    &&& said[8] == ArgumentView::Text("-hwaccel_output_format"@) && said[9]
                        == ArgumentView::Text("vaapi"@)
                    &&& said[10] == ArgumentView::Text("-vf"@) && said[11] == ArgumentView::Text(
                        "scale_vaapi=w=1280:h=1280:force_original_aspect_ratio=decrease:force_divisible_by=16:format=nv12"@,
                    )
                    &&& said[14] == ArgumentView::Text("-c:a"@) && said[15] == ArgumentView::Text(
                        "aac"@,
                    )
                    &&& said[16] == ArgumentView::Text("-b:a"@) && said[17] == ArgumentView::Text(
                        "96k"@,
                    )
                    &&& said[18] == ArgumentView::Text("-movflags"@) && said[19]
                        == ArgumentView::Text("+frag_keyframe+empty_moov"@)
                },
                BackendView::Vulkan(number) => {
                    &&& said[0] == ArgumentView::Text("-threads"@) && said[1] == ArgumentView::Text(
                        "1"@,
                    )
                    &&& said[2] == ArgumentView::Text("-filter_threads"@) && said[3]
                        == ArgumentView::Text("1"@)
                    &&& said[6] == ArgumentView::Text("-filter_hw_device"@) && said[7]
                        == ArgumentView::Text("vk"@)
                    &&& said[10] == ArgumentView::Text("-hwaccel_device"@) && said[11]
                        == ArgumentView::Text("vk"@)
                    &&& said[12] == ArgumentView::Text("-hwaccel_output_format"@) && said[13]
                        == ArgumentView::Text("vulkan"@)
                    &&& said[14] == ArgumentView::Text("-vf"@) && said[15] == ArgumentView::Text(
                        "scale_vulkan=w='max(16,trunc(min(iw,iw*1280/max(iw,ih))/16)*16)':h='max(16,trunc(min(ih,ih*1280/max(iw,ih))/16)*16)':format=nv12"@,
                    )
                    &&& said[18] == ArgumentView::Text("-usage"@) && said[19] == ArgumentView::Text(
                        "transcode"@,
                    )
                    &&& said[20] == ArgumentView::Text("-tune"@) && said[21] == ArgumentView::Text(
                        "ull"@,
                    )
                    &&& said[22] == ArgumentView::Text("-c:a"@) && said[23] == ArgumentView::Text(
                        "aac"@,
                    )
                    &&& said[24] == ArgumentView::Text("-b:a"@) && said[25] == ArgumentView::Text(
                        "96k"@,
                    )
                    &&& said[26] == ArgumentView::Text("-movflags"@) && said[27]
                        == ArgumentView::Text("+frag_keyframe+empty_moov"@)
                },
                BackendView::Software => {
                    &&& said[2] == ArgumentView::Text("-vf"@) && said[3] == ArgumentView::Text(
                        "scale=w=1280:h=1280:force_original_aspect_ratio=decrease,format=yuv420p"@,
                    )
                    &&& said[6] == ArgumentView::Text("-auto-alt-ref"@) && said[7]
                        == ArgumentView::Text("0"@)
                    &&& said[8] == ArgumentView::Text("-threads"@) && said[9] == ArgumentView::Text(
                        "2"@,
                    )
                    &&& said[10] == ArgumentView::Text("-deadline"@) && said[11]
                        == ArgumentView::Text("realtime"@)
                    &&& said[12] == ArgumentView::Text("-cpu-used"@) && said[13]
                        == ArgumentView::Text("8"@)
                    &&& said[14] == ArgumentView::Text("-c:a"@) && said[15] == ArgumentView::Text(
                        "libopus"@,
                    )
                    &&& said[16] == ArgumentView::Text("-b:a"@) && said[17] == ArgumentView::Text(
                        "96k"@,
                    )
                },
            }
        }),
        limit_arguments()[1] == ArgumentView::Text("-v"@) && limit_arguments()[2]
            == ArgumentView::Text("error"@),
        input_arguments(path)[6] == ArgumentView::Text("-sn"@) && input_arguments(path)[7]
            == ArgumentView::Text("-dn"@),
{
}

/// The backends of a list are its own, one for one.
pub proof fn backends_are_kept(backends: Seq<MediaBackend>, i: int)
    ensures
        backend_views(backends).len() == backends.len(),
        0 <= i < backends.len() ==> (match backends[i] {
            MediaBackend::VaApi(device) => backend_views(backends)[i] == BackendView::VaApi(
                device@,
            ),
            MediaBackend::Vulkan(number) => backend_views(backends)[i] == BackendView::Vulkan(
                number,
            ),
            MediaBackend::Software => backend_views(backends)[i] == BackendView::Software,
        }),
{
}

} // verus!
