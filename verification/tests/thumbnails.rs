use strata::decode::{
    check_texture_pixels, check_texture_size, decode_png, DecodeError, MAX_TEXTURE_BYTES,
};
use strata::icons_cell::{icons_card_extent, icons_card_icon_slot, label_height, set_slot};
use strata::pixels::{packed_picture, rgba_pixels, PictureShape, PixelError};
use strata::queue::{Admission, ThumbnailKind, ThumbnailQueue, MAX_QUEUED_THUMBNAILS, RENDER_LIMIT};
use strata::slot::{same_texture, ThumbnailSlot};
use strata::viewport::{
    priority, reached_ninety, widget_priority, PaintProgress, Priority, SettleView, TargetSample,
    Targets, ViewportSample, WidgetSample, TARGET_SWEEP,
};

#[test]
fn heavy_only_queue_waits_for_the_active_heavy_execution() {
    let mut queue = ThumbnailQueue::default();
    for index in 0..4 {
        assert!(queue.enqueue_kind(index, ThumbnailKind::Pdf));
    }
    assert_eq!(queue.begin_next(), Some(0));
    assert!(queue.begin_next().is_none());
    assert_eq!(queue.heavy_running(), 1);
    assert!(queue.enqueue_kind(4, ThumbnailKind::Image));
    assert_eq!(queue.begin_next(), Some(4));
    assert!(queue.begin_next().is_none());
    queue.finish_key(0);
    assert_eq!(queue.begin_next(), Some(1));
    queue.finish_key(0);
    assert_eq!(queue.running(), 2);
    assert_eq!(queue.heavy_running(), 1);
}

#[test]
fn stale_execution_cannot_release_a_replacement_permit() {
    let key = 601;
    let mut queue = ThumbnailQueue::default();
    queue.enqueue_kind(key, ThumbnailKind::Pdf);
    queue.begin_next().expect("admitted heavy job");
    assert!(queue.set_active_id(key, 20));
    queue.finish_thumbnail_slot(key, 19);
    assert_eq!(queue.running(), 1);
    queue.finish_thumbnail_slot(key, 20);
    assert_eq!(queue.running(), 0);
    queue.finish_thumbnail_slot(key, 20);
    assert_eq!(queue.running(), 0);
}

#[test]
fn visible_render_jobs_pass_prefetch_without_changing_worker_or_heavy_limits() {
    let mut queue = ThumbnailQueue::default();
    for index in 0..48 {
        assert!(queue.enqueue_kind(index, ThumbnailKind::Image));
    }
    assert!(queue.enqueue_kind(48, ThumbnailKind::Pdf));
    for index in 49..53 {
        assert!(queue.enqueue_kind(index, ThumbnailKind::Image));
    }
    let priority = |key: u64| {
        if key >= 48 {
            Priority::Visible
        } else {
            Priority::Nearby
        }
    };
    for index in [49, 50, 51, 48] {
        assert_eq!(queue.begin_next_prioritized(priority), Some(index));
    }
    assert!(queue.begin_next_prioritized(priority).is_none());
    assert_eq!(queue.heavy_running(), 1);
    queue.finish_key(49);
    assert_eq!(queue.begin_next_prioritized(priority), Some(52));
    assert_eq!(queue.running(), 4);
}

#[test]
fn blocked_visible_heavy_work_does_not_waste_raster_capacity() {
    let mut queue = ThumbnailQueue::default();
    queue.enqueue_kind(0, ThumbnailKind::Pdf);
    assert_eq!(queue.begin_next(), Some(0));
    queue.enqueue_kind(1, ThumbnailKind::Pdf);
    queue.enqueue_kind(2, ThumbnailKind::Image);
    assert_eq!(
        queue.begin_next_prioritized(|candidate| if candidate == 1 {
            Priority::Visible
        } else {
            Priority::Nearby
        }),
        Some(2)
    );
    assert!(queue
        .begin_next_prioritized(|_| Priority::Visible)
        .is_none());
    queue.finish_key(0);
    assert_eq!(
        queue.begin_next_prioritized(|_| Priority::Visible),
        Some(1)
    );
}

#[test]
fn queue_is_bounded_and_knows_every_request_once() {
    let mut queue = ThumbnailQueue::default();
    for key in 0..MAX_QUEUED_THUMBNAILS as u64 {
        assert!(queue.enqueue_kind(key, ThumbnailKind::Image));
    }
    assert!(!queue.enqueue_kind(1_000, ThumbnailKind::Image));
    assert!(!queue.enqueue_kind(3, ThumbnailKind::Image));
    for expected in 0..RENDER_LIMIT as u64 {
        assert_eq!(queue.begin_next(), Some(expected));
    }
    assert_eq!(queue.begin_next(), None);
    assert!(!queue.enqueue_kind(0, ThumbnailKind::Image));
    assert_eq!(queue.queued_len(), MAX_QUEUED_THUMBNAILS - RENDER_LIMIT);
    assert_eq!(queue.queued_at(0).map(|waiting| waiting.key), Some(4));
    assert!(!queue.set_active_id(9, 1));
    queue.finish_key(9);
    assert_eq!(queue.running(), RENDER_LIMIT);
    assert_eq!(
        queue.begin_next_prioritized(|_| Priority::Paused),
        None
    );
}

#[test]
fn full_queues_make_room_for_visible_requests() {
    let mut queue = ThumbnailQueue::default();
    for key in 0..MAX_QUEUED_THUMBNAILS as u64 {
        let waiting = vec![Priority::Nearby; queue.queued_len()];
        assert_eq!(
            queue.enqueue_prioritized(key, ThumbnailKind::Image, Priority::Nearby, &waiting),
            Admission::Queued
        );
    }
    let mut waiting = vec![Priority::Nearby; MAX_QUEUED_THUMBNAILS];
    waiting[MAX_QUEUED_THUMBNAILS - 1] = Priority::Visible;
    assert_eq!(
        queue.enqueue_prioritized(100, ThumbnailKind::Image, Priority::Nearby, &waiting),
        Admission::Refused
    );
    assert_eq!(
        queue.enqueue_prioritized(5, ThumbnailKind::Image, Priority::Visible, &waiting),
        Admission::Refused
    );
    assert_eq!(
        queue.enqueue_prioritized(100, ThumbnailKind::Image, Priority::Visible, &waiting),
        Admission::Displaced(62)
    );
    assert_eq!(queue.queued_len(), MAX_QUEUED_THUMBNAILS);
    assert_eq!(queue.queued_at(63).map(|waiting| waiting.key), Some(100));
    assert_eq!(queue.queued_at(62).map(|waiting| waiting.key), Some(63));
    let visible = vec![Priority::Visible; MAX_QUEUED_THUMBNAILS];
    assert_eq!(
        queue.enqueue_prioritized(101, ThumbnailKind::Image, Priority::Visible, &visible),
        Admission::Refused
    );
    assert_eq!(
        queue.begin_next_prioritized(|key| if key == 100 {
            Priority::Visible
        } else {
            Priority::Nearby
        }),
        Some(100)
    );
}

#[test]
fn parked_requests_do_not_begin() {
    let mut queue = ThumbnailQueue::default();
    queue.enqueue_kind(1, ThumbnailKind::Image);
    queue.enqueue_kind(2, ThumbnailKind::Raw);
    queue.enqueue_kind(3, ThumbnailKind::Video);
    assert_eq!(
        queue.begin_next_prioritized(|key| if key == 1 {
            Priority::Deferred
        } else {
            Priority::Paused
        }),
        None
    );
    assert_eq!(queue.queued_len(), 3);
    assert_eq!(
        queue.begin_due(&[Priority::Deferred, Priority::Nearby, Priority::Visible]),
        Some(3)
    );
}

#[test]
fn ninety_percent_rounds_up_without_overflow_or_empty_success() {
    assert!(!reached_ninety(0, 0));
    assert!(!reached_ninety(16, 14));
    assert!(reached_ninety(16, 15));
    assert!(reached_ninety(10, 9));
    assert!(!reached_ninety(1, 0));
    assert!(reached_ninety(usize::MAX, usize::MAX));
}

fn widget(viewports: Vec<ViewportSample>, window: Option<Priority>) -> WidgetSample {
    WidgetSample {
        mapped: true,
        width: 32,
        height: 32,
        viewports,
        window,
    }
}

fn view(paused: bool, position: Option<Priority>) -> ViewportSample {
    ViewportSample { paused, position }
}

#[test]
fn nested_views_give_the_least_favourable_priority() {
    let nested = widget(
        vec![
            view(false, Some(Priority::Visible)),
            view(false, Some(Priority::Nearby)),
        ],
        Some(Priority::Visible),
    );
    assert_eq!(widget_priority(&nested, true), Priority::Nearby);
    let paused = widget(
        vec![
            view(false, Some(Priority::Deferred)),
            view(true, Some(Priority::Visible)),
        ],
        None,
    );
    assert_eq!(widget_priority(&paused, true), Priority::Paused);
    assert_eq!(widget_priority(&paused, false), Priority::Deferred);
    let unknown = widget(vec![view(false, None), view(true, None)], None);
    assert_eq!(widget_priority(&unknown, true), Priority::Deferred);
    let loose = widget(Vec::new(), Some(Priority::Nearby));
    assert_eq!(widget_priority(&loose, true), Priority::Nearby);
    assert_eq!(
        widget_priority(&widget(Vec::new(), None), true),
        Priority::Deferred
    );
    let mut unmapped = widget(vec![view(false, Some(Priority::Visible))], None);
    unmapped.mapped = false;
    assert_eq!(widget_priority(&unmapped, true), Priority::Deferred);
    let shown = widget(vec![view(false, Some(Priority::Visible))], None);
    assert_eq!(priority(true, Some(&shown)), Priority::Visible);
    assert_eq!(priority(false, Some(&shown)), Priority::Deferred);
    assert_eq!(priority(true, None), Priority::Deferred);
}

#[test]
fn targets_are_tracked_by_widget_and_swept() {
    let mut targets = Targets::new();
    assert!(targets.track(1, 10, b"/a".to_vec(), &[]));
    assert!(!targets.track(1, 10, b"/b".to_vec(), &[]));
    assert_eq!(targets.len(), 1);
    assert_eq!(targets.at(1).expect("target").path, b"/b".to_vec());
    targets.untrack(1);
    assert!(!targets.at(1).expect("target").active);
    targets.untrack(2);
    assert!(targets.at(2).is_none());
    assert!(targets.track(1, 11, b"/c".to_vec(), &[]));
    assert!(targets.at(1).expect("target").active);
    assert_eq!(targets.len(), 1);
    for address in 2..TARGET_SWEEP as u64 {
        assert!(targets.track(address, 100 + address, Vec::new(), &[]));
    }
    assert_eq!(targets.len(), TARGET_SWEEP - 1);
    assert!(targets.track(500, 500, Vec::new(), &[(1, 9), (1, 11), (500, 500), (3, 7)]));
    assert_eq!(targets.len(), 2);
    assert_eq!(targets.at(1).map(|target| target.widget), Some(11));
    assert_eq!(targets.at(500).map(|target| target.widget), Some(500));
}

fn sample(widget: u64, visible: bool, displayed: Option<&[u8]>) -> TargetSample {
    TargetSample {
        widget,
        path: vec![widget as u8],
        active: true,
        in_viewport: true,
        visible,
        displayed: displayed.map(|path| path.to_vec()),
    }
}

#[test]
fn milestones_count_a_fixed_cohort_of_visible_targets() {
    let mut settled = SettleView {
        scrolling: true,
        paint: PaintProgress::new(1, 1_000),
    };
    let mut samples: Vec<TargetSample> = (0..10)
        .map(|widget| sample(widget, true, None))
        .collect();
    samples.push(sample(10, false, Some(&[10])));
    assert_eq!(settled.sample_paint(&samples, 1_500), None);
    settled.set_scrolling(false, 2, 1_600);
    let report = settled.sample_paint(&samples, 2_000).expect("report");
    assert_eq!((report.total, report.ready), (10, 0));
    assert_eq!(report.elapsed, 1_000);
    assert!(!report.first && !report.ninety);
    for widget in 0..8u8 {
        samples[widget as usize].displayed = Some(vec![widget]);
    }
    let report = settled.sample_paint(&samples, 2_000).expect("report");
    assert!(report.first && !report.ninety);
    samples[8].displayed = Some(vec![99]);
    let report = settled.sample_paint(&samples, 2_000).expect("report");
    assert_eq!(report.ready, 8);
    assert!(!report.first && !report.ninety);
    samples[8].displayed = Some(vec![8]);
    let report = settled.sample_paint(&samples, 2_000).expect("report");
    assert!(!report.first && report.ninety);
    assert_eq!(settled.sample_paint(&samples, 3_000), None);
    settled.set_scrolling(true, 3, 4_000);
    assert_eq!(settled.paint.epoch, 3);
    assert!(settled.paint.cohort.is_none() && !settled.paint.ninety);
    settled.set_scrolling(false, 4, 5_000);
    assert_eq!(settled.sample_paint(&[], 6_000), None);
    assert!(settled.paint.cohort.is_none());
    let mut fresh = SettleView {
        scrolling: false,
        paint: PaintProgress::default(),
    };
    assert_eq!(fresh.sample_paint(&samples, 1), None);
}

#[test]
fn decoded_textures_stay_in_bounds() {
    assert_eq!(decode_png(1, 1, 4, 4), Ok(4));
    assert_eq!(decode_png(512, 512, 2_048, MAX_TEXTURE_BYTES), Ok(MAX_TEXTURE_BYTES));
    assert_eq!(decode_png(513, 1, 2_052, 2_052), Err(DecodeError::Dimensions));
    assert_eq!(decode_png(0, 1, 4, 4), Err(DecodeError::Dimensions));
    assert_eq!(check_texture_size(16, 9), Ok(64));
    assert_eq!(check_texture_pixels(16, 9, 60, 540), Err(DecodeError::Bounds));
    assert_eq!(check_texture_pixels(16, 9, 64, 575), Err(DecodeError::Bounds));
    assert_eq!(
        check_texture_pixels(16, 512, 4_096, 2_097_152),
        Err(DecodeError::Bounds)
    );
    assert_eq!(
        check_texture_pixels(16, 9, usize::MAX, 1),
        Err(DecodeError::TextureOverflowed)
    );
    assert_eq!(
        DecodeError::Bounds.message(),
        "thumbnail pixel buffer has invalid bounds"
    );
}

#[test]
fn slots_ask_for_work_only_when_something_changes() {
    let mut slot = ThumbnailSlot::new(0);
    assert_eq!(slot.slot_size(), 1);
    assert!(slot.set_slot(64));
    assert!(!slot.set_slot(64));
    assert_eq!(slot.measure(), (64, 64, -1, -1));
    assert!(slot.set_fallback("folder", Some(7)));
    assert!(!slot.set_fallback("folder", Some(7)));
    assert_eq!(slot.drawn(10, 10), Some(7));
    assert!(slot.set_texture(8));
    assert!(!slot.set_texture(8));
    assert_eq!(slot.texture(), Some(8));
    assert_eq!(slot.drawn(10, 10), Some(8));
    assert_eq!(slot.drawn(0, 10), None);
    assert!(slot.set_fallback("folder", Some(7)));
    assert_eq!(slot.texture(), None);
    assert!(slot.set_fallback("file", Some(7)));
    assert!(same_texture(None, None));
    assert!(!same_texture(Some(1), None));
}

#[test]
fn cards_have_bounded_sizes() {
    assert_eq!(icons_card_icon_slot(26), 64);
    assert_eq!(icons_card_icon_slot(512), 256);
    assert_eq!(icons_card_extent(64), (156, 107));
    assert_eq!(label_height(), 36);
    assert_eq!(set_slot((156, 107), 64), (None, 64));
    assert_eq!(set_slot((156, 107), 256), (Some((256, 299)), 256));
}

#[test]
fn pictures_are_packed_without_padding() {
    let shape = PictureShape {
        width: 2,
        height: 2,
        channels: 3,
        rowstride: 8,
    };
    let source = [1, 2, 3, 4, 5, 6, 0, 0, 7, 8, 9, 10, 11, 12];
    let image = rgba_pixels(shape, &source).expect("packed picture");
    assert_eq!((image.width, image.height, image.stride), (2, 2, 8));
    assert_eq!(
        image.pixels,
        vec![1, 2, 3, 255, 4, 5, 6, 255, 7, 8, 9, 255, 10, 11, 12, 255]
    );
    let opaque = PictureShape {
        width: 1,
        height: 1,
        channels: 4,
        rowstride: 4,
    };
    assert_eq!(
        rgba_pixels(opaque, &[9, 8, 7, 6]).map(|image| image.pixels),
        Ok(vec![9, 8, 7, 6])
    );
    assert_eq!(
        rgba_pixels(shape, &source[..13]),
        Err(PixelError::Truncated)
    );
    let with = |width: i32, height: i32, channels: i32, rowstride: i32| {
        rgba_pixels(
            PictureShape {
                width,
                height,
                channels,
                rowstride,
            },
            &source,
        )
    };
    assert_eq!(with(65_536, 1, 3, 8), Err(PixelError::WidthOverflowed));
    assert_eq!(with(1, -1, 3, 8), Err(PixelError::HeightOverflowed));
    assert_eq!(with(1, 1, 2, 8), Err(PixelError::InvalidMetadata));
    assert_eq!(with(0, 1, 3, 8), Err(PixelError::InvalidMetadata));
    assert_eq!(with(1, 1, 3, -8), Err(PixelError::InvalidRowstride));
    assert_eq!(packed_picture(None), Err(PixelError::NoPixels));
    assert_eq!(
        packed_picture(Some((opaque, &[9, 8, 7, 6]))),
        rgba_pixels(opaque, &[9, 8, 7, 6])
    );
    assert_eq!(
        PixelError::NoPixels.message(),
        "Thumbnail worker produced no pixels"
    );
    assert_eq!(
        PixelError::Truncated.message(),
        "thumbnail pixel buffer was truncated"
    );
}
