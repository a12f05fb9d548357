//! What is in view, and when a view has filled with thumbnails.
use std::collections::HashMap;

use vstd::prelude::*;

use crate::bytes::equal_bytes;

verus! {

/// How urgent a thumbnail is, the most urgent first.
#[derive(Clone, Copy, Debug, PartialEq, Eq, Structural)]
pub enum Priority {
    Visible,
    Nearby,
    Paused,
    Deferred,
}

impl Priority {
    /// The place in the order of urgency.
    pub open spec fn rank(self) -> int {
        match self {
            Priority::Visible => 0,
            Priority::Nearby => 1,
            Priority::Paused => 2,
            Priority::Deferred => 3,
        }
    }

    /// The less urgent of two.
    pub open spec fn spec_later(self, other: Priority) -> Priority {
        if self.rank() >= other.rank() {
            self
        } else {
            other
        }
    }

    fn place(self) -> (place: u8)
        ensures
            place == self.rank(),
    {
        match self {
            Priority::Visible => 0,
            Priority::Nearby => 1,
            Priority::Paused => 2,
            Priority::Deferred => 3,
        }
    }

    /// The less urgent of two.
    pub fn later(self, other: Priority) -> (later: Priority)
        ensures
            later == self.spec_later(other),
    {
        if self.place() >= other.place() {
            self
        } else {
            other
        }
    }
}

/// How a thumbnail lies in one of the scrolled views around it.
#[derive(Clone, Copy, Debug, PartialEq, Eq, Structural)]
pub struct ViewportSample {
    /// The view is being scrolled and takes nothing in.
    pub paused: bool,
    /// Where the thumbnail lies in the view; `None` if that is not known.
    pub position: Option<Priority>,
}

/// What is known of a thumbnail's place on screen.
#[derive(Debug)]
pub struct WidgetSample {
    pub mapped: bool,
    pub width: i32,
    pub height: i32,
    /// The scrolled views around it, the innermost first.
    pub viewports: Vec<ViewportSample>,
    /// Where it lies in its window, if it has one.
    pub window: Option<Priority>,
}

/// The priority that scrolled views give, one after the other: a view that is paused or
/// unknown decides at once; otherwise the least favourable one does, `so_far` included.
pub open spec fn viewports_priority(
    viewports: Seq<ViewportSample>,
    gated: bool,
    so_far: Priority,
) -> Priority
    decreases viewports.len(),
{
    if viewports.len() == 0 {
        so_far
    } else if gated && viewports[0].paused {
        Priority::Paused
    } else {
        match viewports[0].position {
            None => Priority::Deferred,
            Some(position) => viewports_priority(
                viewports.drop_first(),
                gated,
                so_far.spec_later(position),
            ),
        }
    }
}

/// The priority of a thumbnail by its place on screen.
pub open spec fn sample_priority(sample: WidgetSample, gated: bool) -> Priority {
    if !sample.mapped || sample.width <= 0 || sample.height <= 0 {
        Priority::Deferred
    } else if sample.viewports@.len() > 0 {
        viewports_priority(sample.viewports@, gated, Priority::Visible)
    } else {
        match sample.window {
            Some(position) => position,
            None => Priority::Deferred,
        }
    }
}

/// The priority of a thumbnail by its place on screen; views that are being scrolled hold it
/// back if `respect_scroll_gate`.
pub fn widget_priority(sample: &WidgetSample, respect_scroll_gate: bool) -> (priority: Priority)
    ensures
        priority == sample_priority(*sample, respect_scroll_gate),
{
    if !sample.mapped || sample.width <= 0 || sample.height <= 0 {
        return Priority::Deferred;
    }
    let ghost all = sample.viewports@;
    let mut priority = Priority::Visible;
    let mut index: usize = 0;
    assert(all.skip(0) =~= all);
    while index < sample.viewports.len()
        invariant
            index <= sample.viewports.len(),
            all == sample.viewports@,
            viewports_priority(all, respect_scroll_gate, Priority::Visible) == viewports_priority(
                all.skip(index as int),
                respect_scroll_gate,
                priority,
            ),
            sample.mapped,
            sample.width > 0,
            sample.height > 0,
        decreases sample.viewports.len() - index,
    {
        let viewport = sample.viewports[index];
        assert(all.skip(index as int)[0] == viewport);
        assert(all.skip(index as int).drop_first() =~= all.skip(index + 1));
        if respect_scroll_gate && viewport.paused {
            return Priority::Paused;
        }
        match viewport.position {
            None => {
                return Priority::Deferred;
            },
            Some(position) => {
                priority = priority.later(position);
            },
        }
        index = index + 1;
    }
    if sample.viewports.len() == 0 {
        return match sample.window {
            Some(position) => position,
            None => Priority::Deferred,
        };
    }
    priority
}

/// The priority of a request: one whose consumer is gone can wait.
pub fn priority(live: bool, image: Option<&WidgetSample>) -> (priority: Priority)
    ensures
        priority == match image {
            Some(sample) if live => sample_priority(*sample, true),
            _ => Priority::Deferred,
        },
{
    if !live {
        return Priority::Deferred;
    }
    match image {
        Some(sample) => widget_priority(sample, true),
        None => Priority::Deferred,
    }
}

proof fn lemma_no_more_urgent(viewports: Seq<ViewportSample>, gated: bool, so_far: Priority)
    ensures
        viewports_priority(viewports, gated, so_far).rank() >= so_far.rank()
            || viewports_priority(viewports, gated, so_far) == Priority::Paused,
    decreases viewports.len(),
{
    if viewports.len() > 0 && viewports[0].position is Some {
        lemma_no_more_urgent(
            viewports.drop_first(),
            gated,
            so_far.spec_later(viewports[0].position->0),
        );
    }
}

/// Where views are nested, the whole is never more urgent than any one of them, unless one
/// of them is paused.
pub proof fn nested_views_all_count(
    viewports: Seq<ViewportSample>,
    gated: bool,
    so_far: Priority,
    i: int,
)
    requires
        0 <= i < viewports.len(),
        viewports[i].position is Some,
    ensures
        viewports_priority(viewports, gated, so_far).rank() >= viewports[i].position->0.rank()
            || viewports_priority(viewports, gated, so_far) == Priority::Paused,
    decreases viewports.len(),
{
    if !(gated && viewports[0].paused) && viewports[0].position is Some {
        let next = so_far.spec_later(viewports[0].position->0);
        if i > 0 {
            nested_views_all_count(viewports.drop_first(), gated, next, i - 1);
        } else {
            lemma_no_more_urgent(viewports.drop_first(), gated, next);
        }
    }
}

/// Targets whose widgets are gone are looked for when their number is a multiple of this.
pub const TARGET_SWEEP: usize = 64;

/// A thumbnail on screen: its widget, by a number that no other widget ever has; and the file
/// it is to show.
#[derive(Debug)]
pub struct Target {
    pub widget: u64,
    pub path: Vec<u8>,
    pub active: bool,
}

/// A target as a value.
pub ghost struct TargetView {
    pub widget: u64,
    pub path: Seq<u8>,
    pub active: bool,
}

impl View for Target {
    type V = TargetView;

    open spec fn view(&self) -> TargetView {
        TargetView { widget: self.widget, path: self.path@, active: self.active }
    }
}

/// The thumbnails that are being watched, each by the address of its widget. A later widget
/// may have the address of one that is gone.
#[derive(Debug)]
pub struct Targets {
    by_address: HashMap<u64, Target>,
}

impl View for Targets {
    type V = Map<u64, TargetView>;

    closed spec fn view(&self) -> Map<u64, TargetView> {
        target_views(self.by_address@)
    }
}

/// Targets as values.
pub open spec fn target_views(targets: Map<u64, Target>) -> Map<u64, TargetView> {
    targets.map_values(|target: Target| target@)
}

/// Whether a widget is not the one that is watched at its address.
pub open spec fn is_new_target(targets: Map<u64, TargetView>, address: u64, widget: u64) -> bool {
    !targets.contains_key(address) || targets[address].widget != widget
}

/// The targets whose widgets still exist; `live` are the addresses and numbers of all widgets
/// that do.
pub open spec fn surviving(targets: Map<u64, TargetView>, live: Seq<(u64, u64)>) -> Map<
    u64,
    TargetView,
> {
    Map::new(
        |address: u64|
            targets.contains_key(address) && live.contains((address, targets[address].widget)),
        |address: u64| targets[address],
    )
}

impl Targets {
    /// No targets.
    pub fn new() -> (targets: Self)
        ensures
            targets@ == Map::<u64, TargetView>::empty(),
    {
        broadcast use vstd::std_specs::hash::group_hash_axioms;

        let targets = Targets { by_address: HashMap::new() };
        assert(targets@ =~= Map::<u64, TargetView>::empty());
        targets
    }

    /// What is watched at an address.
    pub fn at(&self, address: u64) -> (target: Option<&Target>)
        ensures
            match target {
                Some(found) => self@.contains_key(address) && self@[address] == found@,
                None => !self@.contains_key(address),
            },
    {
        broadcast use vstd::std_specs::hash::group_hash_axioms;

        self.by_address.get(&address)
    }

    /// How many thumbnails are watched.
    pub fn len(&self) -> (count: usize)
        ensures
            count == self@.len(),
    {
        broadcast use vstd::std_specs::hash::group_hash_axioms;

        assert(self@.dom() =~= self.by_address@.dom());
        self.by_address.len()
    }

    /// Watches a thumbnail that is to show the file at `path`; `true` if its widget was not
    /// watched before. Now and then, targets whose widgets are gone are dropped: `live` are
    /// the addresses and numbers of the widgets that still exist.
    pub fn track(&mut self, address: u64, widget: u64, path: Vec<u8>, live: &[(u64, u64)]) -> (first:
        bool)
        ensures
            first == is_new_target(old(self)@, address, widget),
            final(self)@ == {
                let all = old(self)@.insert(
                    address,
                    TargetView { widget, path: path@, active: true },
                );
                if first && all.len() % TARGET_SWEEP as nat == 0 {
                    surviving(all, live@)
                } else {
                    all
                }
            },
    {
        broadcast use vstd::std_specs::hash::group_hash_axioms;

        let ghost before = self@;
        let ghost target = TargetView { widget, path: path@, active: true };
        let first: bool = match self.at(address) {
            Some(known) => known.widget != widget,
            None => true,
        };
        let _replaced = self.by_address.insert(address, Target { widget, path, active: true });
        assert(self@ =~= before.insert(address, target));
        if first && self.len() % TARGET_SWEEP == 0 {
            self.sweep(live);
        }
        first
    }

    fn sweep(&mut self, live: &[(u64, u64)])
        ensures
            final(self)@ == surviving(old(self)@, live@),
    {
        broadcast use vstd::std_specs::hash::group_hash_axioms;

        let ghost all = self.by_address@;
        let mut kept: HashMap<u64, Target> = HashMap::new();
        let mut index: usize = 0;
        while index < live.len()
            invariant
                index <= live.len(),
                all == old(self).by_address@,
                forall|a: u64| #[trigger]
                    kept@.contains_key(a) <==> all.contains_key(a) && live@.take(
                        index as int,
                    ).contains((a, all[a].widget)),
                forall|a: u64| #[trigger] kept@.contains_key(a) ==> kept@[a] == all[a],
                forall|a: u64| #[trigger]
                    self.by_address@.contains_key(a) <==> all.contains_key(a)
                        && !kept@.contains_key(a),
                forall|a: u64| #[trigger]
                    self.by_address@.contains_key(a) ==> self.by_address@[a] == all[a],
            decreases live.len() - index,
        {
            broadcast use vstd::std_specs::hash::group_hash_axioms;

            let (address, widget) = live[index];
            let ghost taken = live@.take(index as int);
            let ghost more = live@.take(index + 1);
            proof {
                assert(more =~= taken.push((address, widget)));
                assert forall|pair: (u64, u64)| #[trigger]
                    more.contains(pair) <==> taken.contains(pair) || pair == (
                    address,
                    widget,
                ) by {
                    if taken.contains(pair) {
                        let k = taken.index_of(pair);
                        assert(more[k] == pair);
                    }
                    if pair == (address, widget) {
                        assert(more[index as int] == pair);
                    }
                    if more.contains(pair) && pair != (address, widget) {
                        let k = more.index_of(pair);
                        assert(taken[k] == pair);
                    }
                }
            }
            match self.by_address.remove(&address) {
                Some(target) => {
                    if target.widget == widget {
                        let _none = kept.insert(address, target);
                    } else {
                        let _none = self.by_address.insert(address, target);
                    }
                },
                None => {},
            }
            index = index + 1;
        }
        assert(live@.take(index as int) =~= live@);
        self.by_address = kept;
        assert(self@ =~= surviving(target_views(all), live@));
    }

    /// Watches the thumbnail at an address no longer, but remembers its widget.
    pub fn untrack(&mut self, address: u64)
        ensures
            final(self)@ == if old(self)@.contains_key(address) {
                old(self)@.insert(
                    address,
                    TargetView { active: false, ..old(self)@[address] },
                )
            } else {
                old(self)@
            },
    {
        broadcast use vstd::std_specs::hash::group_hash_axioms;

        let ghost before = self@;
        match self.by_address.remove(&address) {
            Some(target) => {
                let ghost was = target@;
                let inactive = Target { widget: target.widget, path: target.path, active: false };
                let _none = self.by_address.insert(address, inactive);
                assert(self@ =~= before.insert(address, TargetView { active: false, ..was }));
            },
            None => {
                assert(self@ =~= before);
            },
        }
    }
}

/// What a watched thumbnail looks like right now.
#[derive(Debug)]
pub struct TargetSample {
    pub widget: u64,
    /// The file it is to show.
    pub path: Vec<u8>,
    pub active: bool,
    /// Its innermost scrolled view is the one that is sampled.
    pub in_viewport: bool,
    /// It is in view, whether or not the view is being scrolled.
    pub visible: bool,
    /// The file whose thumbnail it shows.
    pub displayed: Option<Vec<u8>>,
}

/// A thumbnail whose paint is awaited.
#[derive(Debug)]
pub struct CohortMember {
    pub widget: u64,
    pub path: Vec<u8>,
}

/// The thumbnails whose paint is awaited, as values.
pub open spec fn cohort_views(cohort: Seq<CohortMember>) -> Seq<(u64, Seq<u8>)> {
    cohort.map_values(|member: CohortMember| (member.widget, member.path@))
}

/// Whether a sample belongs to a new cohort.
pub open spec fn joins(sample: TargetSample) -> bool {
    sample.active && sample.in_viewport && sample.visible
}

/// The cohort that samples make up.
pub open spec fn cohort_of(samples: Seq<TargetSample>) -> Seq<(u64, Seq<u8>)>
    decreases samples.len(),
{
    if samples.len() == 0 {
        Seq::empty()
    } else if joins(samples.last()) {
        cohort_of(samples.drop_last()).push((samples.last().widget, samples.last().path@))
    } else {
        cohort_of(samples.drop_last())
    }
}

/// Whether a sample shows that a member of the cohort is painted.
pub open spec fn shows(sample: TargetSample, member: (u64, Seq<u8>)) -> bool {
    &&& sample.widget == member.0
    &&& sample.visible
    &&& sample.displayed matches Some(path) && path@ == member.1
}

/// Whether a member of the cohort is painted: it is still there, in view, and shows the
/// file that it was to show.
pub open spec fn is_ready(samples: Seq<TargetSample>, member: (u64, Seq<u8>)) -> bool {
    exists|i: int| 0 <= i < samples.len() && #[trigger] shows(samples[i], member)
}

/// How many members of the cohort are painted.
pub open spec fn ready_count(samples: Seq<TargetSample>, cohort: Seq<(u64, Seq<u8>)>) -> nat
    decreases cohort.len(),
{
    if cohort.len() == 0 {
        0
    } else {
        ready_count(samples, cohort.drop_last()) + if is_ready(samples, cohort.last()) {
            1nat
        } else {
            0nat
        }
    }
}

/// Progress of painting a view after it came to rest. Times are nanoseconds.
#[derive(Debug)]
pub struct PaintProgress {
    pub epoch: u64,
    pub started: Option<u128>,
    pub cohort: Option<Vec<CohortMember>>,
    pub first: bool,
    pub ninety: bool,
}

impl Default for PaintProgress {
    fn default() -> (progress: Self)
        ensures
            progress == (PaintProgress {
                epoch: 0,
                started: None,
                cohort: None,
                first: false,
                ninety: false,
            }),
    {
        PaintProgress { epoch: 0, started: None, cohort: None, first: false, ninety: false }
    }
}

impl PaintProgress {
    /// Progress that starts now, in a new epoch.
    pub fn new(epoch: u64, started: u128) -> (progress: Self)
        ensures
            progress == (PaintProgress {
                epoch,
                started: Some(started),
                cohort: None,
                first: false,
                ninety: false,
            }),
    {
        PaintProgress { epoch, started: Some(started), cohort: None, first: false, ninety: false }
    }

    /// Starts over, in a new epoch.
    pub fn reset(&mut self, epoch: u64, started: u128)
        ensures
            *final(self) == (PaintProgress {
                epoch,
                started: Some(started),
                cohort: None,
                first: false,
                ninety: false,
            }),
    {
        *self = PaintProgress::new(epoch, started);
    }

    /// The awaited thumbnails, as values.
    pub open spec fn awaited(self) -> Option<Seq<(u64, Seq<u8>)>> {
        match self.cohort {
            Some(cohort) => Some(cohort_views(cohort@)),
            None => None,
        }
    }
}

/// What a sample of a view showed.
#[derive(Clone, Copy, Debug, PartialEq, Eq, Structural)]
pub struct PaintReport {
    pub epoch: u64,
    pub elapsed: u128,
    pub total: usize,
    pub ready: usize,
    /// This sample is the first with a painted thumbnail.
    pub first: bool,
    /// This sample is the first with nine tenths painted.
    pub ninety: bool,
}

/// A scrolled view whose painting is followed.
#[derive(Debug)]
pub struct SettleView {
    pub scrolling: bool,
    pub paint: PaintProgress,
}

/// Whether nine tenths of `total` are ready, rounded up; of nothing, nothing ever is.
pub open spec fn ninety_reached(total: int, ready: int) -> bool {
    total > 0 && 10 * ready >= 9 * total
}

pub fn reached_ninety(total: usize, ready: usize) -> (reached: bool)
    ensures
        reached == ninety_reached(total as int, ready as int),
{
    total > 0 && ready >= total - total / 10
}

impl SettleView {
    /// Whether a sample says anything: the view is at rest, its progress has started and
    /// is not over.
    pub open spec fn wants_sample(self) -> bool {
        !self.scrolling && self.paint.started is Some && !self.paint.ninety
    }

    /// The cohort that a sample counts: the one that was taken before, or a new one.
    pub open spec fn sampled_cohort(self, samples: Seq<TargetSample>) -> Seq<(u64, Seq<u8>)> {
        match self.paint.awaited() {
            Some(cohort) => cohort,
            None => cohort_of(samples),
        }
    }

    /// What a sample reports.
    pub open spec fn report(self, samples: Seq<TargetSample>, now: u128) -> Option<PaintReport> {
        let cohort = self.sampled_cohort(samples);
        let ready = ready_count(samples, cohort);
        let started = self.paint.started->0;
        if !self.wants_sample() || (self.paint.cohort is None && cohort.len() == 0) {
            None
        } else {
            Some(
                PaintReport {
                    epoch: self.paint.epoch,
                    elapsed: if now > started {
                        (now - started) as u128
                    } else {
                        0
                    },
                    total: cohort.len() as usize,
                    ready: ready as usize,
                    first: !self.paint.first && ready > 0,
                    ninety: ninety_reached(cohort.len() as int, ready as int),
                },
            )
        }
    }

    /// Starts or ends scrolling; a view that begins to scroll starts over.
    pub fn set_scrolling(&mut self, scrolling: bool, epoch: u64, now: u128)
        ensures
            final(self).scrolling == scrolling,
            final(self).paint == if scrolling {
                PaintProgress {
                    epoch,
                    started: Some(now),
                    cohort: None,
                    first: false,
                    ninety: false,
                }
            } else {
                old(self).paint
            },
    {
        self.scrolling = scrolling;
        if scrolling {
            self.paint.reset(epoch, now);
        }
    }

    /// Looks at a view that was just painted, and reports progress. The thumbnails in view
    /// at the first look are the ones that count until the view scrolls again.
    pub fn sample_paint(&mut self, samples: &[TargetSample], now: u128) -> (report: Option<
        PaintReport,
    >)
        ensures
            report == old(self).report(samples@, now),
            report is None ==> *final(self) == *old(self),
            report matches Some(seen) ==> {
                &&& final(self).scrolling == old(self).scrolling
                &&& final(self).paint.epoch == old(self).paint.epoch
                &&& final(self).paint.started == old(self).paint.started
                &&& final(self).paint.awaited() == Some(old(self).sampled_cohort(samples@))
                &&& final(self).paint.first == (old(self).paint.first || seen.first)
                &&& final(self).paint.ninety == seen.ninety
            },
    {
        let started: u128 = match self.paint.started {
            Some(started) => started,
            None => return None,
        };
        if self.scrolling || self.paint.ninety {
            return None;
        }
        let mut taken: Option<Vec<CohortMember>> = None;
        std::mem::swap(&mut taken, &mut self.paint.cohort);
        let cohort: Vec<CohortMember> = match taken {
            Some(cohort) => cohort,
            None => {
                let candidates = take_cohort(samples);
                assert(cohort_views(candidates@).len() == candidates@.len());
                if candidates.len() == 0 {
                    assert(self.paint.cohort is None);
                    return None;
                }
                candidates
            },
        };
        let total: usize = cohort.len();
        let ready: usize = count_ready(samples, cohort.as_slice());
        assert(cohort_views(cohort@).len() == total);
        let first: bool = !self.paint.first && ready > 0;
        let ninety: bool = reached_ninety(total, ready);
        let elapsed: u128 = now.saturating_sub(started);
        self.paint.first = self.paint.first || first;
        self.paint.ninety = ninety;
        self.paint.cohort = Some(cohort);
        Some(PaintReport { epoch: self.paint.epoch, elapsed, total, ready, first, ninety })
    }
}

fn copy_path(path: &Vec<u8>) -> (copy: Vec<u8>)
    ensures
        copy@ == path@,
{
    let mut copy: Vec<u8> = Vec::new();
    copy.extend_from_slice(path.as_slice());
    assert(copy@ =~= path@);
    copy
}

fn take_cohort(samples: &[TargetSample]) -> (cohort: Vec<CohortMember>)
    ensures
        cohort_views(cohort@) == cohort_of(samples@),
{
    let mut cohort: Vec<CohortMember> = Vec::new();
    let mut index: usize = 0;
    assert(samples@.take(0) =~= Seq::<TargetSample>::empty());
    assert(cohort_views(cohort@) =~= Seq::<(u64, Seq<u8>)>::empty());
    while index < samples.len()
        invariant
            index <= samples.len(),
            cohort_views(cohort@) == cohort_of(samples@.take(index as int)),
        decreases samples.len() - index,
    {
        assert(samples@.take(index + 1).drop_last() =~= samples@.take(index as int));
        let sample = &samples[index];
        if sample.active && sample.in_viewport && sample.visible {
            let ghost before = cohort_views(cohort@);
            cohort.push(CohortMember { widget: sample.widget, path: copy_path(&sample.path) });
            assert(cohort_views(cohort@) =~= before.push((sample.widget, sample.path@)));
        }
        index = index + 1;
    }
    assert(samples@.take(index as int) =~= samples@);
    cohort
}

fn member_ready(samples: &[TargetSample], member: &CohortMember) -> (ready: bool)
    ensures
        ready == is_ready(samples@, (member.widget, member.path@)),
{
    let mut index: usize = 0;
    while index < samples.len()
        invariant
            index <= samples.len(),
            forall|i: int|
                0 <= i < index ==> !#[trigger] shows(samples@[i], (member.widget, member.path@)),
        decreases samples.len() - index,
    {
        let sample = &samples[index];
        if sample.widget == member.widget && sample.visible {
            if let Some(path) = &sample.displayed {
                if equal_bytes(path.as_slice(), member.path.as_slice()) {
                    assert(shows(samples@[index as int], (member.widget, member.path@)));
                    return true;
                }
            }
        }
        index = index + 1;
    }
    false
}

fn count_ready(samples: &[TargetSample], cohort: &[CohortMember]) -> (ready: usize)
    ensures
        ready == ready_count(samples@, cohort_views(cohort@)),
        ready <= cohort@.len(),
{
    let mut ready: usize = 0;
    let mut index: usize = 0;
    let ghost all = cohort_views(cohort@);
    assert(all.take(0) =~= Seq::<(u64, Seq<u8>)>::empty());
    while index < cohort.len()
        invariant
            index <= cohort.len(),
            ready <= index,
            all == cohort_views(cohort@),
            ready == ready_count(samples@, all.take(index as int)),
        decreases cohort.len() - index,
    {
        assert(all.take(index + 1).drop_last() =~= all.take(index as int));
        assert(all.take(index + 1).last() == (
            cohort@[index as int].widget,
            cohort@[index as int].path@,
        ));
        if member_ready(samples, &cohort[index]) {
            ready = ready + 1;
        }
        index = index + 1;
    }
    assert(all.take(index as int) =~= all);
    ready
}

/// Once reached, nine tenths stay reached as more becomes ready; all of something is
/// always enough, and nothing of something never is.
pub proof fn ninety_is_monotone(total: nat, ready: nat, more: nat)
    requires
        ready <= more,
    ensures
        ninety_reached(total as int, ready as int) ==> ninety_reached(total as int, more as int),
        total > 0 ==> ninety_reached(total as int, total as int),
        !ninety_reached(total as int, 0),
{
}

/// The order of urgency, and the less urgent of two.
pub proof fn what_is_in_view_is_most_urgent(left: Priority, right: Priority)
    ensures
        Priority::Visible.rank() < Priority::Nearby.rank(),
        Priority::Nearby.rank() < Priority::Paused.rank(),
        Priority::Paused.rank() < Priority::Deferred.rank(),
        left.spec_later(right) == left || left.spec_later(right) == right,
        left.spec_later(right).rank() >= left.rank(),
        left.spec_later(right).rank() >= right.rank(),
{
}

/// What is not on screen can wait; what is in no scrolled view is as urgent as its place in the
/// window.
pub proof fn hidden_thumbnails_can_wait(sample: WidgetSample, gated: bool)
    ensures
        !sample.mapped || sample.width <= 0 || sample.height <= 0 ==> sample_priority(sample, gated)
            == Priority::Deferred,
        sample.mapped && sample.width > 0 && sample.height > 0 && sample.viewports@.len() == 0
            ==> sample_priority(sample, gated) == if sample.window is Some {
            sample.window->0
        } else {
            Priority::Deferred
        },
{
}

proof fn lemma_viewports(viewports: Seq<ViewportSample>, gated: bool, so_far: Priority)
    ensures
        (forall|i: int|
            0 <= i < viewports.len() ==> (#[trigger] viewports[i]).position is Some && !(gated
                && viewports[i].paused)) ==> {
            let all = viewports_priority(viewports, gated, so_far);
            &&& all == so_far || exists|i: int|
                0 <= i < viewports.len() && (#[trigger] viewports[i]).position == Some(all)
            &&& all.rank() >= so_far.rank()
            &&& forall|i: int|
                0 <= i < viewports.len() ==> all.rank() >= (
                #[trigger] viewports[i]).position->0.rank()
        },
    decreases viewports.len(),
{
    if viewports.len() > 0 && (forall|i: int|
        0 <= i < viewports.len() ==> (#[trigger] viewports[i]).position is Some && !(gated
            && viewports[i].paused)) {
        let rest = viewports.drop_first();
        let first = viewports[0].position->0;
        assert forall|i: int| 0 <= i < rest.len() implies (#[trigger] rest[i]).position is Some && !(
        gated && rest[i].paused) by {
            assert(rest[i] == viewports[i + 1]);
        }
        let next = so_far.spec_later(first);
        lemma_viewports(rest, gated, next);
        let all = viewports_priority(viewports, gated, so_far);
        if all != so_far && all != first {
            let i = choose|i: int|
                0 <= i < rest.len() && (#[trigger] rest[i]).position == Some(all);
            assert(viewports[i + 1].position == Some(all));
        }
        assert forall|i: int| 0 <= i < viewports.len() implies all.rank() >= (
        #[trigger] viewports[i]).position->0.rank() by {
            if i > 0 {
                assert(rest[i - 1] == viewports[i]);
            }
        }
    }
}

/// In nested views that are at rest and know where the thumbnail lies, it is just as urgent as the
/// least favourable of them says: visible only if it is in every one.
pub proof fn the_least_favourable_view_decides(sample: WidgetSample, gated: bool)
    requires
        sample.mapped && sample.width > 0 && sample.height > 0,
        sample.viewports@.len() > 0,
        forall|i: int|
            0 <= i < sample.viewports@.len() ==> (#[trigger] sample.viewports@[i]).position is Some
                && !(gated && sample.viewports@[i].paused),
    ensures
        forall|i: int|
            0 <= i < sample.viewports@.len() ==> sample_priority(sample, gated).rank() >= (
            #[trigger] sample.viewports@[i]).position->0.rank(),
        exists|i: int|
            0 <= i < sample.viewports@.len() && (#[trigger] sample.viewports@[i]).position == Some(
                sample_priority(sample, gated),
            ),
        sample_priority(sample, gated) == Priority::Visible <==> forall|i: int|
            0 <= i < sample.viewports@.len() ==> (#[trigger] sample.viewports@[i]).position == Some(
                Priority::Visible,
            ),
{
    let views = sample.viewports@;
    lemma_viewports(views, gated, Priority::Visible);
    let all = sample_priority(sample, gated);
    if all == Priority::Visible {
        assert forall|i: int| 0 <= i < views.len() implies (#[trigger] views[i]).position == Some(
            Priority::Visible,
        ) by {
            assert(all.rank() >= views[i].position->0.rank());
        }
        assert(views[0].position == Some(all));
    }
}

/// A view that is being scrolled, if that counts, holds everything in it back, and one that does
/// not know where the thumbnail lies lets it wait; the innermost such view decides.
pub proof fn scrolled_views_hold_back(
    viewports: Seq<ViewportSample>,
    gated: bool,
    so_far: Priority,
    at: int,
)
    requires
        0 <= at < viewports.len(),
        forall|i: int|
            0 <= i < at ==> (#[trigger] viewports[i]).position is Some && !(gated
                && viewports[i].paused),
    ensures
        gated && viewports[at].paused ==> viewports_priority(viewports, gated, so_far)
            == Priority::Paused,
        !(gated && viewports[at].paused) && viewports[at].position is None ==> viewports_priority(
            viewports,
            gated,
            so_far,
        ) == Priority::Deferred,
    decreases viewports.len(),
{
    if at > 0 {
        let rest = viewports.drop_first();
        assert(viewports[0].position is Some && !(gated && viewports[0].paused));
        assert forall|i: int| 0 <= i < at - 1 implies (#[trigger] rest[i]).position is Some && !(
        gated && rest[i].paused) by {
            assert(rest[i] == viewports[i + 1]);
        }
        scrolled_views_hold_back(
            rest,
            gated,
            so_far.spec_later(viewports[0].position->0),
            at - 1,
        );
    }
}

/// The thumbnails that are waited for are those of the sampled view that are active and in view,
/// in order, each for the file that it is to show.
pub proof fn what_is_in_view_is_waited_for(samples: Seq<TargetSample>)
    ensures
        cohort_of(samples) == samples.filter(
            |sample: TargetSample| sample.active && sample.in_viewport && sample.visible,
        ).map_values(|sample: TargetSample| (sample.widget, sample.path@)),
    decreases samples.len(),
{
    reveal(Seq::filter);
    let joined = |sample: TargetSample|
        sample.active && sample.in_viewport && sample.visible;
    let member = |sample: TargetSample| (sample.widget, sample.path@);
    if samples.len() > 0 {
        what_is_in_view_is_waited_for(samples.drop_last());
        let rest = samples.drop_last().filter(joined);
        if joined(samples.last()) {
            assert(rest.push(samples.last()).map_values(member) =~= rest.map_values(member).push(
                member(samples.last()),
            ));
        }
    } else {
        assert(samples.filter(joined).map_values(member) =~= Seq::<(u64, Seq<u8>)>::empty());
    }
}

/// A thumbnail is painted exactly if its widget is in view and shows the file that it was to show;
/// each that is counts once.
pub proof fn painted_thumbnails_are_counted(
    samples: Seq<TargetSample>,
    cohort: Seq<(u64, Seq<u8>)>,
)
    ensures
        ready_count(samples, cohort) == cohort.filter(
            |member: (u64, Seq<u8>)|
                exists|i: int|
                    0 <= i < samples.len() && (#[trigger] samples[i]).widget == member.0
                        && samples[i].visible && samples[i].displayed is Some
                        && samples[i].displayed->0@ == member.1,
        ).len(),
    decreases cohort.len(),
{
    reveal(Seq::filter);
    let painted = |member: (u64, Seq<u8>)|
        exists|i: int|
            0 <= i < samples.len() && (#[trigger] samples[i]).widget == member.0
                && samples[i].visible && samples[i].displayed is Some && samples[i].displayed->0@
                == member.1;
    if cohort.len() > 0 {
        painted_thumbnails_are_counted(samples, cohort.drop_last());
        let member = cohort.last();
        if is_ready(samples, member) {
            let i = choose|i: int| 0 <= i < samples.len() && #[trigger] shows(samples[i], member);
            assert(samples[i].widget == member.0);
            assert(painted(member));
        }
        if painted(member) {
            let i = choose|i: int|
                0 <= i < samples.len() && (#[trigger] samples[i]).widget == member.0
                    && samples[i].visible && samples[i].displayed is Some
                    && samples[i].displayed->0@ == member.1;
            assert(shows(samples[i], member));
        }
    }
}

/// A view reports while it is at rest, has started and is not done: how many thumbnails it waits
/// for, how many are painted, the time since it started, whether this is the first sight of one,
/// and whether nine tenths are there. A view with nothing to wait for does not begin to report.
pub proof fn views_report_their_progress(view: SettleView, samples: Seq<TargetSample>, now: u128)
    requires
        samples.len() <= usize::MAX,
        view.paint.cohort matches Some(cohort) ==> cohort@.len() <= usize::MAX,
    ensures
        ({
            let fresh = view.paint.cohort is None;
            let cohort = if fresh {
                cohort_of(samples)
            } else {
                cohort_views(view.paint.cohort->0@)
            };
            let reports = !view.scrolling && view.paint.started is Some && !view.paint.ninety && !(
            fresh && cohort.len() == 0);
            let report = view.report(samples, now);
            &&& report is Some <==> reports
            &&& report matches Some(seen) ==> {
                &&& seen.epoch == view.paint.epoch
                &&& seen.total == cohort.len()
                &&& seen.ready == ready_count(samples, cohort)
                &&& now >= view.paint.started->0 ==> seen.elapsed == now - view.paint.started->0
                &&& now < view.paint.started->0 ==> seen.elapsed == 0
                &&& seen.first <==> !view.paint.first && seen.ready > 0
                &&& seen.ninety <==> seen.total > 0 && 10 * seen.ready >= 9 * seen.total
            }
            &&& view.sampled_cohort(samples) == cohort
        }),
{
    painted_thumbnails_are_counted(samples, view.sampled_cohort(samples));
    view.sampled_cohort(samples).lemma_filter_len(
        |member: (u64, Seq<u8>)|
            exists|i: int|
                0 <= i < samples.len() && (#[trigger] samples[i]).widget == member.0
                    && samples[i].visible && samples[i].displayed is Some
                    && samples[i].displayed->0@ == member.1,
    );
    what_is_in_view_is_waited_for(samples);
    samples.lemma_filter_len(
        |sample: TargetSample| sample.active && sample.in_viewport && sample.visible,
    );
}

/// Nine tenths are counted exactly.
pub proof fn nine_tenths_are_nine_tenths(total: int, ready: int)
    ensures
        ninety_reached(total, ready) <==> total > 0 && 10 * ready >= 9 * total,
{
}

/// A widget is new at its address unless it is the very one that is watched there; sweeping keeps
/// just the targets whose widgets still exist, as they are.
pub proof fn sweeping_keeps_live_targets(
    targets: Map<u64, TargetView>,
    live: Seq<(u64, u64)>,
    address: u64,
    widget: u64,
)
    ensures
        is_new_target(targets, address, widget) <==> !(targets.contains_key(address)
            && targets[address].widget == widget),
        surviving(targets, live).contains_key(address) <==> targets.contains_key(address)
            && live.contains((address, targets[address].widget)),
        surviving(targets, live).contains_key(address) ==> surviving(targets, live)[address]
            == targets[address],
{
}

/// The thumbnails that are waited for are known by their widget and their file, one for one, and
/// targets by theirs.
pub proof fn members_are_kept(cohort: Seq<CohortMember>, i: int, targets: Map<u64, Target>, address: u64)
    ensures
        cohort_views(cohort).len() == cohort.len(),
        0 <= i < cohort.len() ==> cohort_views(cohort)[i].0 == cohort[i].widget
            && cohort_views(cohort)[i].1 == cohort[i].path@,
        target_views(targets).contains_key(address) <==> targets.contains_key(address),
        targets.contains_key(address) ==> target_views(targets)[address].widget
            == targets[address].widget && target_views(targets)[address].path
            == targets[address].path@ && target_views(targets)[address].active
            == targets[address].active,
        TARGET_SWEEP == 64,
{
}

} // verus!
