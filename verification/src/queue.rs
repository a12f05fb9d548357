//! The queue of thumbnail renders.
//!
//! Four renders run at a time, at most one of them heavy. Work in view goes before work
//! near the view; within one of these tiers three light renders go before a heavy one.
//! Requests are known by a number.
use vstd::prelude::*;

use crate::viewport::Priority;

verus! {

/// Most renders that run at a time.
pub const RENDER_LIMIT: usize = 4;

/// Most heavy renders that run at a time.
pub const HEAVY_LIMIT: usize = 1;

/// Light renders that go before a heavy one.
pub const RASTER_BURST: usize = 3;

/// Most requests that wait.
pub const MAX_QUEUED_THUMBNAILS: usize = 64;

/// What a thumbnail is made from.
#[derive(Clone, Copy, Debug, PartialEq, Eq, Structural)]
pub enum ThumbnailKind {
    Image,
    Pdf,
    Raw,
    Video,
}

impl ThumbnailKind {
    /// Everything but a plain picture is heavy.
    pub open spec fn heavy(self) -> bool {
        self != ThumbnailKind::Image
    }

    pub fn is_heavy(self) -> (heavy: bool)
        ensures
            heavy == self.heavy(),
    {
        self != ThumbnailKind::Image
    }
}

/// A request that waits.
#[derive(Clone, Copy, Debug, PartialEq, Eq, Structural)]
pub struct QueuedThumbnail {
    pub key: u64,
    pub kind: ThumbnailKind,
}

/// A request that is being rendered, by the execution `id` once that is known.
#[derive(Clone, Copy, Debug, PartialEq, Eq, Structural)]
pub struct ActiveThumbnail {
    pub key: u64,
    pub kind: ThumbnailKind,
    pub id: Option<u64>,
}

/// What became of a request that was to be taken in.
#[derive(Clone, Copy, Debug, PartialEq, Eq, Structural)]
pub enum Admission {
    /// It waits.
    Queued,
    /// It waits in place of this one, which is parked again.
    Displaced(u64),
    /// It is known already, or there is no room for it.
    Refused,
}

/// The queue.
#[derive(Debug)]
pub struct ThumbnailQueue {
    queued: Vec<QueuedThumbnail>,
    active: Vec<ActiveThumbnail>,
    burst: usize,
}

/// The queue as a value: requests that wait, requests that are being rendered, and how
/// many light renders began since the last heavy one.
pub ghost struct QueueView {
    pub queued: Seq<QueuedThumbnail>,
    pub active: Seq<ActiveThumbnail>,
    pub burst: nat,
}

impl View for ThumbnailQueue {
    type V = QueueView;

    closed spec fn view(&self) -> QueueView {
        QueueView { queued: self.queued@, active: self.active@, burst: self.burst as nat }
    }
}

/// How many of the active requests are heavy.
pub open spec fn heavy_count(active: Seq<ActiveThumbnail>) -> nat
    decreases active.len(),
{
    if active.len() == 0 {
        0
    } else {
        heavy_count(active.drop_last()) + if active.last().kind.heavy() {
            1nat
        } else {
            0nat
        }
    }
}

/// Whether a request waits.
pub open spec fn is_queued(queued: Seq<QueuedThumbnail>, key: u64) -> bool {
    exists|i: int| 0 <= i < queued.len() && (#[trigger] queued[i]).key == key
}

/// Whether a request is being rendered.
pub open spec fn is_active(active: Seq<ActiveThumbnail>, key: u64) -> bool {
    exists|i: int| 0 <= i < active.len() && (#[trigger] active[i]).key == key
}

impl QueueView {
    /// The limits hold, and no request is listed twice.
    pub open spec fn wf(self) -> bool {
        &&& self.queued.len() <= MAX_QUEUED_THUMBNAILS
        &&& self.active.len() <= RENDER_LIMIT
        &&& heavy_count(self.active) <= HEAVY_LIMIT
        &&& forall|i: int, j: int|
            0 <= i < j < self.queued.len() ==> (#[trigger] self.queued[i]).key != (
            #[trigger] self.queued[j]).key
        &&& forall|i: int, j: int|
            0 <= i < j < self.active.len() ==> (#[trigger] self.active[i]).key != (
            #[trigger] self.active[j]).key
        &&& forall|i: int, j: int|
            0 <= i < self.queued.len() && 0 <= j < self.active.len() ==> (
            #[trigger] self.queued[i]).key != (#[trigger] self.active[j]).key
    }

    /// Whether a request can be taken in.
    pub open spec fn has_room_for(self, key: u64) -> bool {
        &&& !is_queued(self.queued, key)
        &&& !is_active(self.active, key)
        &&& self.queued.len() < MAX_QUEUED_THUMBNAILS
    }

    /// Whether a request is neither waiting nor being rendered.
    pub open spec fn is_unknown(self, key: u64) -> bool {
        !is_queued(self.queued, key) && !is_active(self.active, key)
    }

    /// Whether the request at `i` is the one that gives way to a request in view: the youngest
    /// of those near the view.
    pub open spec fn gives_way(self, priorities: Seq<Priority>, i: int) -> bool {
        &&& 0 <= i < self.queued.len()
        &&& priorities[i] == Priority::Nearby
        &&& forall|j: int| i < j < self.queued.len() ==> #[trigger] priorities[j] != Priority::Nearby
    }

    /// The queue with `new` at its end in place of the request at `i`.
    pub open spec fn displaced(self, i: int, new: QueuedThumbnail) -> QueueView {
        QueueView { queued: self.queued.remove(i).push(new), ..self }
    }

    /// What taking in `new`, of the given priority, does: it joins the queue if there is room;
    /// if there is none and it is in view, it takes the place of one near the view; a request
    /// that is known already is not taken in.
    pub open spec fn admits(
        self,
        new: QueuedThumbnail,
        priority: Priority,
        priorities: Seq<Priority>,
        after: QueueView,
        admission: Admission,
    ) -> bool {
        match admission {
            Admission::Queued => {
                &&& self.has_room_for(new.key)
                &&& after == (QueueView { queued: self.queued.push(new), ..self })
            },
            Admission::Displaced(key) => {
                &&& self.is_unknown(new.key)
                &&& self.queued.len() >= MAX_QUEUED_THUMBNAILS
                &&& priority == Priority::Visible
                &&& exists|i: int|
                    {
                        &&& #[trigger] self.gives_way(priorities, i)
                        &&& key == self.queued[i].key
                        &&& after == self.displaced(i, new)
                    }
            },
            Admission::Refused => {
                &&& after == self
                &&& !self.has_room_for(new.key)
                &&& self.is_unknown(new.key) && priority == Priority::Visible ==> forall|i: int|
                    0 <= i < self.queued.len() ==> #[trigger] priorities[i] != Priority::Nearby
            },
        }
    }

    /// Whether the request at `i` may begin: it is in or near the view, and the lane for
    /// heavy work is free if it is heavy.
    pub open spec fn eligible(self, priorities: Seq<Priority>, i: int) -> bool {
        &&& 0 <= i < self.queued.len()
        &&& priorities[i] == Priority::Visible || priorities[i] == Priority::Nearby
        &&& self.queued[i].kind.heavy() ==> heavy_count(self.active) < HEAVY_LIMIT
    }

    /// Whether the request at `i` goes before the one at `j`: by tier; within a tier a light
    /// one before a heavy one, unless enough light ones began in a row; then by age.
    pub open spec fn precedes(self, priorities: Seq<Priority>, i: int, j: int) -> bool {
        if priorities[i] != priorities[j] {
            priorities[i] == Priority::Visible
        } else if self.queued[i].kind.heavy() != self.queued[j].kind.heavy() {
            self.queued[i].kind.heavy() == (self.burst >= RASTER_BURST)
        } else {
            i < j
        }
    }

    /// Whether the request at `i` is the one to begin.
    pub open spec fn is_next(self, priorities: Seq<Priority>, i: int) -> bool {
        &&& self.eligible(priorities, i)
        &&& forall|j: int| #[trigger]
            self.eligible(priorities, j) && j != i ==> self.precedes(priorities, i, j)
    }

    /// The queue once the request at `i` has begun.
    pub open spec fn begun(self, i: int) -> QueueView {
        let next = self.queued[i];
        QueueView {
            queued: self.queued.remove(i),
            active: self.active.push(
                ActiveThumbnail { key: next.key, kind: next.kind, id: None },
            ),
            burst: if next.kind.heavy() {
                0
            } else if self.burst < RASTER_BURST {
                self.burst + 1
            } else {
                self.burst
            },
        }
    }

    /// The queue once the active request at `i` is done.
    pub open spec fn finished(self, i: int) -> QueueView {
        QueueView { active: self.active.remove(i), ..self }
    }

    /// What beginning the next request does: `begun` is the request that began, if any did.
    pub open spec fn begins(
        self,
        priorities: Seq<Priority>,
        after: QueueView,
        begun: Option<u64>,
    ) -> bool {
        match begun {
            Some(key) => self.active.len() < RENDER_LIMIT && exists|i: int|
                {
                    &&& #[trigger] self.is_next(priorities, i)
                    &&& key == self.queued[i].key
                    &&& after == self.begun(i)
                },
            None => {
                &&& after == self
                &&& self.active.len() >= RENDER_LIMIT || forall|i: int| !#[trigger] self.eligible(
                    priorities,
                    i,
                )
            },
        }
    }
}

proof fn lemma_heavy_push(active: Seq<ActiveThumbnail>, more: ActiveThumbnail)
    ensures
        heavy_count(active.push(more)) == heavy_count(active) + if more.kind.heavy() {
            1nat
        } else {
            0nat
        },
{
    assert(active.push(more).drop_last() =~= active);
}

proof fn lemma_heavy_remove(active: Seq<ActiveThumbnail>, i: int)
    requires
        0 <= i < active.len(),
    ensures
        heavy_count(active.remove(i)) + (if active[i].kind.heavy() {
            1nat
        } else {
            0nat
        }) == heavy_count(active),
    decreases active.len(),
{
    if i == active.len() - 1 {
        assert(active.remove(i) =~= active.drop_last());
    } else {
        lemma_heavy_remove(active.drop_last(), i);
        assert(active.remove(i).drop_last() =~= active.drop_last().remove(i));
    }
}

proof fn lemma_begun_wf(queue: QueueView, priorities: Seq<Priority>, i: int)
    requires
        queue.wf(),
        queue.active.len() < RENDER_LIMIT,
        queue.eligible(priorities, i),
    ensures
        queue.begun(i).wf(),
{
    let next = queue.queued[i];
    let more = ActiveThumbnail { key: next.key, kind: next.kind, id: None };
    lemma_heavy_push(queue.active, more);
    let after = queue.begun(i);
    assert forall|a: int, b: int| 0 <= a < b < after.queued.len() implies (
    #[trigger] after.queued[a]).key != (#[trigger] after.queued[b]).key by {
        let from_a = if a < i { a } else { a + 1 };
        let from_b = if b < i { b } else { b + 1 };
        assert(queue.queued[from_a] == after.queued[a]);
        assert(queue.queued[from_b] == after.queued[b]);
    }
    assert forall|a: int, b: int| 0 <= a < b < after.active.len() implies (
    #[trigger] after.active[a]).key != (#[trigger] after.active[b]).key by {
        assert(queue.active[a] == after.active[a]);
        if b < queue.active.len() {
            assert(queue.active[b] == after.active[b]);
        } else {
            assert(queue.queued[i].key == after.active[b].key);
        }
    }
    assert forall|a: int, b: int|
        0 <= a < after.queued.len() && 0 <= b < after.active.len() implies (
    #[trigger] after.queued[a]).key != (#[trigger] after.active[b]).key by {
        let from_a = if a < i { a } else { a + 1 };
        assert(queue.queued[from_a] == after.queued[a]);
        if b < queue.active.len() {
            assert(queue.active[b] == after.active[b]);
        } else {
            assert(queue.queued[i].key == after.active[b].key);
        }
    }
}

proof fn lemma_displaced_wf(queue: QueueView, i: int, new: QueuedThumbnail)
    requires
        queue.wf(),
        queue.is_unknown(new.key),
        0 <= i < queue.queued.len(),
    ensures
        queue.displaced(i, new).wf(),
{
    let after = queue.displaced(i, new);
    let last = queue.queued.len() - 1;
    assert forall|a: int, b: int| 0 <= a < b < after.queued.len() implies (
    #[trigger] after.queued[a]).key != (#[trigger] after.queued[b]).key by {
        let from_a = if a < i { a } else { a + 1 };
        let from_b = if b < i { b } else { b + 1 };
        assert(queue.queued[from_a] == after.queued[a]);
        if b < last {
            assert(queue.queued[from_b] == after.queued[b]);
        }
    }
    assert forall|a: int, b: int|
        0 <= a < after.queued.len() && 0 <= b < after.active.len() implies (
    #[trigger] after.queued[a]).key != (#[trigger] after.active[b]).key by {
        assert(queue.active[b] == after.active[b]);
        if a < last {
            let from_a = if a < i { a } else { a + 1 };
            assert(queue.queued[from_a] == after.queued[a]);
        }
    }
}

proof fn lemma_finished_wf(queue: QueueView, i: int)
    requires
        queue.wf(),
        0 <= i < queue.active.len(),
    ensures
        queue.finished(i).wf(),
{
    lemma_heavy_remove(queue.active, i);
    let after = queue.finished(i);
    assert forall|a: int, b: int| 0 <= a < b < after.active.len() implies (
    #[trigger] after.active[a]).key != (#[trigger] after.active[b]).key by {
        let from_a = if a < i { a } else { a + 1 };
        let from_b = if b < i { b } else { b + 1 };
        assert(queue.active[from_a] == after.active[a]);
        assert(queue.active[from_b] == after.active[b]);
    }
    assert forall|a: int, b: int|
        0 <= a < after.queued.len() && 0 <= b < after.active.len() implies (
    #[trigger] after.queued[a]).key != (#[trigger] after.active[b]).key by {
        let from_b = if b < i { b } else { b + 1 };
        assert(queue.queued[a] == after.queued[a]);
        assert(queue.active[from_b] == after.active[b]);
    }
}

impl Default for ThumbnailQueue {
    fn default() -> (queue: Self)
        ensures
            queue@.queued.len() == 0,
            queue@.active.len() == 0,
            queue@.burst == 0,
            queue@.wf(),
    {
        ThumbnailQueue { queued: Vec::new(), active: Vec::new(), burst: 0 }
    }
}

impl ThumbnailQueue {
    /// How many renders run.
    pub fn running(&self) -> (count: usize)
        ensures
            count == self@.active.len(),
    {
        self.active.len()
    }

    /// How many heavy renders run.
    pub fn heavy_running(&self) -> (count: usize)
        ensures
            count == heavy_count(self@.active),
    {
        let mut count: usize = 0;
        let mut index: usize = 0;
        let ghost all = self.active@;
        assert(all.take(0) =~= Seq::<ActiveThumbnail>::empty());
        while index < self.active.len()
            invariant
                index <= self.active.len(),
                all == self.active@,
                count <= index,
                count == heavy_count(all.take(index as int)),
            decreases self.active.len() - index,
        {
            assert(all.take(index + 1).drop_last() =~= all.take(index as int));
            if self.active[index].kind.is_heavy() {
                count = count + 1;
            }
            index = index + 1;
        }
        assert(all.take(index as int) =~= all);
        count
    }

    /// How many requests wait.
    pub fn queued_len(&self) -> (count: usize)
        ensures
            count == self@.queued.len(),
    {
        self.queued.len()
    }

    /// The request that waits at `index`, the oldest first.
    pub fn queued_at(&self, index: usize) -> (request: Option<QueuedThumbnail>)
        ensures
            request == if index < self@.queued.len() {
                Some(self@.queued[index as int])
            } else {
                None
            },
    {
        if index < self.queued.len() {
            Some(self.queued[index])
        } else {
            None
        }
    }

    /// Takes a request in, unless it is known already or the queue is full.
    pub fn enqueue_kind(&mut self, key: u64, kind: ThumbnailKind) -> (taken: bool)
        requires
            old(self)@.wf(),
        ensures
            taken == old(self)@.has_room_for(key),
            final(self)@ == if taken {
                QueueView {
                    queued: old(self)@.queued.push(QueuedThumbnail { key, kind }),
                    ..old(self)@
                }
            } else {
                old(self)@
            },
            final(self)@.wf(),
    {
        if self.is_waiting(key) {
            return false;
        }
        if self.active_position(key).is_some() {
            return false;
        }
        if self.queued.len() >= MAX_QUEUED_THUMBNAILS {
            return false;
        }
        let ghost before = self@;
        self.queued.push(QueuedThumbnail { key, kind });
        proof {
            assert forall|i: int, j: int| 0 <= i < j < self@.queued.len() implies (
            #[trigger] self@.queued[i]).key != (#[trigger] self@.queued[j]).key by {
                assert(before.queued[i] == self@.queued[i]);
                if j < before.queued.len() {
                    assert(before.queued[j] == self@.queued[j]);
                }
            }
            assert forall|i: int, j: int|
                0 <= i < self@.queued.len() && 0 <= j < self@.active.len() implies (
            #[trigger] self@.queued[i]).key != (#[trigger] self@.active[j]).key by {
                if i < before.queued.len() {
                    assert(before.queued[i] == self@.queued[i]);
                }
                assert(before.active[j] == self@.active[j]);
            }
        }
        true
    }

    fn is_waiting(&self, key: u64) -> (waiting: bool)
        ensures
            waiting == is_queued(self@.queued, key),
    {
        let mut index: usize = 0;
        while index < self.queued.len()
            invariant
                index <= self.queued.len(),
                forall|i: int| 0 <= i < index ==> (#[trigger] self.queued@[i]).key != key,
            decreases self.queued.len() - index,
        {
            if self.queued[index].key == key {
                assert(self@.queued[index as int].key == key);
                return true;
            }
            index = index + 1;
        }
        false
    }

    /// Takes a request of a given priority in, given the priority of each that waits. On a full
    /// queue a request in view takes the place of the youngest near the view.
    pub fn enqueue_prioritized(
        &mut self,
        key: u64,
        kind: ThumbnailKind,
        priority: Priority,
        priorities: &[Priority],
    ) -> (admission: Admission)
        requires
            old(self)@.wf(),
            priorities@.len() == old(self)@.queued.len(),
        ensures
            old(self)@.admits(
                (QueuedThumbnail { key, kind }),
                priority,
                priorities@,
                final(self)@,
                admission,
            ),
            final(self)@.wf(),
    {
        let ghost before = self@;
        if self.is_waiting(key) || self.active_position(key).is_some() {
            return Admission::Refused;
        }
        if self.queued.len() < MAX_QUEUED_THUMBNAILS {
            let _taken = self.enqueue_kind(key, kind);
            return Admission::Queued;
        }
        if priority != Priority::Visible {
            return Admission::Refused;
        }
        let mut index: usize = priorities.len();
        while index > 0
            invariant
                index <= priorities.len(),
                self@ == before,
                before.wf(),
                before.is_unknown(key),
                before.queued.len() >= MAX_QUEUED_THUMBNAILS,
                before == old(self)@,
                priority == Priority::Visible,
                priorities@.len() == before.queued.len(),
                forall|j: int|
                    index <= j < priorities@.len() ==> #[trigger] priorities@[j]
                        != Priority::Nearby,
            decreases index,
        {
            index = index - 1;
            if priorities[index] == Priority::Nearby {
                let new = QueuedThumbnail { key, kind };
                proof {
                    lemma_displaced_wf(before, index as int, new);
                    assert(before.gives_way(priorities@, index as int));
                }
                let gone = self.queued.remove(index);
                self.queued.push(new);
                assert(self@.queued =~= before.displaced(index as int, new).queued);
                assert(self@ == before.displaced(index as int, new));
                return Admission::Displaced(gone.key);
            }
        }
        Admission::Refused
    }

    fn active_position(&self, key: u64) -> (found: Option<usize>)
        ensures
            found is Some <==> is_active(self@.active, key),
            found matches Some(index) ==> index < self@.active.len() && self@.active[index as int].key
                == key,
    {
        let mut index: usize = 0;
        while index < self.active.len()
            invariant
                index <= self.active.len(),
                forall|i: int| 0 <= i < index ==> (#[trigger] self.active@[i]).key != key,
            decreases self.active.len() - index,
        {
            if self.active[index].key == key {
                assert(self@.active[index as int].key == key);
                return Some(index);
            }
            index = index + 1;
        }
        None
    }

    /// Begins the request that is due, given the priority of each that waits.
    pub fn begin_due(&mut self, priorities: &[Priority]) -> (begun: Option<u64>)
        requires
            old(self)@.wf(),
            priorities@.len() == old(self)@.queued.len(),
        ensures
            old(self)@.begins(priorities@, final(self)@, begun),
            final(self)@.wf(),
    {
        if self.active.len() >= RENDER_LIMIT {
            return None;
        }
        let lane_free: bool = self.heavy_running() < HEAVY_LIMIT;
        let heavy_first: bool = self.burst >= RASTER_BURST;
        let ghost before = self@;
        let mut best: Option<usize> = None;
        let mut index: usize = 0;
        while index < self.queued.len()
            invariant
                index <= self.queued.len(),
                self@ == before,
                priorities@.len() == before.queued.len(),
                lane_free == (heavy_count(before.active) < HEAVY_LIMIT),
                heavy_first == (before.burst >= RASTER_BURST),
                best is None ==> forall|j: int|
                    0 <= j < index ==> !#[trigger] before.eligible(priorities@, j),
                best matches Some(at) ==> {
                    &&& at < index
                    &&& before.eligible(priorities@, at as int)
                    &&& forall|j: int|
                        0 <= j < index && j != at && #[trigger] before.eligible(priorities@, j)
                            ==> before.precedes(priorities@, at as int, j)
                },
            decreases self.queued.len() - index,
        {
            let heavy: bool = self.queued[index].kind.is_heavy();
            let tier = priorities[index];
            let in_reach: bool = tier == Priority::Visible || tier == Priority::Nearby;
            if in_reach && (!heavy || lane_free) {
                assert(before.eligible(priorities@, index as int));
                match best {
                    None => {
                        best = Some(index);
                    },
                    Some(at) => {
                        let better: bool = if tier != priorities[at] {
                            tier == Priority::Visible
                        } else {
                            heavy != self.queued[at].kind.is_heavy() && heavy == heavy_first
                        };
                        assert(better == before.precedes(priorities@, index as int, at as int));
                        if better {
                            best = Some(index);
                        }
                    },
                }
            }
            index = index + 1;
        }
        match best {
            None => None,
            Some(at) => {
                let next = self.queued[at];
                proof {
                    lemma_begun_wf(before, priorities@, at as int);
                    assert(before.is_next(priorities@, at as int));
                }
                let _removed = self.queued.remove(at);
                self.active.push(
                    ActiveThumbnail { key: next.key, kind: next.kind, id: None },
                );
                if next.kind.is_heavy() {
                    self.burst = 0;
                } else if self.burst < RASTER_BURST {
                    self.burst = self.burst + 1;
                }
                assert(self@.queued =~= before.begun(at as int).queued);
                assert(self@ == before.begun(at as int));
                Some(next.key)
            },
        }
    }

    /// Begins the request that is due, asking for the priority of each that waits.
    pub fn begin_next_prioritized<P: Fn(u64) -> Priority>(&mut self, priority: P) -> (begun: Option<
        u64,
    >)
        requires
            old(self)@.wf(),
            forall|key: u64| call_requires(priority, (key,)),
        ensures
            exists|priorities: Seq<Priority>|
                {
                    &&& asked_for(old(self)@.queued, priority, priorities)
                    &&& #[trigger] old(self)@.begins(priorities, final(self)@, begun)
                },
            final(self)@.wf(),
    {
        let mut priorities: Vec<Priority> = Vec::new();
        let mut index: usize = 0;
        while index < self.queued.len()
            invariant
                index <= self.queued.len(),
                self@ == old(self)@,
                priorities@.len() == index,
                forall|key: u64| call_requires(priority, (key,)),
                forall|i: int|
                    0 <= i < index ==> call_ensures(
                        priority,
                        (self@.queued[i].key,),
                        #[trigger] priorities@[i],
                    ),
            decreases self.queued.len() - index,
        {
            let answer = priority(self.queued[index].key);
            priorities.push(answer);
            index = index + 1;
        }
        let begun = self.begin_due(priorities.as_slice());
        assert(asked_for(old(self)@.queued, priority, priorities@));
        begun
    }

    /// Begins the request that is due, with all of them in view.
    pub fn begin_next(&mut self) -> (begun: Option<u64>)
        requires
            old(self)@.wf(),
        ensures
            old(self)@.begins(
                Seq::new(old(self)@.queued.len(), |i: int| Priority::Visible),
                final(self)@,
                begun,
            ),
            final(self)@.wf(),
    {
        let mut priorities: Vec<Priority> = Vec::new();
        let count: usize = self.queued.len();
        let mut index: usize = 0;
        while index < count
            invariant
                index <= count,
                priorities@.len() == index,
                forall|i: int| 0 <= i < index ==> priorities@[i] == Priority::Visible,
            decreases count - index,
        {
            priorities.push(Priority::Visible);
            index = index + 1;
        }
        assert(priorities@ =~= Seq::new(old(self)@.queued.len(), |i: int| Priority::Visible));
        self.begin_due(priorities.as_slice())
    }

    /// Notes which execution renders an active request; `false` if the request is not
    /// active.
    pub fn set_active_id(&mut self, key: u64, id: u64) -> (known: bool)
        requires
            old(self)@.wf(),
        ensures
            known == is_active(old(self)@.active, key),
            !known ==> final(self)@ == old(self)@,
            known ==> exists|i: int|
                {
                    &&& 0 <= i < old(self)@.active.len()
                    &&& (#[trigger] old(self)@.active[i]).key == key
                    &&& final(self)@ == (QueueView {
                        active: old(self)@.active.update(
                            i,
                            ActiveThumbnail { id: Some(id), ..old(self)@.active[i] },
                        ),
                        ..old(self)@
                    })
                },
            final(self)@.wf(),
    {
        match self.active_position(key) {
            None => false,
            Some(at) => {
                let ghost before = self@;
                let entry = self.active[at];
                let changed = ActiveThumbnail { key: entry.key, kind: entry.kind, id: Some(id) };
                self.active[at] = changed;
                proof {
                    assert(self@.active =~= before.active.update(at as int, changed));
                    lemma_heavy_update(before.active, at as int, changed);
                    assert forall|i: int, j: int| 0 <= i < j < self@.active.len() implies (
                    #[trigger] self@.active[i]).key != (#[trigger] self@.active[j]).key by {
                        assert(before.active[i].key == self@.active[i].key);
                        assert(before.active[j].key == self@.active[j].key);
                    }
                    assert forall|i: int, j: int|
                        0 <= i < self@.queued.len() && 0 <= j < self@.active.len() implies (
                    #[trigger] self@.queued[i]).key != (#[trigger] self@.active[j]).key by {
                        assert(before.queued[i].key == self@.queued[i].key);
                        assert(before.active[j].key == self@.active[j].key);
                    }
                    assert(before.active[at as int].key == key);
                }
                true
            },
        }
    }

    /// Gives back the permit of an active request; one that is not active has none.
    pub fn finish_key(&mut self, key: u64)
        requires
            old(self)@.wf(),
        ensures
            !is_active(old(self)@.active, key) ==> final(self)@ == old(self)@,
            is_active(old(self)@.active, key) ==> exists|i: int|
                {
                    &&& 0 <= i < old(self)@.active.len()
                    &&& (#[trigger] old(self)@.active[i]).key == key
                    &&& final(self)@ == old(self)@.finished(i)
                },
            final(self)@.wf(),
    {
        if let Some(at) = self.active_position(key) {
            proof {
                lemma_finished_wf(self@, at as int);
                assert(self@.active[at as int].key == key);
            }
            let _finished = self.active.remove(at);
            assert(self@.active =~= old(self)@.finished(at as int).active);
        }
    }

    /// Gives back the permit of an active request if the execution `id` holds it; an
    /// execution that was replaced holds none.
    pub fn finish_thumbnail_slot(&mut self, key: u64, id: u64)
        requires
            old(self)@.wf(),
        ensures
            !holds_permit(old(self)@.active, key, id) ==> final(self)@ == old(self)@,
            holds_permit(old(self)@.active, key, id) ==> exists|i: int|
                {
                    &&& 0 <= i < old(self)@.active.len()
                    &&& (#[trigger] old(self)@.active[i]).key == key
                    &&& final(self)@ == old(self)@.finished(i)
                },
            final(self)@.wf(),
    {
        if let Some(at) = self.active_position(key) {
            let held: bool = match self.active[at].id {
                Some(holder) => holder == id,
                None => false,
            };
            proof {
                assert forall|i: int|
                    0 <= i < self@.active.len() && (#[trigger] self@.active[i]).key
                        == key implies i == at by {
                    assert(self@.active[at as int].key == key);
                }
                assert(self@.active[at as int].key == key);
            }
            if held {
                proof {
                    lemma_finished_wf(self@, at as int);
                }
                let _finished = self.active.remove(at);
                assert(self@.active =~= old(self)@.finished(at as int).active);
            }
        }
    }
}

/// Whether the execution `id` holds the permit of the request `key`.
pub open spec fn holds_permit(active: Seq<ActiveThumbnail>, key: u64, id: u64) -> bool {
    exists|i: int|
        {
            &&& 0 <= i < active.len()
            &&& (#[trigger] active[i]).key == key
            &&& active[i].id == Some(id)
        }
}

/// Whether `priorities` is what asking for each request that waits may have given.
pub open spec fn asked_for<P: Fn(u64) -> Priority>(
    queued: Seq<QueuedThumbnail>,
    priority: P,
    priorities: Seq<Priority>,
) -> bool {
    &&& priorities.len() == queued.len()
    &&& forall|i: int|
        0 <= i < queued.len() ==> call_ensures(priority, (queued[i].key,), #[trigger] priorities[i])
}

proof fn lemma_heavy_update(active: Seq<ActiveThumbnail>, i: int, changed: ActiveThumbnail)
    requires
        0 <= i < active.len(),
        changed.kind == active[i].kind,
    ensures
        heavy_count(active.update(i, changed)) == heavy_count(active),
    decreases active.len(),
{
    if i == active.len() - 1 {
        assert(active.update(i, changed).drop_last() =~= active.drop_last());
    } else {
        lemma_heavy_update(active.drop_last(), i, changed);
        assert(active.update(i, changed).drop_last() =~= active.drop_last().update(i, changed));
    }
}

/// A request in view is not turned away while a request near the view waits: on a full queue
/// it takes that one's place.
pub proof fn visible_requests_displace_prefetch(
    queue: QueueView,
    new: QueuedThumbnail,
    priorities: Seq<Priority>,
    after: QueueView,
    admission: Admission,
    nearby: int,
)
    requires
        queue.wf(),
        queue.admits(new, Priority::Visible, priorities, after, admission),
        queue.is_unknown(new.key),
        queue.queued.len() >= MAX_QUEUED_THUMBNAILS,
        0 <= nearby < queue.queued.len(),
        priorities[nearby] == Priority::Nearby,
    ensures
        admission is Displaced,
        is_queued(after.queued, new.key),
        after.queued.len() == queue.queued.len(),
{
    if admission is Displaced {
        let i = choose|i: int|
            {
                &&& #[trigger] queue.gives_way(priorities, i)
                &&& after == queue.displaced(i, new)
            };
        assert(after.queued[after.queued.len() - 1].key == new.key);
    }
}

/// At most one request is due.
pub proof fn next_is_unique(queue: QueueView, priorities: Seq<Priority>, i: int, j: int)
    requires
        queue.is_next(priorities, i),
        queue.is_next(priorities, j),
    ensures
        i == j,
{
    if i != j {
        assert(queue.eligible(priorities, i) && queue.eligible(priorities, j));
        assert(queue.precedes(priorities, i, j));
        assert(queue.precedes(priorities, j, i));
    }
}

/// Whatever begins keeps the limits: four renders, one heavy.
pub proof fn limits_hold_after_beginning(
    queue: QueueView,
    priorities: Seq<Priority>,
    after: QueueView,
    begun: Option<u64>,
)
    requires
        queue.wf(),
        queue.begins(priorities, after, begun),
    ensures
        after.active.len() <= RENDER_LIMIT,
        heavy_count(after.active) <= HEAVY_LIMIT,
{
    if begun is Some {
        let i = choose|i: int|
            {
                &&& #[trigger] queue.is_next(priorities, i)
                &&& after == queue.begun(i)
            };
        lemma_begun_wf(queue, priorities, i);
    }
}

/// A busy lane for heavy work does not hold up light work: while a permit is free and a
/// light request is in or near the view, something begins.
pub proof fn busy_heavy_lane_does_not_block(
    queue: QueueView,
    priorities: Seq<Priority>,
    after: QueueView,
    begun: Option<u64>,
    light: int,
)
    requires
        queue.begins(priorities, after, begun),
        queue.active.len() < RENDER_LIMIT,
        0 <= light < queue.queued.len(),
        !queue.queued[light].kind.heavy(),
        priorities[light] == Priority::Visible || priorities[light] == Priority::Nearby,
    ensures
        begun is Some,
{
    assert(queue.eligible(priorities, light));
}

/// Heavy work gets its turn: once enough light renders began in a row, a heavy request
/// that may begin is not passed by a light one of its tier.
pub proof fn heavy_gets_its_turn(queue: QueueView, priorities: Seq<Priority>, i: int, heavy: int)
    requires
        queue.burst >= RASTER_BURST,
        queue.is_next(priorities, i),
        queue.eligible(priorities, heavy),
        queue.queued[heavy].kind.heavy(),
        priorities[i] == priorities[heavy],
    ensures
        queue.queued[i].kind.heavy(),
{
    if heavy != i {
        assert(queue.precedes(priorities, i, heavy));
    }
}

/// Until then light work goes first, and among requests of one kind and tier the oldest
/// does.
pub proof fn light_and_old_go_first(queue: QueueView, priorities: Seq<Priority>, i: int, other: int)
    requires
        queue.is_next(priorities, i),
        queue.eligible(priorities, other),
        priorities[i] == priorities[other],
    ensures
        queue.burst < RASTER_BURST && !queue.queued[other].kind.heavy()
            ==> !queue.queued[i].kind.heavy(),
        queue.queued[i].kind.heavy() == queue.queued[other].kind.heavy() ==> i <= other,
{
    if other != i {
        assert(queue.precedes(priorities, i, other));
    }
}

/// Work near the view begins only if nothing in view can.
pub proof fn view_goes_first(queue: QueueView, priorities: Seq<Priority>, i: int, visible: int)
    requires
        queue.is_next(priorities, i),
        queue.eligible(priorities, visible),
        priorities[visible] == Priority::Visible,
    ensures
        priorities[i] == Priority::Visible,
{
    if visible != i {
        assert(queue.precedes(priorities, i, visible));
    }
}

proof fn lemma_heavy_free(active: Seq<ActiveThumbnail>)
    ensures
        heavy_count(active) == 0 <==> forall|a: int|
            0 <= a < active.len() ==> (#[trigger] active[a]).kind == ThumbnailKind::Image,
    decreases active.len(),
{
    if active.len() > 0 {
        let rest = active.drop_last();
        lemma_heavy_free(rest);
        if forall|a: int|
            0 <= a < active.len() ==> (#[trigger] active[a]).kind == ThumbnailKind::Image {
            assert forall|a: int| 0 <= a < rest.len() implies (#[trigger] rest[a]).kind
                == ThumbnailKind::Image by {
                assert(active[a].kind == ThumbnailKind::Image);
            }
            assert(active[active.len() - 1].kind == ThumbnailKind::Image);
        }
        if heavy_count(active) == 0 {
            assert forall|a: int| 0 <= a < active.len() implies (#[trigger] active[a]).kind
                == ThumbnailKind::Image by {
                if a < rest.len() {
                    assert(rest[a] == active[a]);
                }
            }
        }
    }
}

/// What begins was waiting in or near the view; it is rendered from then on, and nothing else
/// moves. Beginning anything but a picture starts the count of pictures over, and beginning a
/// picture counts up to three. Gives the place at which it was waiting.
pub proof fn what_begins(
    queue: QueueView,
    priorities: Seq<Priority>,
    after: QueueView,
    key: u64,
) -> (i: int)
    requires
        queue.wf(),
        queue.begins(priorities, after, Some(key)),
    ensures
        0 <= i < queue.queued.len(),
        queue.queued[i].key == key,
        priorities[i] == Priority::Visible || priorities[i] == Priority::Nearby,
        queue.active.len() < 4,
        queue.queued[i].kind != ThumbnailKind::Image ==> forall|a: int|
            0 <= a < queue.active.len() ==> (#[trigger] queue.active[a]).kind
                == ThumbnailKind::Image,
        after.queued == queue.queued.remove(i),
        after.active.len() == queue.active.len() + 1,
        after.active.drop_last() == queue.active,
        after.active.last().key == key,
        after.active.last().kind == queue.queued[i].kind,
        after.active.last().id is None,
        queue.queued[i].kind != ThumbnailKind::Image ==> after.burst == 0,
        queue.queued[i].kind == ThumbnailKind::Image && queue.burst < 3 ==> after.burst
            == queue.burst + 1,
        queue.queued[i].kind == ThumbnailKind::Image && queue.burst >= 3 ==> after.burst
            == queue.burst,
        forall|j: int|
            #![trigger queue.queued[j]]
            {
                &&& 0 <= j < queue.queued.len()
                &&& priorities[j] == Priority::Visible || priorities[j] == Priority::Nearby
                &&& queue.queued[j].kind == ThumbnailKind::Image || forall|a: int|
                    0 <= a < queue.active.len() ==> (#[trigger] queue.active[a]).kind
                        == ThumbnailKind::Image
            } ==> {
                let this = queue.queued[i].kind == ThumbnailKind::Image;
                let other = queue.queued[j].kind == ThumbnailKind::Image;
                &&& priorities[j] == Priority::Visible ==> priorities[i] == Priority::Visible
                &&& priorities[i] == priorities[j] && other && queue.burst < 3 ==> this
                &&& priorities[i] == priorities[j] && !other && queue.burst >= 3 ==> !this
                &&& priorities[i] == priorities[j] && this == other ==> i <= j
            },
{
    let i = choose|i: int|
        {
            &&& #[trigger] queue.is_next(priorities, i)
            &&& key == queue.queued[i].key
            &&& after == queue.begun(i)
        };
    lemma_heavy_free(queue.active);
    assert(queue.eligible(priorities, i));
    assert(after.active.drop_last() =~= queue.active);
    assert forall|j: int|
        #![trigger queue.queued[j]]
        {
            &&& 0 <= j < queue.queued.len()
            &&& priorities[j] == Priority::Visible || priorities[j] == Priority::Nearby
            &&& queue.queued[j].kind == ThumbnailKind::Image || forall|a: int|
                0 <= a < queue.active.len() ==> (#[trigger] queue.active[a]).kind
                    == ThumbnailKind::Image
        } && j != i implies queue.precedes(priorities, i, j) by {
        assert(queue.eligible(priorities, j));
    }
    i
}

/// Nothing begins only if four renders run, or nothing in or near the view waits that may: a
/// picture always may, anything else while only pictures are rendered.
pub proof fn when_nothing_begins(queue: QueueView, priorities: Seq<Priority>, after: QueueView)
    requires
        queue.wf(),
        queue.begins(priorities, after, None),
    ensures
        after == queue,
        queue.active.len() < 4 ==> forall|j: int|
            #![trigger queue.queued[j]]
            0 <= j < queue.queued.len() ==> {
                ||| priorities[j] == Priority::Paused || priorities[j] == Priority::Deferred
                ||| queue.queued[j].kind != ThumbnailKind::Image && exists|a: int|
                    0 <= a < queue.active.len() && (#[trigger] queue.active[a]).kind
                        != ThumbnailKind::Image
            },
{
    lemma_heavy_free(queue.active);
    if queue.active.len() < 4 {
        assert forall|j: int|
            #![trigger queue.queued[j]]
            0 <= j < queue.queued.len() implies {
            ||| priorities[j] == Priority::Paused || priorities[j] == Priority::Deferred
            ||| queue.queued[j].kind != ThumbnailKind::Image && exists|a: int|
                0 <= a < queue.active.len() && (#[trigger] queue.active[a]).kind
                    != ThumbnailKind::Image
        } by {
            assert(!queue.eligible(priorities, j));
        }
    }
}

/// Between two renders that are no pictures, three pictures begin as long as any are in view:
/// after the first of the two, the next three to begin are pictures, whatever else happens to
/// the queue in between; and then the other one has its turn.
pub proof fn three_pictures_between_heavy_renders(
    queues: Seq<QueueView>,
    views: Seq<Seq<Priority>>,
    afters: Seq<QueueView>,
    keys: Seq<u64>,
    pictures: Seq<int>,
    heavy: int,
)
    requires
        queues.len() == 5,
        views.len() == 5,
        afters.len() == 5,
        keys.len() == 5,
        pictures.len() == 5,
        forall|k: int|
            0 <= k < 5 ==> (#[trigger] queues[k]).wf() && queues[k].begins(
                views[k],
                afters[k],
                Some(keys[k]),
            ),
        forall|k: int| 0 <= k < 4 ==> queues[k + 1].burst == (#[trigger] afters[k]).burst,
        afters[0].active.last().kind != ThumbnailKind::Image,
        forall|k: int|
            1 <= k < 4 ==> 0 <= #[trigger] pictures[k] < queues[k].queued.len()
                && queues[k].queued[pictures[k]].kind == ThumbnailKind::Image
                && views[k][pictures[k]] == Priority::Visible,
        0 <= heavy < queues[4].queued.len(),
        queues[4].queued[heavy].kind != ThumbnailKind::Image,
        views[4][heavy] == Priority::Visible,
        forall|a: int|
            0 <= a < queues[4].active.len() ==> (#[trigger] queues[4].active[a]).kind
                == ThumbnailKind::Image,
    ensures
        afters[0].burst == 0,
        forall|k: int|
            1 <= k < 4 ==> (#[trigger] afters[k]).active.last().kind == ThumbnailKind::Image
                && afters[k].burst == k,
        afters[4].active.last().kind != ThumbnailKind::Image,
        afters[4].burst == 0,
{
    let first = what_begins(queues[0], views[0], afters[0], keys[0]);
    assert(queues[1].burst == afters[0].burst);
    let one = what_begins(queues[1], views[1], afters[1], keys[1]);
    assert(queues[1].queued[pictures[1]].kind == ThumbnailKind::Image);
    assert(afters[1].burst == 1);
    assert(queues[2].burst == afters[1].burst);
    let two = what_begins(queues[2], views[2], afters[2], keys[2]);
    assert(queues[2].queued[pictures[2]].kind == ThumbnailKind::Image);
    assert(afters[2].burst == 2);
    assert(queues[3].burst == afters[2].burst);
    let three = what_begins(queues[3], views[3], afters[3], keys[3]);
    assert(queues[3].queued[pictures[3]].kind == ThumbnailKind::Image);
    assert(afters[3].burst == 3);
    assert(queues[4].burst == afters[3].burst);
    let last = what_begins(queues[4], views[4], afters[4], keys[4]);
    assert(queues[4].queued[heavy].kind != ThumbnailKind::Image);
}

/// A request is taken in exactly if it is neither waiting nor being rendered and fewer than 64
/// wait, or it is in view and takes the place of the youngest near the view; it then waits as the
/// last, and all others stay as they were.
pub proof fn what_taking_in_does(
    queue: QueueView,
    new: QueuedThumbnail,
    priority: Priority,
    priorities: Seq<Priority>,
    after: QueueView,
    admission: Admission,
)
    requires
        queue.wf(),
        queue.admits(new, priority, priorities, after, admission),
    ensures
        after.active == queue.active,
        after.burst == queue.burst,
        ({
            let unknown = (forall|i: int|
                0 <= i < queue.queued.len() ==> (#[trigger] queue.queued[i]).key != new.key) && (
            forall|i: int|
                0 <= i < queue.active.len() ==> (#[trigger] queue.active[i]).key != new.key);
            match admission {
                Admission::Queued => unknown && queue.queued.len() < 64 && after.queued
                    == queue.queued.push(new),
                Admission::Displaced(key) => unknown && queue.queued.len() == 64 && priority
                    == Priority::Visible && after.queued.len() == 64 && after.queued.last() == new
                    && exists|i: int|
                    {
                        &&& 0 <= i < queue.queued.len()
                        &&& (#[trigger] queue.queued[i]).key == key
                        &&& priorities[i] == Priority::Nearby
                        &&& after.queued.drop_last() == queue.queued.remove(i)
                        &&& forall|j: int|
                            i < j < queue.queued.len() ==> #[trigger] priorities[j]
                                != Priority::Nearby
                    },
                Admission::Refused => after.queued == queue.queued && !(unknown
                    && queue.queued.len() < 64) && !(unknown && priority == Priority::Visible
                    && exists|i: int|
                    0 <= i < queue.queued.len() && #[trigger] priorities[i] == Priority::Nearby),
            }
        }),
{
    if let Admission::Displaced(key) = admission {
        let i = choose|i: int|
            {
                &&& #[trigger] queue.gives_way(priorities, i)
                &&& key == queue.queued[i].key
                &&& after == queue.displaced(i, new)
            };
        assert(queue.queued[i].key == key);
        assert(after.queued.drop_last() =~= queue.queued.remove(i));
    }
}

/// Whether there is room for a request, in terms of the queue: fewer than 64 wait, and it is
/// neither one of them nor being rendered.
pub proof fn when_there_is_room(queue: QueueView, key: u64)
    ensures
        queue.has_room_for(key) <==> queue.queued.len() < 64 && (forall|i: int|
            0 <= i < queue.queued.len() ==> (#[trigger] queue.queued[i]).key != key) && (forall|
            i: int,
        |
            0 <= i < queue.active.len() ==> (#[trigger] queue.active[i]).key != key),
{
}

/// A render that is done gives back its own permit and nothing else: what waits, the other
/// renders and the count of pictures stay.
pub proof fn finishing_frees_one_permit(queue: QueueView, i: int)
    requires
        queue.wf(),
        0 <= i < queue.active.len(),
    ensures
        queue.finished(i).active == queue.active.remove(i),
        queue.finished(i).queued == queue.queued,
        queue.finished(i).burst == queue.burst,
        !is_active(queue.finished(i).active, queue.active[i].key),
{
    let after = queue.finished(i);
    if is_active(after.active, queue.active[i].key) {
        let j = choose|j: int|
            0 <= j < after.active.len() && (#[trigger] after.active[j]).key == queue.active[i].key;
        let from = if j < i {
            j
        } else {
            j + 1
        };
        assert(after.active[j] == queue.active[from]);
    }
}

/// An execution holds a permit only under its own number: one that was replaced, or is not known
/// yet, holds none.
pub proof fn replaced_executions_hold_no_permit(
    queue: QueueView,
    i: int,
    id: u64,
)
    requires
        queue.wf(),
        0 <= i < queue.active.len(),
    ensures
        holds_permit(queue.active, queue.active[i].key, id) <==> queue.active[i].id == Some(id),
{
    if holds_permit(queue.active, queue.active[i].key, id) {
        let j = choose|j: int|
            {
                &&& 0 <= j < queue.active.len()
                &&& (#[trigger] queue.active[j]).key == queue.active[i].key
                &&& queue.active[j].id == Some(id)
            };
        assert(queue.active[j].key == queue.active[i].key);
        assert(i == j);
    }
}

/// Everything but a plain picture is heavy, and the number of heavy renders is that of the
/// active requests that are.
pub proof fn heavy_renders_are_counted(active: Seq<ActiveThumbnail>, kind: ThumbnailKind)
    ensures
        kind.heavy() <==> kind == ThumbnailKind::Pdf || kind == ThumbnailKind::Raw || kind
            == ThumbnailKind::Video,
        heavy_count(active) == active.filter(
            |render: ActiveThumbnail| render.kind != ThumbnailKind::Image,
        ).len(),
    decreases active.len(),
{
    reveal(Seq::filter);
    if active.len() > 0 {
        heavy_renders_are_counted(active.drop_last(), kind);
    }
}

/// The priorities that a choice goes by are the answers to asking for each request that waits, in
/// order.
pub proof fn every_request_is_asked_for<P: Fn(u64) -> Priority>(
    queued: Seq<QueuedThumbnail>,
    priority: P,
    priorities: Seq<Priority>,
    i: int,
)
    requires
        asked_for(queued, priority, priorities),
    ensures
        priorities.len() == queued.len(),
        0 <= i < queued.len() ==> call_ensures(priority, (queued[i].key,), priorities[i]),
{
}

} // verus!
