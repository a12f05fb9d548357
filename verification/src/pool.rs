//! The process-wide pool of thumbnail workers.
//!
//! The pool knows workers by their generation. A worker takes a slot from the moment it is
//! started until its process has been reaped; in between it is registered, and idle or
//! lent out. Times are nanoseconds on one clock.
use vstd::prelude::*;

use crate::protocol::WorkerGeneration;

verus! {

/// Most workers that exist at a time.
pub const MAX_PERSISTENT_THUMBNAIL_WORKERS: usize = 4;

/// How long no worker is started after a failure.
pub const SPAWN_BACKOFF: u128 = 500_000_000;

/// How long a worker may be idle.
pub const IDLE_TIMEOUT: u128 = 30_000_000_000;

/// Most bytes of source snapshots that exist at a time.
pub const MAX_STAGED_BYTES: u64 = 536_870_912;

/// Most memory that one worker's processes may use, in bytes.
pub const MAX_WORKER_RSS: u64 = 536_870_912;

/// Most memory that all workers' processes may use, in bytes.
pub const MAX_TOTAL_RSS: u64 = 1_073_741_824;

/// Why the pool cannot serve.
#[derive(Clone, Copy, Debug, PartialEq, Eq, Structural)]
pub enum PoolError {
    ShutDown,
    BackedOff,
    NoCapacity,
    GenerationsExhausted,
    Cancelled,
    SnapshotTooLarge,
    MemoryExceeded,
    Unmeasured,
}

impl PoolError {
    /// The error in words.
    pub fn message(self) -> (text: &'static str)
        ensures
            text@ == match self {
                PoolError::ShutDown => "The thumbnail worker pool is shut down"@,
                PoolError::BackedOff => "Thumbnail worker spawning is temporarily backed off"@,
                PoolError::NoCapacity => "No thumbnail worker capacity is available"@,
                PoolError::GenerationsExhausted =>
                "Unable to allocate thumbnail worker generation"@,
                PoolError::Cancelled => "Preview cancelled"@,
                PoolError::SnapshotTooLarge => "The source is too large to stage"@,
                PoolError::MemoryExceeded => "The thumbnail worker exceeded its memory limit"@,
                PoolError::Unmeasured =>
                "The memory of the thumbnail worker could not be measured"@,
            },
    {
        match self {
            PoolError::ShutDown => "The thumbnail worker pool is shut down",
            PoolError::BackedOff => "Thumbnail worker spawning is temporarily backed off",
            PoolError::NoCapacity => "No thumbnail worker capacity is available",
            PoolError::GenerationsExhausted => "Unable to allocate thumbnail worker generation",
            PoolError::Cancelled => "Preview cancelled",
            PoolError::SnapshotTooLarge => "The source is too large to stage",
            PoolError::MemoryExceeded => "The thumbnail worker exceeded its memory limit",
            PoolError::Unmeasured => "The memory of the thumbnail worker could not be measured",
        }
    }
}

/// A worker that waits for work since `since`.
#[derive(Clone, Copy, Debug, PartialEq, Eq, Structural)]
pub struct IdleWorker {
    pub generation: WorkerGeneration,
    pub since: u128,
}

/// The state of the pool.
#[derive(Debug)]
pub struct PoolState {
    idle: Vec<IdleWorker>,
    workers: Vec<WorkerGeneration>,
    slots: Vec<WorkerGeneration>,
    next_generation: u64,
    spawn_backoff_until: Option<u128>,
    shutdown: bool,
    staged: u64,
    memory: Vec<(WorkerGeneration, u64)>,
}

/// The state of the pool as a value: idle workers, registered workers, taken slots, the
/// last generation given out, the end of the backoff, whether the pool is shut down, the
/// bytes of snapshots, and the memory last reported for each worker.
pub ghost struct PoolView {
    pub idle: Seq<IdleWorker>,
    pub workers: Seq<WorkerGeneration>,
    pub slots: Seq<WorkerGeneration>,
    pub next_generation: u64,
    pub backoff: Option<u128>,
    pub shutdown: bool,
    pub staged: u64,
    pub memory: Seq<(WorkerGeneration, u64)>,
}

/// The generations of idle workers.
pub open spec fn generations(idle: Seq<IdleWorker>) -> Seq<WorkerGeneration> {
    idle.map_values(|worker: IdleWorker| worker.generation)
}

/// All generations but one.
pub open spec fn without(all: Seq<WorkerGeneration>, gone: WorkerGeneration) -> Seq<
    WorkerGeneration,
>
    decreases all.len(),
{
    if all.len() == 0 {
        Seq::empty()
    } else if all.last() == gone {
        without(all.drop_last(), gone)
    } else {
        without(all.drop_last(), gone).push(all.last())
    }
}

/// All idle workers but one.
pub open spec fn idle_without(all: Seq<IdleWorker>, gone: WorkerGeneration) -> Seq<IdleWorker>
    decreases all.len(),
{
    if all.len() == 0 {
        Seq::empty()
    } else if all.last().generation == gone {
        idle_without(all.drop_last(), gone)
    } else {
        idle_without(all.drop_last(), gone).push(all.last())
    }
}

/// All memory reports but those of one worker.
pub open spec fn memory_without(
    all: Seq<(WorkerGeneration, u64)>,
    gone: WorkerGeneration,
) -> Seq<(WorkerGeneration, u64)>
    decreases all.len(),
{
    if all.len() == 0 {
        Seq::empty()
    } else if all.last().0 == gone {
        memory_without(all.drop_last(), gone)
    } else {
        memory_without(all.drop_last(), gone).push(all.last())
    }
}

/// The memory of all workers together.
pub open spec fn total_memory(all: Seq<(WorkerGeneration, u64)>) -> int
    decreases all.len(),
{
    if all.len() == 0 {
        0
    } else {
        total_memory(all.drop_last()) + all.last().1
    }
}

/// Whether a worker has been idle for too long.
pub open spec fn is_expired(worker: IdleWorker, now: u128) -> bool {
    now >= worker.since + IDLE_TIMEOUT
}

/// The idle workers that have been idle for too long, in order.
pub open spec fn expired(idle: Seq<IdleWorker>, now: u128) -> Seq<WorkerGeneration>
    decreases idle.len(),
{
    if idle.len() == 0 {
        Seq::empty()
    } else if is_expired(idle.last(), now) {
        expired(idle.drop_last(), now).push(idle.last().generation)
    } else {
        expired(idle.drop_last(), now)
    }
}

/// The idle workers that have not been idle for too long, in order.
pub open spec fn unexpired(idle: Seq<IdleWorker>, now: u128) -> Seq<IdleWorker>
    decreases idle.len(),
{
    if idle.len() == 0 {
        Seq::empty()
    } else if is_expired(idle.last(), now) {
        unexpired(idle.drop_last(), now)
    } else {
        unexpired(idle.drop_last(), now).push(idle.last())
    }
}

/// All generations but those in `gone`.
pub open spec fn without_all(all: Seq<WorkerGeneration>, gone: Seq<WorkerGeneration>) -> Seq<
    WorkerGeneration,
>
    decreases gone.len(),
{
    if gone.len() == 0 {
        all
    } else {
        without(without_all(all, gone.drop_last()), gone.last())
    }
}

impl PoolView {
    /// At most the permitted number of slots is taken, no two by the same worker as long as
    /// the numbers of generations last; registered workers have slots, idle workers are
    /// registered and listed once, and no slot has a generation that was not given out.
    pub open spec fn wf(self) -> bool {
        &&& self.slots.len() <= MAX_PERSISTENT_THUMBNAIL_WORKERS
        &&& forall|g: WorkerGeneration| #[trigger]
            self.workers.contains(g) ==> self.slots.contains(g)
        &&& forall|g: WorkerGeneration| #[trigger]
            generations(self.idle).contains(g) ==> self.workers.contains(g)
        &&& forall|i: int, j: int|
            0 <= i < j < self.idle.len() ==> (#[trigger] self.idle[i]).generation != (
            #[trigger] self.idle[j]).generation
        &&& forall|g: WorkerGeneration| #[trigger]
            self.slots.contains(g) ==> g.number() <= self.next_generation
        &&& self.next_generation < u64::MAX ==> self.slots.no_duplicates()
        &&& self.staged <= MAX_STAGED_BYTES
        &&& total_memory(self.memory) <= MAX_TOTAL_RSS
    }

    /// Why no worker can be started, or `None` where one can.
    pub open spec fn reserve_error(self, now: u128) -> Option<PoolError> {
        if self.shutdown {
            Some(PoolError::ShutDown)
        } else if self.backoff matches Some(until) && now < until {
            Some(PoolError::BackedOff)
        } else if self.slots.len() >= MAX_PERSISTENT_THUMBNAIL_WORKERS {
            Some(PoolError::NoCapacity)
        } else {
            None
        }
    }

    /// The number of the next generation.
    pub open spec fn coming_generation(self) -> u64 {
        if self.next_generation == u64::MAX {
            u64::MAX
        } else {
            (self.next_generation + 1) as u64
        }
    }

    /// The pool once a slot has been taken for `generation`.
    pub open spec fn reserved(self, generation: WorkerGeneration) -> PoolView {
        PoolView {
            next_generation: self.coming_generation(),
            slots: self.slots.push(generation),
            ..self
        }
    }

    /// The pool without an idle worker that is about to end; its slot stays taken.
    pub open spec fn retiring(self, generation: WorkerGeneration) -> PoolView {
        PoolView {
            idle: idle_without(self.idle, generation),
            workers: without(self.workers, generation),
            ..self
        }
    }

    /// The pool once the process of a worker is gone; its slot is free.
    pub open spec fn reaped(self, generation: WorkerGeneration) -> PoolView {
        PoolView {
            idle: idle_without(self.idle, generation),
            workers: without(self.workers, generation),
            slots: without(self.slots, generation),
            memory: memory_without(self.memory, generation),
            ..self
        }
    }
}

impl View for PoolState {
    type V = PoolView;

    closed spec fn view(&self) -> PoolView {
        PoolView {
            idle: self.idle@,
            workers: self.workers@,
            slots: self.slots@,
            next_generation: self.next_generation,
            backoff: self.spawn_backoff_until,
            shutdown: self.shutdown,
            staged: self.staged,
            memory: self.memory@,
        }
    }
}

/// A generation is kept exactly where it is listed and not the one that goes.
pub proof fn lemma_without(all: Seq<WorkerGeneration>, gone: WorkerGeneration)
    ensures
        without(all, gone).len() <= all.len(),
        forall|g: WorkerGeneration| #[trigger]
            without(all, gone).contains(g) <==> all.contains(g) && g != gone,
        all.contains(gone) ==> without(all, gone).len() < all.len(),
    decreases all.len(),
{
    if all.len() > 0 {
        let rest = all.drop_last();
        lemma_without(rest, gone);
        assert forall|g: WorkerGeneration| #[trigger]
            without(all, gone).contains(g) <==> all.contains(g) && g != gone by {
            if without(all, gone).contains(g) {
                if all.last() != gone && g == all.last() {
                    assert(all[all.len() - 1] == g);
                } else {
                    let at = without(all, gone).index_of(g);
                    assert(without(rest, gone)[at] == g);
                    assert(without(rest, gone).contains(g));
                    let from = rest.index_of(g);
                    assert(all[from] == g);
                }
            }
            if all.contains(g) && g != gone {
                let from = all.index_of(g);
                if from < rest.len() {
                    assert(rest[from] == g);
                    assert(without(rest, gone).contains(g));
                    let at = without(rest, gone).index_of(g);
                    assert(without(all, gone)[at] == g);
                } else {
                    let kept = without(all, gone);
                    assert(kept[kept.len() - 1] == g);
                }
            }
        }
        if all.contains(gone) && all.last() != gone {
            let from = all.index_of(gone);
            assert(rest[from] == gone);
        }
    }
}

proof fn lemma_idle_without(all: Seq<IdleWorker>, gone: WorkerGeneration)
    requires
        forall|i: int, j: int|
            0 <= i < j < all.len() ==> (#[trigger] all[i]).generation != (
            #[trigger] all[j]).generation,
    ensures
        forall|g: WorkerGeneration| #[trigger]
            generations(idle_without(all, gone)).contains(g) ==> generations(all).contains(g) && g
                != gone,
        forall|i: int, j: int|
            0 <= i < j < idle_without(all, gone).len() ==> (#[trigger] idle_without(
                all,
                gone,
            )[i]).generation != (#[trigger] idle_without(all, gone)[j]).generation,
    decreases all.len(),
{
    if all.len() > 0 {
        let rest = all.drop_last();
        lemma_idle_without(rest, gone);
        let kept = idle_without(rest, gone);
        assert forall|g: WorkerGeneration| #[trigger]
            generations(idle_without(all, gone)).contains(g) implies generations(all).contains(g)
            && g != gone by {
            let at = generations(idle_without(all, gone)).index_of(g);
            if at < kept.len() {
                assert(generations(kept)[at] == g);
                assert(generations(kept).contains(g));
                let from = generations(rest).index_of(g);
                assert(generations(all)[from] == g);
            } else {
                assert(generations(all)[all.len() - 1] == g);
            }
        }
        assert forall|i: int| 0 <= i < kept.len() implies (#[trigger] kept[i]).generation
            != all.last().generation by {
            assert(generations(kept)[i] == kept[i].generation);
            assert(generations(kept).contains(kept[i].generation));
            let from = generations(rest).index_of(kept[i].generation);
            assert(all[from].generation == kept[i].generation);
            assert(all[all.len() - 1] == all.last());
        }
    }
}

proof fn lemma_memory_without(all: Seq<(WorkerGeneration, u64)>, gone: WorkerGeneration)
    ensures
        total_memory(memory_without(all, gone)) <= total_memory(all),
    decreases all.len(),
{
    if all.len() > 0 {
        lemma_memory_without(all.drop_last(), gone);
        let kept = memory_without(all.drop_last(), gone);
        assert(kept.push(all.last()).drop_last() =~= kept);
    }
}

/// Taking a generation out of distinct ones leaves distinct ones, and one fewer if it was
/// listed.
pub proof fn lemma_without_distinct(all: Seq<WorkerGeneration>, gone: WorkerGeneration)
    requires
        all.no_duplicates(),
    ensures
        without(all, gone).no_duplicates(),
        without(all, gone).len() == if all.contains(gone) {
            all.len() - 1
        } else {
            all.len() as int
        },
    decreases all.len(),
{
    if all.len() > 0 {
        let rest = all.drop_last();
        let last = all.last();
        lemma_without_distinct(rest, gone);
        lemma_without(rest, gone);
        assert(!rest.contains(last)) by {
            if rest.contains(last) {
                let i = rest.index_of(last);
                assert(all[i] == all[all.len() - 1]);
            }
        }
        assert(all.contains(gone) <==> rest.contains(gone) || last == gone) by {
            if rest.contains(gone) {
                assert(all[rest.index_of(gone)] == gone);
            }
            if last == gone {
                assert(all[all.len() - 1] == gone);
            }
            if all.contains(gone) && last != gone {
                assert(rest[all.index_of(gone)] == gone);
            }
        }
        let kept = without(rest, gone);
        if last != gone {
            assert(!kept.contains(last));
            assert forall|i: int, j: int|
                0 <= i < kept.push(last).len() && 0 <= j < kept.push(last).len() && i
                    != j implies kept.push(last)[i] != kept.push(last)[j] by {
                if i < kept.len() && j == kept.len() {
                    assert(kept.contains(kept[i]));
                }
                if j < kept.len() && i == kept.len() {
                    assert(kept.contains(kept[j]));
                }
            }
        }
    }
}

proof fn lemma_retiring_keeps_wf(pool: PoolView, generation: WorkerGeneration)
    requires
        pool.wf(),
    ensures
        pool.retiring(generation).wf(),
{
    lemma_without(pool.workers, generation);
    lemma_idle_without(pool.idle, generation);
}

proof fn lemma_reaped_keeps_wf(pool: PoolView, generation: WorkerGeneration)
    requires
        pool.wf(),
    ensures
        pool.reaped(generation).wf(),
{
    lemma_without(pool.workers, generation);
    lemma_without(pool.slots, generation);
    lemma_idle_without(pool.idle, generation);
    lemma_memory_without(pool.memory, generation);
    if pool.next_generation < u64::MAX {
        lemma_without_distinct(pool.slots, generation);
    }
}

fn keep_generations(all: &mut Vec<WorkerGeneration>, gone: WorkerGeneration)
    ensures
        final(all)@ == without(old(all)@, gone),
{
    let ghost before = all@;
    let mut kept: Vec<WorkerGeneration> = Vec::new();
    let mut index: usize = 0;
    assert(without(before.take(0), gone) =~= Seq::<WorkerGeneration>::empty());
    while index < all.len()
        invariant
            index <= all.len(),
            all@ == before,
            kept@ == without(before.take(index as int), gone),
        decreases all.len() - index,
    {
        assert(before.take(index + 1).drop_last() =~= before.take(index as int));
        assert(before.take(index + 1).last() == before[index as int]);
        if all[index] != gone {
            kept.push(all[index]);
        }
        index = index + 1;
    }
    assert(before.take(index as int) =~= before);
    *all = kept;
}

fn keep_idle(all: &mut Vec<IdleWorker>, gone: WorkerGeneration)
    ensures
        final(all)@ == idle_without(old(all)@, gone),
{
    let ghost before = all@;
    let mut kept: Vec<IdleWorker> = Vec::new();
    let mut index: usize = 0;
    assert(idle_without(before.take(0), gone) =~= Seq::<IdleWorker>::empty());
    while index < all.len()
        invariant
            index <= all.len(),
            all@ == before,
            kept@ == idle_without(before.take(index as int), gone),
        decreases all.len() - index,
    {
        assert(before.take(index + 1).drop_last() =~= before.take(index as int));
        assert(before.take(index + 1).last() == before[index as int]);
        if all[index].generation != gone {
            kept.push(all[index]);
        }
        index = index + 1;
    }
    assert(before.take(index as int) =~= before);
    *all = kept;
}

fn keep_memory(all: &mut Vec<(WorkerGeneration, u64)>, gone: WorkerGeneration)
    ensures
        final(all)@ == memory_without(old(all)@, gone),
{
    let ghost before = all@;
    let mut kept: Vec<(WorkerGeneration, u64)> = Vec::new();
    let mut index: usize = 0;
    assert(memory_without(before.take(0), gone) =~= Seq::<(WorkerGeneration, u64)>::empty());
    while index < all.len()
        invariant
            index <= all.len(),
            all@ == before,
            kept@ == memory_without(before.take(index as int), gone),
        decreases all.len() - index,
    {
        assert(before.take(index + 1).drop_last() =~= before.take(index as int));
        assert(before.take(index + 1).last() == before[index as int]);
        if all[index].0 != gone {
            kept.push(all[index]);
        }
        index = index + 1;
    }
    assert(before.take(index as int) =~= before);
    *all = kept;
}

impl PoolState {
    /// A pool without workers.
    pub fn new() -> (pool: Self)
        ensures
            pool@.idle.len() == 0,
            pool@.workers.len() == 0,
            pool@.slots.len() == 0,
            pool@.next_generation == 0,
            pool@.backoff is None,
            !pool@.shutdown,
            pool@.staged == 0,
            pool@.memory.len() == 0,
            pool@.wf(),
    {
        PoolState {
            idle: Vec::new(),
            workers: Vec::new(),
            slots: Vec::new(),
            next_generation: 0,
            spawn_backoff_until: None,
            shutdown: false,
            staged: 0,
            memory: Vec::new(),
        }
    }

    /// Whether a generation is listed among the slots.
    pub fn has_slot(&self, generation: WorkerGeneration) -> (found: bool)
        ensures
            found == self@.slots.contains(generation),
    {
        position(&self.slots, generation).is_some()
    }

    /// Whether the pool is shut down.
    pub fn is_shut_down(&self) -> (down: bool)
        ensures
            down == self@.shutdown,
    {
        self.shutdown
    }

    /// The bytes of snapshots that exist now.
    pub fn staged_bytes(&self) -> (bytes: u64)
        ensures
            bytes == self@.staged,
    {
        self.staged
    }
}

fn position(all: &Vec<WorkerGeneration>, wanted: WorkerGeneration) -> (found: Option<usize>)
    ensures
        found is Some <==> all@.contains(wanted),
        found matches Some(index) ==> index < all@.len() && all@[index as int] == wanted,
{
    let mut index: usize = 0;
    while index < all.len()
        invariant
            index <= all.len(),
            forall|i: int| 0 <= i < index ==> all@[i] != wanted,
        decreases all.len() - index,
    {
        if all[index] == wanted {
            return Some(index);
        }
        index = index + 1;
    }
    None
}

fn idle_position(all: &Vec<IdleWorker>, wanted: WorkerGeneration) -> (found: Option<usize>)
    ensures
        found is Some <==> generations(all@).contains(wanted),
        found matches Some(index) ==> index < all@.len() && all@[index as int].generation
            == wanted,
{
    let mut index: usize = 0;
    while index < all.len()
        invariant
            index <= all.len(),
            forall|i: int| 0 <= i < index ==> generations(all@)[i] != wanted,
        decreases all.len() - index,
    {
        if all[index].generation == wanted {
            assert(generations(all@)[index as int] == wanted);
            return Some(index);
        }
        index = index + 1;
    }
    None
}

/// Takes a slot for a worker that is about to be started, and gives it a generation.
pub fn reserve_generation(pool: &mut PoolState, now: u128) -> (generation: Result<
    WorkerGeneration,
    PoolError,
>)
    requires
        old(pool)@.wf(),
    ensures
        generation matches Err(error) ==> old(pool)@.reserve_error(now) == Some(error)
            && final(pool)@ == old(pool)@,
        generation matches Ok(taken) ==> {
            &&& old(pool)@.reserve_error(now) is None
            &&& taken.number() == old(pool)@.coming_generation()
            &&& final(pool)@ == old(pool)@.reserved(taken)
        },
        final(pool)@.wf(),
{
    if pool.shutdown {
        return Err(PoolError::ShutDown);
    }
    if let Some(until) = pool.spawn_backoff_until {
        if now < until {
            return Err(PoolError::BackedOff);
        }
    }
    if pool.slots.len() >= MAX_PERSISTENT_THUMBNAIL_WORKERS {
        return Err(PoolError::NoCapacity);
    }
    let number: u64 = pool.next_generation.saturating_add(1);
    match WorkerGeneration::new(number) {
        Ok(generation) => {
            let ghost before = pool@;
            pool.next_generation = number;
            pool.slots.push(generation);
            proof {
                assert forall|g: WorkerGeneration| #[trigger]
                    pool@.slots.contains(g) implies g.number() <= pool@.next_generation by {
                    let at = pool@.slots.index_of(g);
                    if at < before.slots.len() {
                        assert(before.slots[at] == g);
                        assert(before.slots.contains(g));
                    }
                }
                assert forall|g: WorkerGeneration| #[trigger]
                    pool@.workers.contains(g) implies pool@.slots.contains(g) by {
                    assert(before.workers.contains(g));
                    let at = before.slots.index_of(g);
                    assert(pool@.slots[at] == g);
                }
                if pool@.next_generation < u64::MAX {
                    assert forall|i: int, j: int|
                        0 <= i < pool@.slots.len() && 0 <= j < pool@.slots.len() && i
                            != j implies pool@.slots[i] != pool@.slots[j] by {
                        if i < before.slots.len() {
                            assert(before.slots.contains(before.slots[i]));
                        }
                        if j < before.slots.len() {
                            assert(before.slots.contains(before.slots[j]));
                        }
                    }
                }
            }
            Ok(generation)
        },
        Err(_) => Err(PoolError::GenerationsExhausted),
    }
}

/// Lists a worker that has announced itself; `false` if it has no slot.
pub fn register_worker(pool: &mut PoolState, generation: WorkerGeneration) -> (registered: bool)
    requires
        old(pool)@.wf(),
    ensures
        registered == old(pool)@.slots.contains(generation),
        final(pool)@ == if registered {
            PoolView { workers: old(pool)@.workers.push(generation), ..old(pool)@ }
        } else {
            old(pool)@
        },
        final(pool)@.wf(),
{
    if position(&pool.slots, generation).is_none() {
        return false;
    }
    let ghost before = pool@;
    pool.workers.push(generation);
    proof {
        assert forall|g: WorkerGeneration| #[trigger]
            pool@.workers.contains(g) implies pool@.slots.contains(g) by {
            let at = pool@.workers.index_of(g);
            if at < before.workers.len() {
                assert(before.workers[at] == g);
                assert(before.workers.contains(g));
            }
        }
        assert forall|g: WorkerGeneration| #[trigger]
            generations(pool@.idle).contains(g) implies pool@.workers.contains(g) by {
            assert(before.workers.contains(g));
            let at = before.workers.index_of(g);
            assert(pool@.workers[at] == g);
        }
    }
    true
}

/// Lends out the idle worker that came in last, if there is one.
pub fn checkout_worker(pool: &mut PoolState) -> (worker: Option<WorkerGeneration>)
    requires
        old(pool)@.wf(),
    ensures
        match worker {
            Some(generation) => {
                &&& old(pool)@.idle.len() > 0
                &&& generation == old(pool)@.idle.last().generation
                &&& final(pool)@ == (PoolView { idle: old(pool)@.idle.drop_last(), ..old(pool)@ })
            },
            None => old(pool)@.idle.len() == 0 && final(pool)@ == old(pool)@,
        },
        final(pool)@.wf(),
{
    let ghost before = pool@;
    match pool.idle.pop() {
        Some(worker) => {
            proof {
                assert(pool@.idle =~= before.idle.drop_last());
                assert forall|g: WorkerGeneration| #[trigger]
                    generations(pool@.idle).contains(g) implies pool@.workers.contains(g) by {
                    let at = generations(pool@.idle).index_of(g);
                    assert(generations(before.idle)[at] == g);
                    assert(generations(before.idle).contains(g));
                }
                assert forall|i: int, j: int| 0 <= i < j < pool@.idle.len() implies (
                #[trigger] pool@.idle[i]).generation != (#[trigger] pool@.idle[j]).generation by {
                    assert(before.idle[i] == pool@.idle[i]);
                    assert(before.idle[j] == pool@.idle[j]);
                }
            }
            Some(worker.generation)
        },
        None => None,
    }
}

/// Whether a worker can be taken back: it is registered, not idle already, and the pool is
/// not shut down.
pub open spec fn can_check_in(pool: PoolView, generation: WorkerGeneration) -> bool {
    &&& !pool.shutdown
    &&& pool.workers.contains(generation)
    &&& !generations(pool.idle).contains(generation)
}

/// Takes a worker back at `now`; `false` means that the worker has to be ended.
pub fn checkin_worker(pool: &mut PoolState, generation: WorkerGeneration, now: u128) -> (parked:
    bool)
    requires
        old(pool)@.wf(),
    ensures
        parked == can_check_in(old(pool)@, generation),
        final(pool)@ == if parked {
            PoolView {
                idle: old(pool)@.idle.push(IdleWorker { generation, since: now }),
                ..old(pool)@
            }
        } else {
            old(pool)@
        },
        final(pool)@.wf(),
{
    if pool.shutdown || position(&pool.workers, generation).is_none() || idle_position(
        &pool.idle,
        generation,
    ).is_some() {
        return false;
    }
    let ghost before = pool@;
    pool.idle.push(IdleWorker { generation, since: now });
    proof {
        assert forall|g: WorkerGeneration| #[trigger]
            generations(pool@.idle).contains(g) implies pool@.workers.contains(g) by {
            let at = generations(pool@.idle).index_of(g);
            if at < before.idle.len() {
                assert(generations(before.idle)[at] == g);
                assert(generations(before.idle).contains(g));
            }
        }
        assert forall|i: int, j: int| 0 <= i < j < pool@.idle.len() implies (
        #[trigger] pool@.idle[i]).generation != (#[trigger] pool@.idle[j]).generation by {
            assert(before.idle[i] == pool@.idle[i]);
            assert(generations(before.idle)[i] == before.idle[i].generation);
            if j < before.idle.len() {
                assert(before.idle[j] == pool@.idle[j]);
            }
        }
    }
    true
}

/// Takes a worker out of the pool if it is idle; `true` means that it has to be ended and
/// reaped, which then frees its slot.
pub fn retire_idle_worker(pool: &mut PoolState, generation: WorkerGeneration) -> (retiring: bool)
    requires
        old(pool)@.wf(),
    ensures
        retiring == generations(old(pool)@.idle).contains(generation),
        final(pool)@ == if retiring {
            old(pool)@.retiring(generation)
        } else {
            old(pool)@
        },
        final(pool)@.wf(),
{
    if idle_position(&pool.idle, generation).is_none() {
        return false;
    }
    proof {
        lemma_retiring_keeps_wf(pool@, generation);
    }
    keep_idle(&mut pool.idle, generation);
    keep_generations(&mut pool.workers, generation);
    true
}

/// Takes the idle worker that came in last out of the pool, to make room for a one-shot
/// renderer; it has to be ended and reaped.
pub fn retire_idle_thumbnail_worker_for_oneshot(pool: &mut PoolState) -> (worker: Option<
    WorkerGeneration,
>)
    requires
        old(pool)@.wf(),
    ensures
        match worker {
            Some(generation) => {
                &&& old(pool)@.idle.len() > 0
                &&& generation == old(pool)@.idle.last().generation
                &&& final(pool)@ == old(pool)@.retiring(generation)
                &&& final(pool)@.slots == old(pool)@.slots
                &&& old(pool)@.next_generation < u64::MAX ==> final(pool)@.reaped(
                    generation,
                ).slots.len() == old(pool)@.slots.len() - 1
            },
            None => old(pool)@.idle.len() == 0 && final(pool)@ == old(pool)@,
        },
        final(pool)@.wf(),
{
    let count: usize = pool.idle.len();
    if count == 0 {
        return None;
    }
    let generation = pool.idle[count - 1].generation;
    proof {
        lemma_retiring_keeps_wf(pool@, generation);
        assert(generations(pool@.idle)[count - 1] == generation);
        assert(generations(pool@.idle).contains(generation));
        if pool@.next_generation < u64::MAX {
            lemma_without_distinct(pool@.slots, generation);
        }
    }
    keep_idle(&mut pool.idle, generation);
    keep_generations(&mut pool.workers, generation);
    Some(generation)
}

/// Takes every worker out of the pool that has been idle since `IDLE_TIMEOUT` or longer;
/// they have to be ended and reaped.
pub fn retire_expired(pool: &mut PoolState, now: u128) -> (workers: Vec<WorkerGeneration>)
    requires
        old(pool)@.wf(),
    ensures
        workers@ == expired(old(pool)@.idle, now),
        final(pool)@ == (PoolView {
            idle: unexpired(old(pool)@.idle, now),
            workers: without_all(old(pool)@.workers, workers@),
            ..old(pool)@
        }),
        final(pool)@.wf(),
{
    let ghost before = pool@;
    let mut workers: Vec<WorkerGeneration> = Vec::new();
    let mut kept: Vec<IdleWorker> = Vec::new();
    let mut index: usize = 0;
    let count: usize = pool.idle.len();
    assert(expired(before.idle.take(0), now) =~= Seq::<WorkerGeneration>::empty());
    assert(unexpired(before.idle.take(0), now) =~= Seq::<IdleWorker>::empty());
    while index < count
        invariant
            index <= count == before.idle.len(),
            before.wf(),
            pool@ == (PoolView { workers: pool@.workers, ..before }),
            pool@.workers == without_all(before.workers, workers@),
            workers@ == expired(before.idle.take(index as int), now),
            kept@ == unexpired(before.idle.take(index as int), now),
            forall|g: WorkerGeneration| #[trigger]
                pool@.workers.contains(g) <==> before.workers.contains(g) && !workers@.contains(g),
            forall|g: WorkerGeneration| #[trigger]
                workers@.contains(g) ==> generations(before.idle.take(index as int)).contains(g),
            forall|g: WorkerGeneration| #[trigger]
                generations(kept@).contains(g) ==> generations(
                    before.idle.take(index as int),
                ).contains(g) && !workers@.contains(g),
            forall|i: int, j: int|
                0 <= i < j < kept@.len() ==> (#[trigger] kept@[i]).generation != (
                #[trigger] kept@[j]).generation,
        decreases count - index,
    {
        let ghost taken = before.idle.take(index as int);
        let ghost more = before.idle.take(index + 1);
        let worker = pool.idle[index];
        let ghost was_kept = kept@;
        let ghost was_gone = workers@;
        proof {
            assert(more.drop_last() =~= taken);
            assert(more.last() == worker);
            assert(generations(more)[index as int] == worker.generation);
            assert(!generations(taken).contains(worker.generation)) by {
                if generations(taken).contains(worker.generation) {
                    let at = generations(taken).index_of(worker.generation);
                    assert(before.idle[at].generation == worker.generation);
                    assert(before.idle[index as int].generation == worker.generation);
                }
            }
            assert forall|g: WorkerGeneration| #[trigger]
                generations(taken).contains(g) implies generations(more).contains(g) by {
                let at = generations(taken).index_of(g);
                assert(generations(more)[at] == g);
            }
        }
        if now >= worker.since && now - worker.since >= IDLE_TIMEOUT {
            let ghost listed = pool@.workers;
            workers.push(worker.generation);
            keep_generations(&mut pool.workers, worker.generation);
            proof {
                assert(workers@.drop_last() =~= was_gone);
                lemma_without(listed, worker.generation);
                assert forall|g: WorkerGeneration| #[trigger]
                    workers@.contains(g) <==> was_gone.contains(g) || g == worker.generation by {
                    if was_gone.contains(g) {
                        let at = was_gone.index_of(g);
                        assert(workers@[at] == g);
                    }
                    if g == worker.generation {
                        assert(workers@[was_gone.len() as int] == g);
                    }
                }
            }
        } else {
            kept.push(worker);
            proof {
                assert forall|g: WorkerGeneration| #[trigger]
                    generations(kept@).contains(g) implies generations(more).contains(g)
                    && !workers@.contains(g) by {
                    let at = generations(kept@).index_of(g);
                    if at < was_kept.len() {
                        assert(generations(was_kept)[at] == g);
                        assert(generations(was_kept).contains(g));
                    }
                }
                assert forall|i: int, j: int| 0 <= i < j < kept@.len() implies (
                #[trigger] kept@[i]).generation != (#[trigger] kept@[j]).generation by {
                    assert(kept@[i] == was_kept[i]);
                    assert(generations(was_kept)[i] == was_kept[i].generation);
                    assert(generations(was_kept).contains(was_kept[i].generation));
                    if j < was_kept.len() {
                        assert(kept@[j] == was_kept[j]);
                    }
                }
            }
        }
        index = index + 1;
    }
    assert(before.idle.take(count as int) =~= before.idle);
    pool.idle = kept;
    workers
}

/// Frees the slot of a worker whose process is gone, and forgets the worker.
pub fn note_worker_dead(pool: &mut PoolState, generation: WorkerGeneration)
    requires
        old(pool)@.wf(),
    ensures
        final(pool)@ == old(pool)@.reaped(generation),
        old(pool)@.next_generation < u64::MAX ==> final(pool)@.slots.len()
            == if old(pool)@.slots.contains(generation) {
            old(pool)@.slots.len() - 1
        } else {
            old(pool)@.slots.len() as int
        },
        final(pool)@.wf(),
{
    proof {
        lemma_reaped_keeps_wf(pool@, generation);
        if pool@.next_generation < u64::MAX {
            lemma_without_distinct(pool@.slots, generation);
        }
    }
    keep_idle(&mut pool.idle, generation);
    keep_generations(&mut pool.workers, generation);
    keep_generations(&mut pool.slots, generation);
    keep_memory(&mut pool.memory, generation);
}

/// Starts no worker for a while.
pub fn note_spawn_failure(pool: &mut PoolState, now: u128)
    requires
        old(pool)@.wf(),
    ensures
        final(pool)@ == (PoolView {
            backoff: Some(
                if now + SPAWN_BACKOFF > u128::MAX {
                    u128::MAX
                } else {
                    (now + SPAWN_BACKOFF) as u128
                },
            ),
            ..old(pool)@
        }),
        final(pool)@.wf(),
{
    pool.spawn_backoff_until = Some(now.saturating_add(SPAWN_BACKOFF));
}

/// Shuts the pool down: no further worker is started or taken back. All registered
/// workers have to be ended and reaped, which then frees their slots.
pub fn shutdown_thumbnail_worker_pool(pool: &mut PoolState) -> (workers: Vec<WorkerGeneration>)
    requires
        old(pool)@.wf(),
    ensures
        workers@ == old(pool)@.workers,
        final(pool)@ == (PoolView {
            idle: Seq::empty(),
            workers: Seq::empty(),
            backoff: None,
            shutdown: true,
            ..old(pool)@
        }),
        final(pool)@.wf(),
{
    let mut workers: Vec<WorkerGeneration> = Vec::new();
    std::mem::swap(&mut workers, &mut pool.workers);
    pool.spawn_backoff_until = None;
    pool.shutdown = true;
    pool.idle = Vec::new();
    assert(pool@.idle =~= Seq::empty());
    assert(pool@.workers =~= Seq::empty());
    workers
}

/// How many workers are idle.
pub fn idle_worker_count(pool: &PoolState) -> (count: usize)
    ensures
        count == pool@.idle.len(),
{
    pool.idle.len()
}

/// How many slots are taken.
pub fn total_worker_count(pool: &PoolState) -> (count: usize)
    ensures
        count == pool@.slots.len(),
{
    pool.slots.len()
}

/// What comes of asking for room for a snapshot.
#[derive(Clone, Copy, Debug, PartialEq, Eq, Structural)]
pub enum StageStep {
    /// The bytes are set aside.
    Granted,
    /// Ask again once other snapshots are gone.
    Wait,
    /// Give up.
    Refused(PoolError),
}

/// What comes of asking `pool` for room for `bytes`.
pub open spec fn stage_step(pool: PoolView, bytes: u64, cancelled: bool) -> StageStep {
    if cancelled {
        StageStep::Refused(PoolError::Cancelled)
    } else if pool.shutdown {
        StageStep::Refused(PoolError::ShutDown)
    } else if bytes > MAX_STAGED_BYTES {
        StageStep::Refused(PoolError::SnapshotTooLarge)
    } else if pool.staged + bytes > MAX_STAGED_BYTES {
        StageStep::Wait
    } else {
        StageStep::Granted
    }
}

/// Asks for room for a snapshot of `bytes` bytes.
pub fn stage(pool: &mut PoolState, bytes: u64, cancelled: bool) -> (step: StageStep)
    requires
        old(pool)@.wf(),
    ensures
        step == stage_step(old(pool)@, bytes, cancelled),
        final(pool)@ == if step == StageStep::Granted {
            PoolView { staged: (old(pool)@.staged + bytes) as u64, ..old(pool)@ }
        } else {
            old(pool)@
        },
        final(pool)@.wf(),
{
    if cancelled {
        return StageStep::Refused(PoolError::Cancelled);
    }
    if pool.shutdown {
        return StageStep::Refused(PoolError::ShutDown);
    }
    if bytes > MAX_STAGED_BYTES {
        return StageStep::Refused(PoolError::SnapshotTooLarge);
    }
    if bytes > MAX_STAGED_BYTES - pool.staged {
        return StageStep::Wait;
    }
    pool.staged = pool.staged + bytes;
    StageStep::Granted
}

/// Gives back the room of a snapshot.
pub fn unstage(pool: &mut PoolState, bytes: u64)
    requires
        old(pool)@.wf(),
    ensures
        final(pool)@ == (PoolView {
            staged: if bytes <= old(pool)@.staged {
                (old(pool)@.staged - bytes) as u64
            } else {
                0
            },
            ..old(pool)@
        }),
        final(pool)@.wf(),
{
    pool.staged = pool.staged.saturating_sub(bytes);
}

/// Whether a worker may use `bytes` of memory beside what the others use.
pub open spec fn memory_allowed(
    pool: PoolView,
    generation: WorkerGeneration,
    bytes: u64,
) -> bool {
    &&& bytes <= MAX_WORKER_RSS
    &&& total_memory(memory_without(pool.memory, generation)) + bytes <= MAX_TOTAL_RSS
}

/// Notes the memory that a worker's processes use; a worker that uses more than it may has
/// to be ended.
pub fn account_rss(pool: &mut PoolState, generation: WorkerGeneration, bytes: u64) -> (accounted:
    Result<(), PoolError>)
    requires
        old(pool)@.wf(),
    ensures
        accounted is Ok <==> memory_allowed(old(pool)@, generation, bytes),
        accounted matches Err(error) ==> error == PoolError::MemoryExceeded && final(pool)@
            == old(pool)@,
        accounted is Ok ==> final(pool)@ == (PoolView {
            memory: memory_without(old(pool)@.memory, generation).push((generation, bytes)),
            ..old(pool)@
        }),
        final(pool)@.wf(),
{
    if bytes > MAX_WORKER_RSS {
        return Err(PoolError::MemoryExceeded);
    }
    let mut others: u64 = 0;
    let mut index: usize = 0;
    let ghost all = pool@.memory;
    assert(memory_without(all.take(0), generation) =~= Seq::<(WorkerGeneration, u64)>::empty());
    while index < pool.memory.len()
        invariant
            index <= pool.memory.len(),
            pool@.wf(),
            pool.memory@ == all,
            pool@.memory == all,
            others == total_memory(memory_without(all.take(index as int), generation)),
        decreases pool.memory.len() - index,
    {
        let entry = pool.memory[index];
        proof {
            let kept = memory_without(all.take(index as int), generation);
            assert(all.take(index + 1).drop_last() =~= all.take(index as int));
            assert(kept.push(entry).drop_last() =~= kept);
            lemma_memory_without(all.take(index + 1), generation);
            lemma_memory_prefix(all, index + 1);
        }
        if entry.0 != generation {
            others = others + entry.1;
        }
        index = index + 1;
    }
    assert(all.take(index as int) =~= all);
    if others > MAX_TOTAL_RSS - bytes {
        return Err(PoolError::MemoryExceeded);
    }
    keep_memory(&mut pool.memory, generation);
    let ghost kept = pool@.memory;
    pool.memory.push((generation, bytes));
    assert(pool@.memory.drop_last() =~= kept);
    Ok(())
}

proof fn lemma_memory_prefix(all: Seq<(WorkerGeneration, u64)>, taken: int)
    requires
        0 <= taken <= all.len(),
    ensures
        0 <= total_memory(all.take(taken)) <= total_memory(all),
    decreases all.len(),
{
    if taken == all.len() {
        assert(all.take(taken) =~= all);
        if all.len() > 0 {
            lemma_memory_prefix(all.drop_last(), taken - 1);
            assert(all.drop_last().take(taken - 1) =~= all.drop_last());
        }
    } else {
        lemma_memory_prefix(all.drop_last(), taken);
        assert(all.drop_last().take(taken) =~= all.take(taken));
    }
}

/// A new generation differs from that of every worker that has a slot, as long as the
/// numbers last.
pub proof fn generations_are_fresh(pool: PoolView, generation: WorkerGeneration)
    requires
        pool.wf(),
        pool.next_generation < u64::MAX,
        generation.number() == pool.coming_generation(),
    ensures
        !pool.slots.contains(generation),
        generation.number() > pool.next_generation,
{
}

/// A slot stays taken while its worker is being ended, and is free once the worker's
/// process is gone.
pub proof fn slots_outlast_retirement(pool: PoolView, generation: WorkerGeneration)
    requires
        pool.wf(),
        pool.slots.contains(generation),
    ensures
        pool.retiring(generation).slots == pool.slots,
        !generations(pool.retiring(generation).idle).contains(generation),
        pool.retiring(generation).reaped(generation).slots.len() < pool.slots.len(),
        pool.next_generation < u64::MAX ==> pool.retiring(generation).reaped(
            generation,
        ).slots.len() == pool.slots.len() - 1,
        !pool.reaped(generation).slots.contains(generation),
{
    lemma_without(pool.slots, generation);
    lemma_idle_without(pool.idle, generation);
    if pool.next_generation < u64::MAX {
        lemma_without_distinct(pool.slots, generation);
    }
}

proof fn lemma_nothing_to_take_out(all: Seq<WorkerGeneration>, gone: WorkerGeneration)
    requires
        !all.contains(gone),
    ensures
        without(all, gone) == all,
    decreases all.len(),
{
    if all.len() > 0 {
        let rest = all.drop_last();
        assert(!rest.contains(gone)) by {
            if rest.contains(gone) {
                let i = rest.index_of(gone);
                assert(all[i] == gone);
            }
        }
        assert(all.last() != gone) by {
            assert(all[all.len() - 1] == all.last());
        }
        lemma_nothing_to_take_out(rest, gone);
        assert(all =~= rest.push(all.last()));
    } else {
        assert(without(all, gone) =~= all);
    }
}

/// A slot is freed once: hearing again of a worker that is gone frees nothing.
pub proof fn slots_are_freed_once(pool: PoolView, generation: WorkerGeneration)
    ensures
        pool.reaped(generation).reaped(generation).slots == pool.reaped(generation).slots,
{
    lemma_without(pool.slots, generation);
    lemma_nothing_to_take_out(without(pool.slots, generation), generation);
}

/// Once the workers that were idle for too long are taken out, none of those left has been.
pub proof fn retirement_leaves_none_expired(idle: Seq<IdleWorker>, now: u128)
    ensures
        expired(unexpired(idle, now), now).len() == 0,
        expired(idle, now).len() + unexpired(idle, now).len() == idle.len(),
    decreases idle.len(),
{
    if idle.len() > 0 {
        retirement_leaves_none_expired(idle.drop_last(), now);
        let kept = unexpired(idle.drop_last(), now);
        if !is_expired(idle.last(), now) {
            assert(kept.push(idle.last()).drop_last() =~= kept);
        }
    }
}

/// A pool that is shut down starts no worker, whatever happens to it afterwards.
pub proof fn shutdown_is_final(pool: PoolView, generation: WorkerGeneration, now: u128)
    requires
        pool.shutdown,
    ensures
        pool.reserve_error(now) == Some(PoolError::ShutDown),
        pool.retiring(generation).shutdown,
        pool.reaped(generation).shutdown,
        !can_check_in(pool, generation),
{
}

/// Taking a generation out keeps all the others, in order.
pub proof fn without_keeps_the_others(all: Seq<WorkerGeneration>, gone: WorkerGeneration)
    ensures
        without(all, gone) == all.filter(|g: WorkerGeneration| g != gone),
    decreases all.len(),
{
    reveal(Seq::filter);
    if all.len() > 0 {
        without_keeps_the_others(all.drop_last(), gone);
    }
}

/// Taking an idle worker out keeps all the others, in order.
pub proof fn idle_without_keeps_the_others(all: Seq<IdleWorker>, gone: WorkerGeneration)
    ensures
        idle_without(all, gone) == all.filter(|worker: IdleWorker| worker.generation != gone),
        forall|i: int|
            0 <= i < idle_without(all, gone).len() ==> (#[trigger] idle_without(
                all,
                gone,
            )[i]).generation != gone,
    decreases all.len(),
{
    reveal(Seq::filter);
    if all.len() > 0 {
        idle_without_keeps_the_others(all.drop_last(), gone);
    }
}

/// Taking the reports on one worker out keeps all the others, in order.
pub proof fn memory_without_keeps_the_others(
    all: Seq<(WorkerGeneration, u64)>,
    gone: WorkerGeneration,
)
    ensures
        memory_without(all, gone) == all.filter(|report: (WorkerGeneration, u64)| report.0 != gone),
    decreases all.len(),
{
    reveal(Seq::filter);
    if all.len() > 0 {
        memory_without_keeps_the_others(all.drop_last(), gone);
    }
}

/// Every report counts once, whatever their order and number.
pub proof fn memory_adds_up(all: Seq<(WorkerGeneration, u64)>)
    ensures
        total_memory(all) == all.fold_left(
            0int,
            |sum: int, report: (WorkerGeneration, u64)| sum + report.1,
        ),
    decreases all.len(),
{
    if all.len() > 0 {
        memory_adds_up(all.drop_last());
    }
}

/// Idle workers are split by whether thirty seconds have passed since they came in, each kept in
/// order.
pub proof fn expiry_splits_the_idle(idle: Seq<IdleWorker>, now: u128)
    ensures
        unexpired(idle, now) == idle.filter(
            |worker: IdleWorker| now < worker.since + 30_000_000_000,
        ),
        expired(idle, now) == idle.filter(
            |worker: IdleWorker| now >= worker.since + 30_000_000_000,
        ).map_values(|worker: IdleWorker| worker.generation),
    decreases idle.len(),
{
    reveal(Seq::filter);
    if idle.len() > 0 {
        expiry_splits_the_idle(idle.drop_last(), now);
        let kept = |worker: IdleWorker| now < worker.since + 30_000_000_000;
        let gone = |worker: IdleWorker| now >= worker.since + 30_000_000_000;
        let number = |worker: IdleWorker| worker.generation;
        if gone(idle.last()) {
            assert(idle.drop_last().filter(gone).push(idle.last()).map_values(number)
                =~= idle.drop_last().filter(gone).map_values(number).push(idle.last().generation));
        }
    }
}

/// Workers that were taken out together are all gone, and no other is.
pub proof fn without_all_keeps_the_others(
    all: Seq<WorkerGeneration>,
    gone: Seq<WorkerGeneration>,
    g: WorkerGeneration,
)
    ensures
        without_all(all, gone).contains(g) <==> all.contains(g) && !gone.contains(g),
    decreases gone.len(),
{
    if gone.len() > 0 {
        let rest = gone.drop_last();
        without_all_keeps_the_others(all, rest, g);
        lemma_without(without_all(all, rest), gone.last());
        if rest.contains(g) {
            let i = rest.index_of(g);
            assert(gone[i] == g);
        }
        if gone.contains(g) && g != gone.last() {
            let i = gone.index_of(g);
            assert(rest[i] == g);
        }
        if g == gone.last() {
            assert(gone[gone.len() - 1] == g);
        }
    }
}

/// A worker can be started exactly if the pool is not shut down, does not back off, and has
/// fewer than four; what stands in the way is named.
pub proof fn when_workers_can_start(pool: PoolView, now: u128)
    ensures
        pool.reserve_error(now) is None <==> !pool.shutdown && pool.slots.len() < 4 && (
        pool.backoff is None || now >= pool.backoff->0),
        pool.reserve_error(now) == Some(PoolError::ShutDown) <==> pool.shutdown,
        pool.reserve_error(now) == Some(PoolError::BackedOff) <==> !pool.shutdown
            && pool.backoff is Some && now < pool.backoff->0,
        pool.reserve_error(now) is Some ==> pool.reserve_error(now) == Some(PoolError::ShutDown)
            || pool.reserve_error(now) == Some(PoolError::BackedOff) || pool.reserve_error(now)
            == Some(PoolError::NoCapacity),
{
}

/// A slot that is taken is the only new one, and its number the only one used up.
pub proof fn reserving_takes_one_slot(pool: PoolView, generation: WorkerGeneration)
    requires
        pool.next_generation < u64::MAX,
    ensures
        pool.coming_generation() == pool.next_generation + 1,
        pool.reserved(generation).slots == pool.slots.push(generation),
        pool.reserved(generation).next_generation == pool.next_generation + 1,
        pool.reserved(generation).idle == pool.idle,
        pool.reserved(generation).workers == pool.workers,
        pool.reserved(generation).backoff == pool.backoff,
        pool.reserved(generation).shutdown == pool.shutdown,
        pool.reserved(generation).staged == pool.staged,
        pool.reserved(generation).memory == pool.memory,
{
}

/// Ending a worker touches that worker alone: the others stay idle, registered, slotted and
/// accounted for, in order, and nothing else changes.
pub proof fn ending_a_worker_touches_no_other(pool: PoolView, gone: WorkerGeneration)
    ensures
        pool.retiring(gone).idle == pool.idle.filter(
            |worker: IdleWorker| worker.generation != gone,
        ),
        pool.retiring(gone).workers == pool.workers.filter(|g: WorkerGeneration| g != gone),
        pool.retiring(gone).slots == pool.slots,
        pool.retiring(gone).memory == pool.memory,
        pool.retiring(gone).backoff == pool.backoff,
        pool.retiring(gone).next_generation == pool.next_generation,
        pool.retiring(gone).shutdown == pool.shutdown,
        pool.retiring(gone).staged == pool.staged,
        pool.reaped(gone).idle == pool.retiring(gone).idle,
        pool.reaped(gone).workers == pool.retiring(gone).workers,
        pool.reaped(gone).slots == pool.slots.filter(|g: WorkerGeneration| g != gone),
        pool.reaped(gone).memory == pool.memory.filter(
            |report: (WorkerGeneration, u64)| report.0 != gone,
        ),
        pool.reaped(gone).backoff == pool.backoff,
        pool.reaped(gone).next_generation == pool.next_generation,
        pool.reaped(gone).shutdown == pool.shutdown,
        pool.reaped(gone).staged == pool.staged,
{
    idle_without_keeps_the_others(pool.idle, gone);
    without_keeps_the_others(pool.workers, gone);
    without_keeps_the_others(pool.slots, gone);
    memory_without_keeps_the_others(pool.memory, gone);
}

/// A worker can come back exactly if the pool is not shut down, knows it, and does not have it
/// among the idle ones.
pub proof fn when_workers_can_come_back(pool: PoolView, generation: WorkerGeneration)
    ensures
        can_check_in(pool, generation) <==> !pool.shutdown && pool.workers.contains(generation)
            && forall|i: int|
            0 <= i < pool.idle.len() ==> (#[trigger] pool.idle[i]).generation != generation,
{
    let listed = generations(pool.idle);
    if listed.contains(generation) {
        let i = listed.index_of(generation);
        assert(pool.idle[i].generation == generation);
    } else {
        assert forall|i: int| 0 <= i < pool.idle.len() implies (
        #[trigger] pool.idle[i]).generation != generation by {
            assert(listed[i] == pool.idle[i].generation);
        }
    }
}

/// Snapshots never take more than 512 MiB together: room is given exactly if it is there, asked
/// for again if it will be, and refused if it cannot be or nobody wants it.
pub proof fn when_snapshots_are_staged(pool: PoolView, bytes: u64, cancelled: bool)
    requires
        pool.wf(),
    ensures
        pool.staged <= 536_870_912,
        stage_step(pool, bytes, cancelled) == StageStep::Granted <==> !cancelled && !pool.shutdown
            && pool.staged + bytes <= 536_870_912,
        stage_step(pool, bytes, cancelled) == StageStep::Wait <==> !cancelled && !pool.shutdown
            && bytes <= 536_870_912 && pool.staged + bytes > 536_870_912,
        cancelled ==> stage_step(pool, bytes, cancelled) == StageStep::Refused(
            PoolError::Cancelled,
        ),
        !cancelled && pool.shutdown ==> stage_step(pool, bytes, cancelled) == StageStep::Refused(
            PoolError::ShutDown,
        ),
        !cancelled && !pool.shutdown && bytes > 536_870_912 ==> stage_step(pool, bytes, cancelled)
            == StageStep::Refused(PoolError::SnapshotTooLarge),
{
}

/// A worker may use up to 512 MiB, and all together up to 1 GiB, counting what the others last
/// used and what this one uses now.
pub proof fn when_memory_is_allowed(pool: PoolView, generation: WorkerGeneration, bytes: u64)
    ensures
        memory_allowed(pool, generation, bytes) <==> bytes <= 536_870_912 && pool.memory.filter(
            |report: (WorkerGeneration, u64)| report.0 != generation,
        ).fold_left(0int, |sum: int, report: (WorkerGeneration, u64)| sum + report.1) + bytes
            <= 1_073_741_824,
{
    memory_without_keeps_the_others(pool.memory, generation);
    memory_adds_up(memory_without(pool.memory, generation));
}

/// The generations of idle workers are theirs, one for one.
pub proof fn idle_workers_keep_their_generation(idle: Seq<IdleWorker>, i: int)
    ensures
        generations(idle).len() == idle.len(),
        0 <= i < idle.len() ==> generations(idle)[i] == idle[i].generation,
{
}

/// The limits of the pool.
pub proof fn pool_limits()
    ensures
        MAX_PERSISTENT_THUMBNAIL_WORKERS == 4,
        SPAWN_BACKOFF == 500_000_000,
        IDLE_TIMEOUT == 30_000_000_000,
        MAX_STAGED_BYTES == 536_870_912,
        MAX_WORKER_RSS == 536_870_912,
        MAX_TOTAL_RSS == 1_073_741_824,
{
}

} // verus!
