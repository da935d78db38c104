//! Bounded-concurrency admission of fetches.
//!
//! The scheduler owns no fetch. It decides which queued item may start, and
//! accounts for the items that have completed. The caller starts the fetch of
//! an admitted item and reports its completion, whatever the outcome was.

use vstd::prelude::*;
use vstd::set_lib::{lemma_int_range, lemma_len_subset, lemma_subset_equality, set_int_range};

verus! {

/// Number of fetches in flight at once that serves well in practice: past a
/// few, the bandwidth of the link is the limit, not the number of requests.
pub const N_WORKERS: usize = 4;

/// The scheduler as a mathematical state.
///
/// Items are numbered by their place in the queue. The items before
/// `admitted` have been started; those in `finished` have completed.
pub struct Pool {
    /// Largest number of fetches that may be in flight at once.
    pub limit: nat,
    /// Number of items in the queue.
    pub total: nat,
    /// Number of items started so far; the next to start has this number.
    pub admitted: nat,
    /// The items whose fetch has completed.
    pub finished: Set<int>,
}

/// What can happen to a pool.
pub enum PoolEvent {
    /// The next queued item starts.
    Admit,
    /// The fetch of the item with this number completes.
    Complete(int),
}

impl Pool {
    /// The pool before anything has started.
    pub open spec fn init(total: nat, limit: nat) -> Pool {
        Pool { limit, total, admitted: 0, finished: Set::empty() }
    }

    /// The states that a pool can be in.
    pub open spec fn wf(self) -> bool {
        &&& self.admitted <= self.total
        &&& self.finished.finite()
        &&& self.finished.subset_of(set_int_range(0, self.admitted as int))
        &&& self.finished.len() <= self.admitted
        &&& self.admitted - self.finished.len() <= self.limit
    }

    /// Number of fetches that have started and not completed.
    pub open spec fn in_flight(self) -> nat {
        (self.admitted - self.finished.len()) as nat
    }

    /// Whether the fetch of item `index` has started and not completed.
    pub open spec fn is_in_flight(self, index: int) -> bool {
        0 <= index < self.admitted && !self.finished.contains(index)
    }

    /// Whether the next queued item may start: there is one, and a slot is
    /// free.
    pub open spec fn can_admit(self) -> bool {
        self.admitted < self.total && self.in_flight() < self.limit
    }

    /// Whether every item of the queue has completed.
    pub open spec fn done(self) -> bool {
        self.finished.len() == self.total
    }

    /// Whether `event` can happen in this state.
    pub open spec fn enabled(self, event: PoolEvent) -> bool {
        match event {
            PoolEvent::Admit => self.can_admit(),
            PoolEvent::Complete(index) => self.is_in_flight(index),
        }
    }

    /// The state after `event`.
    pub open spec fn apply(self, event: PoolEvent) -> Pool {
        match event {
            PoolEvent::Admit => Pool { admitted: self.admitted + 1, ..self },
            PoolEvent::Complete(index) => Pool { finished: self.finished.insert(index), ..self },
        }
    }

    /// The state after a sequence of events.
    pub open spec fn after(self, events: Seq<PoolEvent>) -> Pool
        decreases events.len(),
    {
        if events.len() == 0 {
            self
        } else {
            self.after(events.drop_last()).apply(events.last())
        }
    }

    /// Whether each event of the sequence can happen in the state that the
    /// events before it lead to.
    pub open spec fn admits(self, events: Seq<PoolEvent>) -> bool
        decreases events.len(),
    {
        events.len() == 0 || (self.admits(events.drop_last()) && self.after(events.drop_last()).enabled(
            events.last(),
        ))
    }
}

/// Number of completions among `events`.
pub open spec fn completions(events: Seq<PoolEvent>) -> nat
    decreases events.len(),
{
    if events.len() == 0 {
        0
    } else {
        completions(events.drop_last()) + (if events.last() is Complete {
            1nat
        } else {
            0nat
        })
    }
}

/// Number of admissions among `events`.
pub open spec fn admissions(events: Seq<PoolEvent>) -> nat
    decreases events.len(),
{
    if events.len() == 0 {
        0
    } else {
        admissions(events.drop_last()) + (if events.last() is Admit {
            1nat
        } else {
            0nat
        })
    }
}

/// In a well-formed pool an item in flight leaves room for one more
/// completion.
proof fn lemma_finished_bounded(pool: Pool)
    requires
        pool.wf(),
    ensures
        forall|index: int| pool.is_in_flight(index) ==> pool.finished.len() < pool.admitted,
{
    let started = set_int_range(0, pool.admitted as int);
    lemma_int_range(0, pool.admitted as int);
    assert forall|index: int| pool.is_in_flight(index) implies pool.finished.len() < pool.admitted by {
        let more = pool.finished.insert(index);
        assert(more.subset_of(started));
        lemma_len_subset(more, started);
    }
}

/// An event that can happen leads from a well-formed pool to a well-formed
/// pool.
pub proof fn lemma_event_keeps_wf(pool: Pool, event: PoolEvent)
    requires
        pool.wf(),
        pool.enabled(event),
    ensures
        pool.apply(event).wf(),
        pool.apply(event).in_flight() <= pool.limit,
{
    lemma_finished_bounded(pool);
    match event {
        PoolEvent::Admit => {
            assert(pool.finished.subset_of(set_int_range(0, pool.admitted as int + 1)));
        },
        PoolEvent::Complete(index) => {
            assert(pool.finished.insert(index).subset_of(set_int_range(0, pool.admitted as int)));
        },
    }
}

/// At most `limit` fetches are in flight, whatever has happened: after any
/// sequence of events that the pool admits, for any limit and any queue.
pub proof fn lemma_in_flight_bounded(total: nat, limit: nat, events: Seq<PoolEvent>)
    requires
        Pool::init(total, limit).admits(events),
    ensures
        Pool::init(total, limit).after(events).wf(),
        Pool::init(total, limit).after(events).in_flight() <= limit,
        Pool::init(total, limit).after(events).limit == limit,
        Pool::init(total, limit).after(events).total == total,
    decreases events.len(),
{
    let start = Pool::init(total, limit);
    if events.len() == 0 {
        assert(start.finished.subset_of(set_int_range(0, 0)));
    } else {
        lemma_in_flight_bounded(total, limit, events.drop_last());
        lemma_event_keeps_wf(start.after(events.drop_last()), events.last());
    }
}

/// The pool is done exactly when as many completions have happened as the
/// queue has items, and never sees more: each item completes once, and the
/// count does not depend on how a fetch ended. No more items start than the
/// queue holds.
pub proof fn lemma_done_after_all_complete(total: nat, limit: nat, events: Seq<PoolEvent>)
    requires
        Pool::init(total, limit).admits(events),
    ensures
        Pool::init(total, limit).after(events).finished.len() == completions(events),
        Pool::init(total, limit).after(events).admitted == admissions(events),
        completions(events) <= admissions(events) <= total,
        Pool::init(total, limit).after(events).done() <==> completions(events) == total,
    decreases events.len(),
{
    lemma_in_flight_bounded(total, limit, events);
    if events.len() > 0 {
        lemma_done_after_all_complete(total, limit, events.drop_last());
        lemma_in_flight_bounded(total, limit, events.drop_last());
    }
}

/// When the pool is done, every item of the queue has completed.
pub proof fn lemma_done_covers_queue(pool: Pool, index: int)
    requires
        pool.wf(),
        pool.done(),
        0 <= index < pool.total,
    ensures
        pool.admitted == pool.total,
        pool.finished.contains(index),
        pool.in_flight() == 0,
{
    lemma_int_range(0, pool.admitted as int);
    lemma_subset_equality(pool.finished, set_int_range(0, pool.admitted as int));
}

/// Admission is greedy: as soon as a fetch completes while items are still
/// queued, the next of them can start.
pub proof fn lemma_completion_frees_slot(pool: Pool, index: int)
    requires
        pool.wf(),
        pool.is_in_flight(index),
        pool.admitted < pool.total,
    ensures
        pool.apply(PoolEvent::Complete(index)).can_admit(),
{
    lemma_finished_bounded(pool);
}

/// With room for at least one fetch, a pool that is not done can go on:
/// either the next item can start, or a fetch is in flight and will complete.
pub proof fn lemma_never_stuck(pool: Pool)
    requires
        pool.wf(),
        pool.limit >= 1,
        !pool.done(),
    ensures
        pool.can_admit() || exists|index: int| pool.is_in_flight(index),
{
    if !pool.can_admit() {
        // Every slot is taken, or the queue has run out with items not yet
        // completed: either way fewer items have completed than have started.
        let started = set_int_range(0, pool.admitted as int);
        lemma_int_range(0, pool.admitted as int);
        if forall|index: int| 0 <= index < pool.admitted ==> pool.finished.contains(index) {
            assert(started.subset_of(pool.finished));
            lemma_len_subset(started, pool.finished);
        }
        let index = choose|index: int| 0 <= index < pool.admitted && !pool.finished.contains(index);
        assert(pool.is_in_flight(index));
    }
}

/// Admission control for the fetches of one run.
pub struct DownloadScheduler {
    limit: usize,
    total: usize,
    admitted: usize,
    completed: usize,
    finished: Vec<bool>,
}

impl View for DownloadScheduler {
    type V = Pool;

    closed spec fn view(&self) -> Pool {
        Pool {
            limit: self.limit as nat,
            total: self.total as nat,
            admitted: self.admitted as nat,
            finished: Set::new(|index: int| 0 <= index < self.finished.len() && self.finished[index]),
        }
    }
}

impl DownloadScheduler {
    /// The states that a scheduler can be in. Every constructor gives one, and
    /// every method keeps it.
    pub closed spec fn wf(&self) -> bool {
        &&& self.finished.len() == self.total
        &&& self.completed == self@.finished.len()
        &&& self@.wf()
    }

    /// A scheduler in one of its states shows a pool in one of its states:
    /// what is proved of well-formed pools holds of it.
    pub proof fn lemma_view_wf(&self)
        requires
            self.wf(),
        ensures
            self@.wf(),
            self@.in_flight() <= self@.limit,
    {
    }

    /// A scheduler for a queue of `total` items, of which at most `limit` are
    /// fetched at once. Nothing has started.
    pub fn new(total: usize, limit: usize) -> (scheduler: DownloadScheduler)
        ensures
            scheduler.wf(),
            scheduler@ == Pool::init(total as nat, limit as nat),
    {
        let mut finished: Vec<bool> = Vec::new();
        let mut i: usize = 0;
        while i < total
            invariant
                i <= total,
                finished.len() == i,
                forall|j: int| 0 <= j < i ==> !finished[j],
            decreases total - i,
        {
            finished.push(false);
            i += 1;
        }
        let scheduler = DownloadScheduler { limit, total, admitted: 0, completed: 0, finished };
        assert(scheduler@.finished =~= Set::<int>::empty());
        scheduler
    }

    /// Admits the next queued item if there is one and a slot is free, and
    /// returns its number; else changes nothing.
    pub fn start_next(&mut self) -> (next: Option<usize>)
        requires
            old(self).wf(),
        ensures
            final(self).wf(),
            old(self)@.can_admit() ==> {
                &&& next matches Some(index)
                &&& index == old(self)@.admitted
                &&& final(self)@ == old(self)@.apply(PoolEvent::Admit)
            },
            !old(self)@.can_admit() ==> next.is_none() && final(self)@ == old(self)@,
    {
        proof {
            lemma_finished_bounded(self@);
        }
        if self.admitted < self.total && self.admitted - self.completed < self.limit {
            let index = self.admitted;
            proof {
                lemma_event_keeps_wf(self@, PoolEvent::Admit);
            }
            self.admitted = self.admitted + 1;
            assert(self@ == old(self)@.apply(PoolEvent::Admit));
            Some(index)
        } else {
            None
        }
    }

    /// Records that the fetch of item `index` has completed, however it
    /// ended. Accepted once for each item in flight; refused, with nothing
    /// changed, for an item that has not started or has completed before.
    pub fn complete(&mut self, index: usize) -> (accepted: bool)
        requires
            old(self).wf(),
        ensures
            final(self).wf(),
            accepted == old(self)@.is_in_flight(index as int),
            accepted ==> final(self)@ == old(self)@.apply(PoolEvent::Complete(index as int)),
            !accepted ==> final(self)@ == old(self)@,
    {
        proof {
            lemma_finished_bounded(self@);
        }
        if index < self.admitted && !self.finished[index] {
            proof {
                assert(self@.is_in_flight(index as int));
                lemma_event_keeps_wf(self@, PoolEvent::Complete(index as int));
            }
            self.finished[index] = true;
            self.completed = self.completed + 1;
            assert(self@.finished =~= old(self)@.finished.insert(index as int));
            true
        } else {
            false
        }
    }

    /// Whether every item of the queue has completed.
    pub fn is_done(&self) -> (done: bool)
        requires
            self.wf(),
        ensures
            done == self@.done(),
    {
        self.completed == self.total
    }

    /// Whether the fetch of item `index` has started and not completed.
    pub fn is_in_flight(&self, index: usize) -> (flying: bool)
        requires
            self.wf(),
        ensures
            flying == self@.is_in_flight(index as int),
    {
        index < self.admitted && !self.finished[index]
    }

    /// Number of fetches that have started and not completed.
    pub fn in_flight(&self) -> (count: usize)
        requires
            self.wf(),
        ensures
            count == self@.in_flight(),
            count <= self@.limit,
    {
        proof {
            lemma_finished_bounded(self@);
        }
        self.admitted - self.completed
    }

    /// Largest number of fetches that may be in flight at once.
    pub fn limit(&self) -> (limit: usize)
        ensures
            limit == self@.limit,
    {
        self.limit
    }

    /// Number of items in the queue.
    pub fn total(&self) -> (total: usize)
        ensures
            total == self@.total,
    {
        self.total
    }

    /// Number of items started so far.
    pub fn admitted(&self) -> (admitted: usize)
        ensures
            admitted == self@.admitted,
    {
        self.admitted
    }

    /// Number of items whose fetch has completed.
    pub fn completed(&self) -> (completed: usize)
        requires
            self.wf(),
        ensures
            completed == self@.finished.len(),
    {
        self.completed
    }
}

} // verus!
