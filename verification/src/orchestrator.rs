//! One synchronisation run: fetch the planned books, write each as it
//! arrives, skip what cannot be fetched, stop at the first failed write.
//!
//! The orchestrator makes the decisions and performs none of the work. The
//! caller starts the fetches that it admits, hands each result back as it
//! arrives, writes what it is told to write, and reports how the write went.

use crate::api::{Book, FetchError};
use crate::scheduler::{
    lemma_done_covers_queue, lemma_event_keeps_wf, lemma_never_stuck, DownloadScheduler, Pool, PoolEvent,
};
use vstd::prelude::*;

verus! {

/// Where one planned book stands.
///
/// A book moves `Pending → Fetching`, then to `FetchFailed` or, its content
/// fetched, to `Persisting`, and from there to `Persisted` or `PersistFailed`.
/// There is no state of its own for a book that is fetched and not yet being
/// written: `Orchestrator::deliver` hands the content out for writing in the
/// same step in which it takes it, so a fetched book is `Persisting` at once.
#[derive(Debug, Clone, Copy, PartialEq, Eq, Structural)]
pub enum ItemState {
    /// Planned; its fetch has not started.
    Pending,
    /// Its fetch is in flight.
    Fetching,
    /// Its fetch failed; the book is skipped. Final.
    FetchFailed,
    /// Fetched; its content has been handed out for writing.
    Persisting,
    /// Written to the destination. Final.
    Persisted,
    /// Its write failed, which ended the run. Final.
    PersistFailed,
}

impl ItemState {
    /// Whether a book in this state may be in state `next` after one step of
    /// the run.
    pub open spec fn may_become(self, next: ItemState) -> bool {
        match self {
            ItemState::Pending => next is Fetching,
            ItemState::Fetching => next is FetchFailed || next is Persisting,
            ItemState::Persisting => next is Persisted || next is PersistFailed,
            _ => false,
        }
    }

    /// Whether nothing more happens to a book in this state.
    pub open spec fn is_final(self) -> bool {
        self is FetchFailed || self is Persisted || self is PersistFailed
    }
}

/// What can happen in a run.
pub enum RunEvent {
    /// The fetch of the next pending book starts.
    Start,
    /// The fetch of the book with this number delivers its content.
    Fetched(int),
    /// The fetch of the book with this number fails.
    FetchFailed(int),
    /// The write in progress succeeds.
    Written,
    /// The write in progress fails.
    WriteFailed,
}

/// Why the orchestrator did not accept what it was handed.
#[derive(Debug, Clone, Copy, PartialEq, Eq, Structural)]
pub enum Refusal {
    /// The run has ended with a failed write.
    Aborted,
    /// The plan has no book of that number.
    UnknownItem,
    /// No fetch of that book is in flight: it has not started, or its result
    /// was delivered before.
    NotFetching,
    /// A write is in progress; its outcome has to be reported first.
    WriterBusy,
    /// No write is in progress.
    NotWriting,
}

/// A run as a mathematical state.
pub struct RunView {
    /// The planned books, in plan order; a book's number is its place here.
    pub books: Seq<Book>,
    /// Which fetches have started and completed.
    pub pool: Pool,
    /// Where each book stands.
    pub states: Seq<ItemState>,
    /// The book that is being written, if any.
    pub writing: Option<int>,
    /// Whether a write has failed.
    pub aborted: bool,
}

impl RunView {
    /// The run before anything has started.
    pub open spec fn init(books: Seq<Book>, workers: nat) -> RunView {
        RunView {
            books,
            pool: Pool::init(books.len(), workers),
            states: Seq::new(books.len(), |i: int| ItemState::Pending),
            writing: None,
            aborted: false,
        }
    }

    /// The states that a run can be in.
    pub open spec fn wf(self) -> bool {
        &&& self.pool.wf()
        &&& self.pool.total == self.books.len()
        &&& self.states.len() == self.books.len()
        &&& forall|i: int|
            0 <= i < self.states.len() ==> {
                &&& (#[trigger] self.states[i]) is Pending <==> i >= self.pool.admitted
                &&& self.states[i] is Fetching <==> self.pool.is_in_flight(i)
                &&& self.states[i] is Persisting <==> self.writing == Some(i)
            }
        &&& self.writing matches Some(w) ==> 0 <= w < self.states.len()
        &&& self.aborted <==> exists|i: int| 0 <= i < self.states.len() && (#[trigger] self.states[i]) is PersistFailed
    }

    /// Why the result of the fetch of book `index` cannot be taken now, if
    /// it cannot.
    pub open spec fn delivery_refusal(self, index: int) -> Option<Refusal> {
        if self.aborted {
            Some(Refusal::Aborted)
        } else if !(0 <= index < self.states.len()) {
            Some(Refusal::UnknownItem)
        } else if !(self.states[index] is Fetching) {
            Some(Refusal::NotFetching)
        } else if self.writing is Some {
            Some(Refusal::WriterBusy)
        } else {
            None
        }
    }

    /// Why the outcome of a write cannot be taken now, if it cannot.
    pub open spec fn report_refusal(self) -> Option<Refusal> {
        if self.aborted {
            Some(Refusal::Aborted)
        } else if self.writing is None {
            Some(Refusal::NotWriting)
        } else {
            None
        }
    }

    /// Whether `event` can happen in this state.
    pub open spec fn enabled(self, event: RunEvent) -> bool {
        match event {
            RunEvent::Start => !self.aborted && self.pool.can_admit(),
            RunEvent::Fetched(index) => self.delivery_refusal(index) is None,
            RunEvent::FetchFailed(index) => self.delivery_refusal(index) is None,
            RunEvent::Written => self.report_refusal() is None,
            RunEvent::WriteFailed => self.report_refusal() is None,
        }
    }

    /// The state after `event`.
    pub open spec fn step(self, event: RunEvent) -> RunView {
        match event {
            RunEvent::Start => RunView {
                pool: self.pool.apply(PoolEvent::Admit),
                states: self.states.update(self.pool.admitted as int, ItemState::Fetching),
                ..self
            },
            RunEvent::Fetched(index) => RunView {
                pool: self.pool.apply(PoolEvent::Complete(index)),
                states: self.states.update(index, ItemState::Persisting),
                writing: Some(index),
                ..self
            },
            RunEvent::FetchFailed(index) => RunView {
                pool: self.pool.apply(PoolEvent::Complete(index)),
                states: self.states.update(index, ItemState::FetchFailed),
                ..self
            },
            RunEvent::Written => RunView {
                states: self.states.update(self.writing.unwrap(), ItemState::Persisted),
                writing: None,
                ..self
            },
            RunEvent::WriteFailed => RunView {
                states: self.states.update(self.writing.unwrap(), ItemState::PersistFailed),
                writing: None,
                aborted: true,
                ..self
            },
        }
    }

    /// Whether the run is over: a write has failed, or every fetch has
    /// completed and no write is in progress.
    pub open spec fn finished(self) -> bool {
        self.aborted || (self.pool.done() && self.writing is None)
    }

    /// The state after a sequence of events.
    pub open spec fn after(self, events: Seq<RunEvent>) -> RunView
        decreases events.len(),
    {
        if events.len() == 0 {
            self
        } else {
            self.after(events.drop_last()).step(events.last())
        }
    }

    /// Whether each event of the sequence can happen in the state that the
    /// events before it lead to.
    pub open spec fn admits(self, events: Seq<RunEvent>) -> bool
        decreases events.len(),
    {
        events.len() == 0 || (self.admits(events.drop_last()) && self.after(events.drop_last()).enabled(
            events.last(),
        ))
    }
}

/// Number of fetches started among `events`.
pub open spec fn starts(events: Seq<RunEvent>) -> nat
    decreases events.len(),
{
    if events.len() == 0 {
        0
    } else {
        starts(events.drop_last()) + (if events.last() is Start {
            1nat
        } else {
            0nat
        })
    }
}

/// Number of results delivered among `events`, content and failures alike.
pub open spec fn deliveries(events: Seq<RunEvent>) -> nat
    decreases events.len(),
{
    if events.len() == 0 {
        0
    } else {
        deliveries(events.drop_last()) + (if events.last() is Fetched || events.last() is FetchFailed {
            1nat
        } else {
            0nat
        })
    }
}

/// An event that can happen leads from a well-formed run to a well-formed
/// run, over the same plan and with the same limit.
pub proof fn lemma_step_keeps_wf(run: RunView, event: RunEvent)
    requires
        run.wf(),
        run.enabled(event),
    ensures
        run.step(event).wf(),
        run.step(event).books == run.books,
        run.step(event).pool.limit == run.pool.limit,
        run.step(event).pool.in_flight() <= run.pool.limit,
{
    let next = run.step(event);
    match event {
        RunEvent::Start => {
            lemma_event_keeps_wf(run.pool, PoolEvent::Admit);
        },
        RunEvent::Fetched(index) => {
            lemma_event_keeps_wf(run.pool, PoolEvent::Complete(index));
        },
        RunEvent::FetchFailed(index) => {
            lemma_event_keeps_wf(run.pool, PoolEvent::Complete(index));
        },
        RunEvent::Written => {},
        RunEvent::WriteFailed => {
            assert(next.states[run.writing.unwrap()] is PersistFailed);
        },
    }
    if !(event is WriteFailed) {
        // No other event brings a book to a failed write, or away from one.
        assert forall|i: int| 0 <= i < next.states.len() implies ((#[trigger] next.states[i]) is PersistFailed
            <==> run.states[i] is PersistFailed) by {}
    }
}

/// Whatever has happened in a run, its state is well-formed: at most
/// `workers` fetches are in flight, no more fetches have started than books
/// are planned, and every fetch that completed delivered one result. All
/// fetches have completed exactly when as many results have been delivered
/// as books are planned, whether they brought content or failed.
pub proof fn lemma_run_invariants(books: Seq<Book>, workers: nat, events: Seq<RunEvent>)
    requires
        RunView::init(books, workers).admits(events),
    ensures
        RunView::init(books, workers).after(events).wf(),
        RunView::init(books, workers).after(events).books == books,
        RunView::init(books, workers).after(events).pool.limit == workers,
        RunView::init(books, workers).after(events).pool.in_flight() <= workers,
        RunView::init(books, workers).after(events).pool.admitted == starts(events),
        RunView::init(books, workers).after(events).pool.finished.len() == deliveries(events),
        deliveries(events) <= starts(events) <= books.len(),
        RunView::init(books, workers).after(events).pool.done() <==> deliveries(events) == books.len(),
    decreases events.len(),
{
    let start = RunView::init(books, workers);
    if events.len() == 0 {
        assert(start.pool.finished.subset_of(vstd::set_lib::set_int_range(0, 0)));
    } else {
        let before = start.after(events.drop_last());
        lemma_run_invariants(books, workers, events.drop_last());
        lemma_step_keeps_wf(before, events.last());
    }
}

/// With room for at least one fetch, a run that is not over can go on: a
/// write in progress can be reported, or the next fetch can start, or the
/// result of a fetch in flight can be delivered.
pub proof fn lemma_run_never_stuck(run: RunView)
    requires
        run.wf(),
        run.pool.limit >= 1,
        !run.finished(),
    ensures
        run.enabled(RunEvent::Written) || run.enabled(RunEvent::Start) || exists|index: int|
            run.enabled(RunEvent::Fetched(index)) && run.enabled(RunEvent::FetchFailed(index)),
{
    if run.writing is None && !run.pool.can_admit() {
        lemma_never_stuck(run.pool);
        let index = choose|index: int| run.pool.is_in_flight(index);
        assert(run.states[index] is Fetching);
        assert(run.enabled(RunEvent::Fetched(index)));
    }
}

/// One step moves at most one book, and moves it along the arrows of its
/// state machine; a book in a final state stays there.
pub proof fn lemma_step_follows_machine(run: RunView, event: RunEvent, i: int)
    requires
        run.wf(),
        run.enabled(event),
        0 <= i < run.states.len(),
    ensures
        run.step(event).states[i] == run.states[i] || run.states[i].may_become(run.step(event).states[i]),
        run.states[i].is_final() ==> run.step(event).states[i] == run.states[i],
        forall|j: int|
            0 <= j < run.states.len() && j != i && run.step(event).states[i] != run.states[i] ==> run.step(
                event,
            ).states[j] == run.states[j],
{
}

/// Results are taken in the order in which they arrive, whatever the order
/// in which the fetches started: while the run goes on and no write is in
/// progress, the result of any fetch in flight can be delivered next.
pub proof fn lemma_any_fetch_may_finish_first(run: RunView, index: int)
    requires
        run.wf(),
        !run.aborted,
        run.writing is None,
        run.pool.is_in_flight(index),
    ensures
        run.enabled(RunEvent::Fetched(index)),
        run.enabled(RunEvent::FetchFailed(index)),
{
    assert(run.states[index] is Fetching);
}

/// At most one write is in progress: two books that are being written are
/// the same book.
pub proof fn lemma_one_writer(run: RunView, i: int, j: int)
    requires
        run.wf(),
        0 <= i < run.states.len(),
        0 <= j < run.states.len(),
        run.states[i] is Persisting,
        run.states[j] is Persisting,
    ensures
        i == j,
        run.writing == Some(i),
        !run.enabled(RunEvent::Fetched(i)),
        forall|k: int| !run.enabled(RunEvent::Fetched(k)),
{
}

/// A failed fetch touches its own book only: every other book stays where it
/// was, the fetches in flight stay in flight, and the run is not ended by it.
pub proof fn lemma_fetch_failure_is_local(run: RunView, index: int, other: int)
    requires
        run.wf(),
        run.enabled(RunEvent::FetchFailed(index)),
        0 <= other < run.states.len(),
        other != index,
    ensures
        run.step(RunEvent::FetchFailed(index)).states[other] == run.states[other],
        run.step(RunEvent::FetchFailed(index)).pool.is_in_flight(other) == run.pool.is_in_flight(other),
        run.step(RunEvent::FetchFailed(index)).aborted == run.aborted,
        run.step(RunEvent::FetchFailed(index)).writing == run.writing,
        run.step(RunEvent::FetchFailed(index)).states[index] is FetchFailed,
{
}

/// A failed write ends the run at once: nothing can happen afterwards, so no
/// pending book is started, and the books that were pending stay pending.
pub proof fn lemma_write_failure_ends_run(run: RunView, event: RunEvent)
    requires
        run.wf(),
        run.enabled(RunEvent::WriteFailed),
    ensures
        run.step(RunEvent::WriteFailed).finished(),
        !run.step(RunEvent::WriteFailed).enabled(event),
        forall|i: int|
            0 <= i < run.states.len() && run.states[i] is Pending ==> run.step(RunEvent::WriteFailed).states[i]
                is Pending,
{
}

/// When a run is over without a failed write, every planned book has reached
/// a final state: it was written, or its fetch failed and it was skipped.
pub proof fn lemma_finished_run_is_complete(run: RunView, i: int)
    requires
        run.wf(),
        run.finished(),
        !run.aborted,
        0 <= i < run.states.len(),
    ensures
        run.states[i] is Persisted || run.states[i] is FetchFailed,
{
    lemma_done_covers_queue(run.pool, i);
}

/// A run over an empty plan is over from the beginning, and no fetch ever
/// starts in it.
pub proof fn lemma_empty_plan_fetches_nothing(workers: nat, events: Seq<RunEvent>)
    requires
        RunView::init(Seq::<Book>::empty(), workers).admits(events),
    ensures
        RunView::init(Seq::<Book>::empty(), workers).finished(),
        !RunView::init(Seq::<Book>::empty(), workers).enabled(RunEvent::Start),
        starts(events) == 0,
{
    lemma_run_invariants(Seq::<Book>::empty(), workers, events);
}

/// What one fetch brought: the number of the book in the plan, and its
/// content or the reason why there is none. One is due for every book whose
/// fetch was started.
pub struct DownloadResult {
    /// Number of the book in the plan.
    pub index: usize,
    /// The content of the book, or the error that the fetch ended with.
    pub outcome: Result<bytes::Bytes, FetchError>,
}

/// What the caller is to do with a delivered result.
#[derive(Debug)]
pub enum Step {
    /// Write `content` to the file `name` of the destination, replacing what
    /// is there, and report the outcome.
    Persist {
        /// Number of the book in the plan.
        index: usize,
        /// The book's name, which is the name of the file.
        name: String,
        /// What was fetched.
        content: bytes::Bytes,
    },
    /// Report that the book is skipped, and go on.
    Skip {
        /// Number of the book in the plan.
        index: usize,
        /// The book's name.
        name: String,
        /// Why the fetch failed.
        error: FetchError,
    },
}

/// How the run goes on after a write.
#[derive(Debug)]
pub enum Verdict {
    /// The book is written. `completed` of the `total` planned books have
    /// been dealt with so far, the skipped ones included.
    Progress {
        /// Number of fetches that have completed.
        completed: usize,
        /// Number of planned books.
        total: usize,
    },
    /// The write failed and the run is over.
    Abort {
        /// Number of the book in the plan.
        index: usize,
        /// Why the write failed.
        error: std::io::Error,
    },
}

/// The state of one run.
pub struct Orchestrator {
    books: Vec<Book>,
    scheduler: DownloadScheduler,
    states: Vec<ItemState>,
    writing: Option<usize>,
    aborted: bool,
}

impl View for Orchestrator {
    type V = RunView;

    closed spec fn view(&self) -> RunView {
        RunView {
            books: self.books@,
            pool: self.scheduler@,
            states: self.states@,
            writing: match self.writing {
                Some(index) => Some(index as int),
                None => None,
            },
            aborted: self.aborted,
        }
    }
}

impl Orchestrator {
    /// The states that an orchestrator can be in. The constructor gives one,
    /// and every method keeps it.
    pub closed spec fn wf(&self) -> bool {
        self.scheduler.wf() && self@.wf()
    }

    /// An orchestrator in one of its states shows a run in one of its
    /// states: what is proved of well-formed runs holds of it.
    pub proof fn lemma_view_wf(&self)
        requires
            self.wf(),
        ensures
            self@.wf(),
            self@.pool.in_flight() <= self@.pool.limit,
    {
    }

    /// A run over the planned books, with at most `workers` fetches in
    /// flight at once. Nothing has started.
    pub fn new(books: Vec<Book>, workers: usize) -> (run: Orchestrator)
        ensures
            run.wf(),
            run@ == RunView::init(books@, workers as nat),
    {
        let total = books.len();
        let mut states: Vec<ItemState> = Vec::new();
        let mut i: usize = 0;
        while i < total
            invariant
                i <= total,
                states.len() == i,
                forall|j: int| 0 <= j < i ==> states[j] == ItemState::Pending,
            decreases total - i,
        {
            states.push(ItemState::Pending);
            i += 1;
        }
        let scheduler = DownloadScheduler::new(total, workers);
        let run = Orchestrator { books, scheduler, states, writing: None, aborted: false };
        assert(run@.states =~= RunView::init(books@, workers as nat).states);
        run
    }

    /// Starts the fetch of the next pending book, if the run goes on, a book
    /// is pending and fewer fetches are in flight than the limit allows.
    /// Returns the number of the book whose fetch the caller is to start.
    pub fn start_next(&mut self) -> (next: Option<usize>)
        requires
            old(self).wf(),
        ensures
            final(self).wf(),
            old(self)@.enabled(RunEvent::Start) ==> {
                &&& next matches Some(index)
                &&& index == old(self)@.pool.admitted
                &&& final(self)@ == old(self)@.step(RunEvent::Start)
            },
            !old(self)@.enabled(RunEvent::Start) ==> next.is_none() && final(self)@ == old(self)@,
    {
        if self.aborted {
            return None;
        }
        match self.scheduler.start_next() {
            Some(index) => {
                self.states[index] = ItemState::Fetching;
                proof {
                    lemma_step_keeps_wf(old(self)@, RunEvent::Start);
                    assert(self@.states =~= old(self)@.step(RunEvent::Start).states);
                }
                Some(index)
            },
            None => None,
        }
    }

    /// Takes the result of one fetch and says what to do with it.
    ///
    /// The result is taken if the run goes on, the fetch of that book is in
    /// flight and no write is in progress; then the fetch counts as
    /// completed. Content is handed back to be written under the book's
    /// name; a failed fetch is handed back to be reported, and the run goes
    /// on. A result that is not taken changes nothing.
    pub fn deliver(&mut self, result: DownloadResult) -> (step: Result<Step, Refusal>)
        requires
            old(self).wf(),
        ensures
            final(self).wf(),
            match old(self)@.delivery_refusal(result.index as int) {
                Some(refusal) => step == Err::<Step, Refusal>(refusal) && final(self)@ == old(self)@,
                None => match result.outcome {
                    Ok(content) => {
                        &&& step == Ok::<Step, Refusal>(
                            Step::Persist {
                                index: result.index,
                                name: old(self)@.books[result.index as int].name,
                                content,
                            },
                        )
                        &&& final(self)@ == old(self)@.step(RunEvent::Fetched(result.index as int))
                    },
                    Err(error) => {
                        &&& step == Ok::<Step, Refusal>(
                            Step::Skip {
                                index: result.index,
                                name: old(self)@.books[result.index as int].name,
                                error,
                            },
                        )
                        &&& final(self)@ == old(self)@.step(RunEvent::FetchFailed(result.index as int))
                    },
                },
            },
    {
        let index = result.index;
        if self.aborted {
            return Err(Refusal::Aborted);
        }
        if index >= self.states.len() {
            return Err(Refusal::UnknownItem);
        }
        if !self.scheduler.is_in_flight(index) {
            return Err(Refusal::NotFetching);
        }
        if self.writing.is_some() {
            return Err(Refusal::WriterBusy);
        }
        let accepted = self.scheduler.complete(index);
        let name = self.books[index].name.clone();
        match result.outcome {
            Ok(content) => {
                self.states[index] = ItemState::Persisting;
                self.writing = Some(index);
                proof {
                    lemma_step_keeps_wf(old(self)@, RunEvent::Fetched(index as int));
                    assert(self@.states =~= old(self)@.step(RunEvent::Fetched(index as int)).states);
                }
                Ok(Step::Persist { index, name, content })
            },
            Err(error) => {
                self.states[index] = ItemState::FetchFailed;
                proof {
                    lemma_step_keeps_wf(old(self)@, RunEvent::FetchFailed(index as int));
                    assert(self@.states =~= old(self)@.step(RunEvent::FetchFailed(index as int)).states);
                }
                Ok(Step::Skip { index, name, error })
            },
        }
    }

    /// Takes the outcome of the write in progress.
    ///
    /// After a successful write the run goes on, and the verdict counts the
    /// books dealt with so far. A failed write ends the run: the verdict
    /// hands the error back, and nothing is accepted afterwards. An outcome
    /// is refused, with nothing changed, when no write is in progress.
    pub fn persisted(&mut self, outcome: Result<(), std::io::Error>) -> (verdict: Result<Verdict, Refusal>)
        requires
            old(self).wf(),
        ensures
            final(self).wf(),
            match old(self)@.report_refusal() {
                Some(refusal) => verdict == Err::<Verdict, Refusal>(refusal) && final(self)@ == old(self)@,
                None => match outcome {
                    Ok(_) => {
                        &&& verdict == Ok::<Verdict, Refusal>(
                            Verdict::Progress {
                                completed: old(self)@.pool.finished.len() as usize,
                                total: old(self)@.books.len() as usize,
                            },
                        )
                        &&& final(self)@ == old(self)@.step(RunEvent::Written)
                    },
                    Err(error) => {
                        &&& verdict == Ok::<Verdict, Refusal>(
                            Verdict::Abort { index: old(self)@.writing.unwrap() as usize, error },
                        )
                        &&& final(self)@ == old(self)@.step(RunEvent::WriteFailed)
                    },
                },
            },
    {
        if self.aborted {
            return Err(Refusal::Aborted);
        }
        let index = match self.writing {
            Some(index) => index,
            None => {
                return Err(Refusal::NotWriting);
            },
        };
        self.writing = None;
        match outcome {
            Ok(_) => {
                self.states[index] = ItemState::Persisted;
                proof {
                    lemma_step_keeps_wf(old(self)@, RunEvent::Written);
                    assert(self@.states =~= old(self)@.step(RunEvent::Written).states);
                }
                Ok(Verdict::Progress { completed: self.scheduler.completed(), total: self.books.len() })
            },
            Err(error) => {
                self.states[index] = ItemState::PersistFailed;
                self.aborted = true;
                proof {
                    lemma_step_keeps_wf(old(self)@, RunEvent::WriteFailed);
                    assert(self@.states =~= old(self)@.step(RunEvent::WriteFailed).states);
                }
                Ok(Verdict::Abort { index, error })
            },
        }
    }

    /// Whether the run is over: a write has failed, or every fetch has
    /// completed and no write is in progress.
    pub fn is_finished(&self) -> (finished: bool)
        requires
            self.wf(),
        ensures
            finished == self@.finished(),
    {
        self.aborted || (self.scheduler.is_done() && self.writing.is_none())
    }

    /// Whether a write has failed.
    pub fn is_aborted(&self) -> (aborted: bool)
        ensures
            aborted == self@.aborted,
    {
        self.aborted
    }

    /// Number of planned books.
    pub fn total(&self) -> (total: usize)
        ensures
            total == self@.books.len(),
    {
        self.books.len()
    }

    /// Number of fetches that have completed, failed ones included.
    pub fn completed(&self) -> (completed: usize)
        requires
            self.wf(),
        ensures
            completed == self@.pool.finished.len(),
    {
        self.scheduler.completed()
    }

    /// Number of fetches in flight.
    pub fn in_flight(&self) -> (count: usize)
        requires
            self.wf(),
        ensures
            count == self@.pool.in_flight(),
            count <= self@.pool.limit,
    {
        self.scheduler.in_flight()
    }

    /// The planned book of this number, if there is one.
    pub fn book(&self, index: usize) -> (book: Option<&Book>)
        ensures
            match book {
                Some(found) => index < self@.books.len() && *found == self@.books[index as int],
                None => index >= self@.books.len(),
            },
    {
        if index < self.books.len() {
            Some(&self.books[index])
        } else {
            None
        }
    }

    /// Where the planned book of this number stands, if there is one.
    pub fn state(&self, index: usize) -> (state: Option<ItemState>)
        ensures
            match state {
                Some(found) => index < self@.states.len() && found == self@.states[index as int],
                None => index >= self@.states.len(),
            },
    {
        if index < self.states.len() {
            Some(self.states[index])
        } else {
            None
        }
    }
}

} // verus!
