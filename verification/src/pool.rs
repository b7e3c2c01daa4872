//! The worker pool: a fixed number of workers that drain one job queue.
//!
//! The pool here is the bookkeeping that the threads share under their lock:
//! which tickets were issued, which worker runs which, and who has left. A
//! worker thread asks `next_job`, runs what it is given, and reports with
//! `finish_job`; the owner calls `submit` and, once, `shutdown`.

use vstd::prelude::*;
use crate::queue::{Dequeued, JobQueue, QueueView};

verus! {

/// Why the pool refused.
#[derive(Clone, Copy, Debug, PartialEq, Eq, Structural)]
pub enum PoolError {
    /// A pool without workers would never run a job.
    ZeroWorkers,
    /// The job came after shutdown had begun.
    PoolShutDown,
}

/// What a worker is doing.
#[derive(Clone, Copy, Debug, PartialEq, Eq, Structural)]
pub enum WorkerState {
    /// Waiting for a job.
    Idle,
    /// Running the job with this ticket.
    Busy(u64),
    /// Saw the end of the stream and left its loop.
    Finished,
}

/// What a worker does next.
#[derive(Clone, Copy, Debug, PartialEq, Eq, Structural)]
pub enum WorkerStep {
    /// Run the job with this ticket, then report back.
    Run(u64),
    /// Block until the queue changes, then ask again.
    Wait,
    /// Leave the loop.
    Exit,
}

/// Where a ticket stands.
#[derive(Clone, Copy, Debug, PartialEq, Eq, Structural)]
pub enum JobStatus {
    /// No job has this ticket yet.
    Unissued,
    /// Accepted and waiting in the queue.
    Pending,
    /// In the hands of a worker.
    Running,
    /// Run to its end.
    Done,
}

/// A pool as a value: its queue and the state of each worker.
pub struct PoolView {
    pub queue: QueueView,
    pub workers: Seq<WorkerState>,
}

impl PoolView {
    /// The number of workers.
    pub open spec fn size(self) -> nat {
        self.workers.len()
    }

    /// Whether `worker` runs the job `ticket`.
    pub open spec fn runs(self, worker: int, ticket: u64) -> bool {
        0 <= worker < self.workers.len() && self.workers[worker] == WorkerState::Busy(ticket)
    }

    /// What holds of every pool that the operations below can reach: there
    /// is a worker; a running job was taken from the queue; no job is in two
    /// hands; and a worker has left only if the queue is closed and empty.
    pub open spec fn wf(self) -> bool {
        &&& self.queue.wf()
        &&& self.workers.len() >= 1
        &&& forall|w: int, t: u64| #[trigger] self.runs(w, t) ==> t < self.queue.taken
        &&& forall|a: int, b: int, t: u64|
            #[trigger] self.runs(a, t) && #[trigger] self.runs(b, t) ==> a == b
        &&& forall|w: int|
            0 <= w < self.workers.len() && #[trigger] self.workers[w] == WorkerState::Finished
                ==> self.queue.closed && self.queue.taken == self.queue.issued
    }

    /// Where the ticket `ticket` stands.
    pub open spec fn status(self, ticket: u64) -> JobStatus {
        if ticket >= self.queue.issued {
            JobStatus::Unissued
        } else if ticket >= self.queue.taken {
            JobStatus::Pending
        } else if exists|w: int| self.runs(w, ticket) {
            JobStatus::Running
        } else {
            JobStatus::Done
        }
    }

    /// The jobs that the first `upto` workers run.
    pub open spec fn running_among(self, upto: int) -> Set<u64> {
        Set::new(|t: u64| exists|w: int| w < upto && self.runs(w, t))
    }

    /// The jobs that run now.
    pub open spec fn running(self) -> Set<u64> {
        self.running_among(self.workers.len() as int)
    }

    /// Every worker has left its loop: what a join of all workers waits for.
    pub open spec fn joined(self) -> bool {
        forall|w: int| 0 <= w < self.workers.len() ==> self.workers[w] == WorkerState::Finished
    }

    /// A new pool of `n` idle workers around an open, empty queue.
    pub open spec fn fresh(n: nat) -> PoolView {
        PoolView {
            queue: QueueView { issued: 0, taken: 0, closed: false },
            workers: Seq::new(n, |w: int| WorkerState::Idle),
        }
    }

    /// The pool after `submit`.
    pub open spec fn submitted(self) -> PoolView {
        PoolView { queue: self.queue.enqueued(), ..self }
    }

    /// The pool after `shutdown` has closed the queue.
    pub open spec fn shut_down(self) -> PoolView {
        PoolView { queue: self.queue.shut(), ..self }
    }

    /// The state of a worker that has asked for a job.
    pub open spec fn asked(self) -> WorkerState {
        match self.queue.next() {
            Dequeued::Job(ticket) => WorkerState::Busy(ticket),
            Dequeued::Wait => WorkerState::Idle,
            Dequeued::EndOfStream => WorkerState::Finished,
        }
    }

    /// The pool after the idle worker `worker` asked for a job.
    pub open spec fn asked_by(self, worker: int) -> PoolView {
        PoolView {
            queue: self.queue.dequeued(),
            workers: self.workers.update(worker, self.asked()),
        }
    }

    /// The pool after the busy worker `worker` reported its job done.
    pub open spec fn finished_by(self, worker: int) -> PoolView {
        PoolView { workers: self.workers.update(worker, WorkerState::Idle), ..self }
    }

    /// Whether `next` is this pool after one operation: a submission, the
    /// start of shutdown, an idle worker asking, or a busy worker reporting.
    pub open spec fn steps_to(self, next: PoolView) -> bool {
        ||| (self.queue.closed || self.queue.has_room()) && next == self.submitted()
        ||| next == self.shut_down()
        ||| exists|w: int|
            0 <= w < self.size() && self.workers[w] == WorkerState::Idle && next
                == #[trigger] self.asked_by(w)
        ||| exists|w: int|
            0 <= w < self.size() && self.workers[w] is Busy && next
                == #[trigger] self.finished_by(w)
    }
}

/// How far a job has come: a job only ever moves to a higher rank.
pub open spec fn rank(status: JobStatus) -> int {
    match status {
        JobStatus::Unissued => 0,
        JobStatus::Pending => 1,
        JobStatus::Running => 2,
        JobStatus::Done => 3,
    }
}

/// The pool's state.
#[derive(Debug)]
pub struct ThreadPool {
    queue: JobQueue,
    workers: Vec<WorkerState>,
}

impl View for ThreadPool {
    type V = PoolView;

    closed spec fn view(&self) -> PoolView {
        PoolView { queue: self.queue@, workers: self.workers@ }
    }
}

impl ThreadPool {
    /// Makes a pool of `n` workers. A pool of none is refused.
    pub fn new(n: usize) -> (pool: Result<Self, PoolError>)
        ensures
            n == 0 ==> (pool matches Err(e) && e == PoolError::ZeroWorkers),
            n > 0 ==> (pool matches Ok(p) && p@ == PoolView::fresh(n as nat) && p@.wf()),
    {
        if n == 0 {
            return Err(PoolError::ZeroWorkers);
        }
        let mut workers: Vec<WorkerState> = Vec::new();
        let mut made: usize = 0;
        while made < n
            invariant
                made <= n,
                workers@.len() == made,
                forall|w: int| 0 <= w < made ==> workers@[w] == WorkerState::Idle,
            decreases n - made,
        {
            workers.push(WorkerState::Idle);
            made += 1;
        }
        let pool = ThreadPool { queue: JobQueue::new(), workers };
        assert(pool@.workers =~= PoolView::fresh(n as nat).workers);
        Ok(pool)
    }

    /// The number of workers, fixed when the pool was made.
    pub fn size(&self) -> (n: usize)
        ensures
            n == self@.size(),
    {
        self.workers.len()
    }

    /// Whether shutdown has begun.
    pub fn is_shut_down(&self) -> (closed: bool)
        ensures
            closed == self@.queue.closed,
    {
        self.queue.is_closed()
    }

    /// Whether the pool can still number a job (it can for the first
    /// 2^64 - 1 of them).
    pub fn can_number(&self) -> (room: bool)
        ensures
            room == self@.queue.has_room(),
    {
        self.queue.can_number()
    }

    /// What the worker `worker` is doing.
    pub fn worker_state(&self, worker: usize) -> (state: WorkerState)
        requires
            worker < self@.size(),
        ensures
            state == self@.workers[worker as int],
    {
        self.workers[worker]
    }

    /// Accepts a job and returns its ticket. After shutdown has begun the
    /// job is refused and the pool is left as it was. An open pool must have
    /// a number left for the job.
    pub fn submit(&mut self) -> (ticket: Result<u64, PoolError>)
        requires
            old(self)@.wf(),
            old(self)@.queue.closed || old(self)@.queue.has_room(),
        ensures
            final(self)@ == old(self)@.submitted(),
            final(self)@.wf(),
            old(self)@.queue.closed ==> ticket == Err::<u64, PoolError>(PoolError::PoolShutDown)
                && final(self)@ == old(self)@,
            !old(self)@.queue.closed ==> ticket == Ok::<u64, PoolError>(
                old(self)@.queue.issued as u64,
            ),
    {
        let ghost before = self@;
        let accepted = self.queue.enqueue();
        proof {
            lemma_submitting_keeps_wf(before);
        }
        match accepted {
            Ok(ticket) => Ok(ticket),
            Err(_) => Err(PoolError::PoolShutDown),
        }
    }

    /// Begins shutdown: closes the queue, so that no job is accepted any
    /// more and each worker leaves once the queue is drained. The caller
    /// then joins the workers. To be called once.
    pub fn shutdown(&mut self)
        requires
            old(self)@.wf(),
            !old(self)@.queue.closed,
        ensures
            final(self)@ == old(self)@.shut_down(),
            final(self)@.wf(),
    {
        let ghost before = self@;
        self.queue.close();
        proof {
            lemma_shutdown_keeps_wf(before);
        }
    }

    /// The idle worker `worker` asks for its next job: the oldest pending
    /// one if there is any, else to wait, or to leave once the queue is
    /// closed.
    pub fn next_job(&mut self, worker: usize) -> (step: WorkerStep)
        requires
            old(self)@.wf(),
            worker < old(self)@.size(),
            old(self)@.workers[worker as int] == WorkerState::Idle,
        ensures
            final(self)@ == old(self)@.asked_by(worker as int),
            final(self)@.wf(),
            step == (match old(self)@.queue.next() {
                Dequeued::Job(ticket) => WorkerStep::Run(ticket),
                Dequeued::Wait => WorkerStep::Wait,
                Dequeued::EndOfStream => WorkerStep::Exit,
            }),
    {
        let ghost before = self@;
        let next = self.queue.dequeue();
        let (state, step) = match next {
            Dequeued::Job(ticket) => (WorkerState::Busy(ticket), WorkerStep::Run(ticket)),
            Dequeued::Wait => (WorkerState::Idle, WorkerStep::Wait),
            Dequeued::EndOfStream => (WorkerState::Finished, WorkerStep::Exit),
        };
        self.workers[worker] = state;
        proof {
            lemma_asking_keeps_wf(before, worker as int);
        }
        step
    }

    /// The busy worker `worker` reports that its job has run to its end,
    /// whether the job succeeded or failed. Returns the job's ticket.
    pub fn finish_job(&mut self, worker: usize) -> (ticket: u64)
        requires
            old(self)@.wf(),
            worker < old(self)@.size(),
            old(self)@.workers[worker as int] is Busy,
        ensures
            final(self)@ == old(self)@.finished_by(worker as int),
            final(self)@.wf(),
            old(self)@.workers[worker as int] == WorkerState::Busy(ticket),
    {
        let ghost before = self@;
        let ticket = match self.workers[worker] {
            WorkerState::Busy(ticket) => ticket,
            _ => unreached(),
        };
        self.workers[worker] = WorkerState::Idle;
        proof {
            lemma_finishing_keeps_wf(before, worker as int);
        }
        ticket
    }

    /// Whether every worker has left its loop.
    pub fn is_joined(&self) -> (joined: bool)
        ensures
            joined == self@.joined(),
    {
        let mut w: usize = 0;
        while w < self.workers.len()
            invariant
                w <= self.workers@.len(),
                forall|v: int| 0 <= v < w ==> self.workers@[v] == WorkerState::Finished,
            decreases self.workers@.len() - w,
        {
            match self.workers[w] {
                WorkerState::Finished => {},
                _ => {
                    return false;
                },
            }
            w += 1;
        }
        true
    }
}

/// Accepting or refusing a job leaves the pool well-formed.
pub proof fn lemma_submitting_keeps_wf(pool: PoolView)
    requires
        pool.wf(),
        pool.queue.closed || pool.queue.has_room(),
    ensures
        pool.submitted().wf(),
{
    let after = pool.submitted();
    assert forall|w: int, t: u64| #[trigger] after.runs(w, t) implies pool.runs(w, t) by {}
    assert forall|w: int|
        0 <= w < after.workers.len() && #[trigger] after.workers[w]
            == WorkerState::Finished implies after.queue.closed && after.queue.taken
        == after.queue.issued by {
        assert(pool.workers[w] == WorkerState::Finished);
    }
}

/// Closing the queue leaves the pool well-formed.
pub proof fn lemma_shutdown_keeps_wf(pool: PoolView)
    requires
        pool.wf(),
    ensures
        pool.shut_down().wf(),
{
    let after = pool.shut_down();
    assert forall|w: int, t: u64| #[trigger] after.runs(w, t) implies pool.runs(w, t) by {}
    assert forall|w: int|
        0 <= w < after.workers.len() && #[trigger] after.workers[w]
            == WorkerState::Finished implies after.queue.closed && after.queue.taken
        == after.queue.issued by {
        assert(pool.workers[w] == WorkerState::Finished);
    }
}

/// A worker that asks for a job leaves the pool well-formed.
pub proof fn lemma_asking_keeps_wf(pool: PoolView, worker: int)
    requires
        pool.wf(),
        0 <= worker < pool.size(),
        pool.workers[worker] == WorkerState::Idle,
    ensures
        pool.asked_by(worker).wf(),
{
    let after = pool.asked_by(worker);
    assert forall|w: int, t: u64| #[trigger] after.runs(w, t) implies t < after.queue.taken by {
        if w != worker {
            assert(pool.runs(w, t));
        }
    }
    assert forall|a: int, b: int, t: u64| #[trigger]
        after.runs(a, t) && #[trigger] after.runs(b, t) implies a == b by {
        if a != worker {
            assert(pool.runs(a, t));
        }
        if b != worker {
            assert(pool.runs(b, t));
        }
    }
    assert forall|w: int|
        0 <= w < after.workers.len() && #[trigger] after.workers[w]
            == WorkerState::Finished implies after.queue.closed && after.queue.taken
        == after.queue.issued by {
        if w != worker {
            assert(pool.workers[w] == WorkerState::Finished);
        }
    }
}

/// A worker that reports its job done leaves the pool well-formed.
pub proof fn lemma_finishing_keeps_wf(pool: PoolView, worker: int)
    requires
        pool.wf(),
        0 <= worker < pool.size(),
        pool.workers[worker] is Busy,
    ensures
        pool.finished_by(worker).wf(),
{
    let after = pool.finished_by(worker);
    assert forall|w: int, t: u64| #[trigger] after.runs(w, t) implies pool.runs(w, t) by {}
    assert forall|w: int|
        0 <= w < after.workers.len() && #[trigger] after.workers[w]
            == WorkerState::Finished implies pool.workers[w] == WorkerState::Finished by {}
}

/// Every operation leaves the pool well-formed and with the workers it had.
pub proof fn lemma_step_keeps_wf(pool: PoolView, next: PoolView)
    requires
        pool.wf(),
        pool.steps_to(next),
    ensures
        next.wf(),
        next.size() == pool.size(),
{
    if (pool.queue.closed || pool.queue.has_room()) && next == pool.submitted() {
        lemma_submitting_keeps_wf(pool);
    } else if next == pool.shut_down() {
        lemma_shutdown_keeps_wf(pool);
    } else if exists|w: int|
        0 <= w < pool.size() && pool.workers[w] == WorkerState::Idle && next
            == #[trigger] pool.asked_by(w) {
        let w = choose|w: int|
            0 <= w < pool.size() && pool.workers[w] == WorkerState::Idle && next
                == #[trigger] pool.asked_by(w);
        lemma_asking_keeps_wf(pool, w);
    } else {
        let w = choose|w: int|
            0 <= w < pool.size() && pool.workers[w] is Busy && next
                == #[trigger] pool.finished_by(w);
        lemma_finishing_keeps_wf(pool, w);
    }
}

/// At no time do more jobs run than the pool has workers.
pub proof fn lemma_running_bounded(pool: PoolView)
    ensures
        forall|t: u64| pool.status(t) == JobStatus::Running ==> pool.running().contains(t),
        pool.running().finite(),
        pool.running().len() <= pool.size(),
{
    lemma_running_among_bounded(pool, pool.workers.len() as int);
    assert forall|t: u64| pool.status(t) == JobStatus::Running implies pool.running().contains(
        t,
    ) by {
        let w = choose|w: int| pool.runs(w, t);
        assert(w < pool.workers.len() && pool.runs(w, t));
    }
}

/// The first `upto` workers run at most `upto` jobs.
pub proof fn lemma_running_among_bounded(pool: PoolView, upto: int)
    requires
        0 <= upto <= pool.workers.len(),
    ensures
        pool.running_among(upto).finite(),
        pool.running_among(upto).len() <= upto,
    decreases upto,
{
    if upto == 0 {
        assert(pool.running_among(0) =~= Set::<u64>::empty());
    } else {
        lemma_running_among_bounded(pool, upto - 1);
        let before = pool.running_among(upto - 1);
        match pool.workers[upto - 1] {
            WorkerState::Busy(ticket) => {
                assert(pool.runs(upto - 1, ticket));
                assert forall|t: u64| pool.running_among(upto).contains(t) implies before.insert(
                    ticket,
                ).contains(t) by {
                    let w = choose|w: int| w < upto && pool.runs(w, t);
                    if w < upto - 1 {
                        assert(before.contains(t));
                    }
                }
                assert(pool.running_among(upto) =~= before.insert(ticket));
            },
            _ => {
                assert forall|t: u64| pool.running_among(upto).contains(t) implies before.contains(
                    t,
                ) by {
                    let w = choose|w: int| w < upto && pool.runs(w, t);
                    assert(w < upto - 1);
                }
                assert(pool.running_among(upto) =~= before);
            },
        }
    }
}

/// Once every worker has left, every job that was accepted has run to its
/// end: none waits and none is still running.
pub proof fn lemma_joined_all_done(pool: PoolView, ticket: u64)
    requires
        pool.wf(),
        pool.joined(),
        ticket < pool.queue.issued,
    ensures
        pool.status(ticket) == JobStatus::Done,
        pool.queue.pending().len() == 0,
        pool.running() =~= Set::<u64>::empty(),
{
    assert(pool.workers[0] == WorkerState::Finished);
    assert forall|w: int, t: u64| !pool.runs(w, t) by {
        if 0 <= w < pool.workers.len() {
            assert(pool.workers[w] == WorkerState::Finished);
        }
    }
}

/// No operation takes a job backwards: a job that waits is not forgotten,
/// a job that runs is not queued again, and a job that is done stays done.
pub proof fn lemma_jobs_only_advance(pool: PoolView, next: PoolView, ticket: u64)
    requires
        pool.wf(),
        pool.steps_to(next),
    ensures
        rank(pool.status(ticket)) <= rank(next.status(ticket)),
{
    if (pool.queue.closed || pool.queue.has_room()) && next == pool.submitted() {
        assert forall|w: int| pool.runs(w, ticket) == next.runs(w, ticket) by {}
    } else if next == pool.shut_down() {
        assert forall|w: int| pool.runs(w, ticket) == next.runs(w, ticket) by {}
    } else if exists|w: int|
        0 <= w < pool.size() && pool.workers[w] == WorkerState::Idle && next
            == #[trigger] pool.asked_by(w) {
        let asker = choose|w: int|
            0 <= w < pool.size() && pool.workers[w] == WorkerState::Idle && next
                == #[trigger] pool.asked_by(w);
        if pool.status(ticket) == JobStatus::Running {
            let w = choose|w: int| pool.runs(w, ticket);
            assert(next.runs(w, ticket));
        } else if pool.status(ticket) == JobStatus::Pending {
            if ticket == pool.queue.taken {
                assert(next.runs(asker, ticket));
            }
        } else if pool.status(ticket) == JobStatus::Done {
            assert forall|w: int| !next.runs(w, ticket) by {
                if w != asker {
                    assert(!pool.runs(w, ticket));
                }
            }
        }
    } else {
        let reporter = choose|w: int|
            0 <= w < pool.size() && pool.workers[w] is Busy && next
                == #[trigger] pool.finished_by(w);
        if pool.status(ticket) == JobStatus::Running {
            let w = choose|w: int| pool.runs(w, ticket);
            if w != reporter {
                assert(next.runs(w, ticket));
            } else {
                assert forall|v: int| !next.runs(v, ticket) by {
                    if next.runs(v, ticket) {
                        assert(pool.runs(v, ticket));
                    }
                }
            }
        } else if pool.status(ticket) == JobStatus::Done {
            assert forall|w: int| !next.runs(w, ticket) by {
                if next.runs(w, ticket) {
                    assert(pool.runs(w, ticket));
                }
            }
        }
    }
}

/// A job starts from the queue and from nowhere else: the ticket that an
/// asking worker is given was pending, was the oldest pending one, and runs
/// afterwards.
pub proof fn lemma_job_starts_from_pending(pool: PoolView, worker: int)
    requires
        pool.wf(),
        0 <= worker < pool.size(),
        pool.workers[worker] == WorkerState::Idle,
        pool.queue.taken < pool.queue.issued,
    ensures
        pool.asked() == WorkerState::Busy(pool.queue.taken as u64),
        pool.status(pool.queue.taken as u64) == JobStatus::Pending,
        pool.asked_by(worker).status(pool.queue.taken as u64) == JobStatus::Running,
{
    assert(pool.asked_by(worker).runs(worker, pool.queue.taken as u64));
}

/// A job ends from a worker's hands and from nowhere else: the ticket that
/// a worker reports was running, and is done afterwards.
pub proof fn lemma_job_ends_from_running(pool: PoolView, worker: int, ticket: u64)
    requires
        pool.wf(),
        pool.runs(worker, ticket),
    ensures
        pool.status(ticket) == JobStatus::Running,
        pool.finished_by(worker).status(ticket) == JobStatus::Done,
{
    let after = pool.finished_by(worker);
    assert forall|w: int| !after.runs(w, ticket) by {
        if after.runs(w, ticket) {
            assert(pool.runs(w, ticket));
        }
    }
}

/// Whether `history` is a life of a pool of `n` workers: it starts with the
/// new pool, and each state follows from the one before by one operation.
pub open spec fn is_history(history: Seq<PoolView>, n: nat) -> bool {
    &&& n >= 1
    &&& history.len() >= 1
    &&& history[0] == PoolView::fresh(n)
    &&& forall|i: int|
        0 <= i < history.len() - 1 ==> (#[trigger] history[i]).steps_to(history[i + 1])
}

/// A new pool is well-formed.
pub proof fn lemma_fresh_is_wf(n: nat)
    requires
        n >= 1,
    ensures
        PoolView::fresh(n).wf(),
        PoolView::fresh(n).size() == n,
{
}

/// Throughout the life of a pool of `n` workers the pool is well-formed,
/// has its `n` workers, and runs at most `n` jobs at a time.
pub proof fn lemma_history_is_bounded(history: Seq<PoolView>, n: nat, at: int)
    requires
        is_history(history, n),
        0 <= at < history.len(),
    ensures
        history[at].wf(),
        history[at].size() == n,
        history[at].running().finite(),
        history[at].running().len() <= n,
    decreases at,
{
    if at == 0 {
        lemma_fresh_is_wf(n);
    } else {
        lemma_history_is_bounded(history, n, at - 1);
        assert(history[at - 1].steps_to(history[at - 1 + 1]));
        lemma_step_keeps_wf(history[at - 1], history[at]);
    }
    lemma_running_bounded(history[at]);
}

/// Throughout the life of a pool no job goes backwards: from any moment to
/// any later one, each ticket keeps or raises its rank. So a job that was
/// accepted is never lost, and a job that was taken is never taken again.
pub proof fn lemma_history_only_advances(
    history: Seq<PoolView>,
    n: nat,
    from: int,
    to: int,
    ticket: u64,
)
    requires
        is_history(history, n),
        0 <= from <= to < history.len(),
    ensures
        rank(history[from].status(ticket)) <= rank(history[to].status(ticket)),
    decreases to - from,
{
    if from < to {
        lemma_history_only_advances(history, n, from, to - 1, ticket);
        lemma_history_is_bounded(history, n, to - 1);
        assert(history[to - 1].steps_to(history[to - 1 + 1]));
        lemma_jobs_only_advance(history[to - 1], history[to], ticket);
    }
}

/// When the join returns, every job that was ever accepted is done: a
/// ticket that was issued at some moment of the pool's life is done at any
/// later moment at which all workers have left.
pub proof fn lemma_join_waits_for_every_job(
    history: Seq<PoolView>,
    n: nat,
    submitted: int,
    joined: int,
    ticket: u64,
)
    requires
        is_history(history, n),
        0 <= submitted <= joined < history.len(),
        history[submitted].status(ticket) != JobStatus::Unissued,
        history[joined].joined(),
    ensures
        history[joined].status(ticket) == JobStatus::Done,
{
    lemma_history_only_advances(history, n, submitted, joined, ticket);
    lemma_history_is_bounded(history, n, joined);
    lemma_joined_all_done(history[joined], ticket);
}

} // verus!
