//! The job queue: an unbounded first-in, first-out line of tickets.
//!
//! A job is known here by its ticket, the number of jobs that were accepted
//! before it. The queue hands tickets out in that order, so the pending jobs
//! are always the tickets from `taken` up to `issued`.

use vstd::prelude::*;

verus! {

/// Why a job was not accepted.
#[derive(Clone, Copy, Debug, PartialEq, Eq, Structural)]
pub enum QueueError {
    /// The queue was closed before the job came.
    QueueClosed,
}

/// What a consumer gets when it asks for the next job.
#[derive(Clone, Copy, Debug, PartialEq, Eq, Structural)]
pub enum Dequeued {
    /// The oldest pending job.
    Job(u64),
    /// Nothing is pending, but more may come: the consumer waits.
    Wait,
    /// Nothing is pending and nothing will come.
    EndOfStream,
}

/// A queue as a value: how many jobs it accepted, how many it handed out,
/// and whether it was closed.
pub struct QueueView {
    pub issued: nat,
    pub taken: nat,
    pub closed: bool,
}

impl QueueView {
    /// No ticket is handed out before it is issued, and every ticket fits
    /// the counter that numbers it.
    pub open spec fn wf(self) -> bool {
        self.taken <= self.issued <= u64::MAX
    }

    /// Whether one more ticket can be numbered.
    pub open spec fn has_room(self) -> bool {
        self.issued < u64::MAX
    }

    /// The tickets that wait, oldest first.
    pub open spec fn pending(self) -> Seq<nat> {
        Seq::new((self.issued - self.taken) as nat, |i: int| (self.taken + i) as nat)
    }

    /// The queue after it accepted one more job; a closed queue stays as
    /// it is.
    pub open spec fn enqueued(self) -> QueueView {
        if self.closed {
            self
        } else {
            QueueView { issued: self.issued + 1, ..self }
        }
    }

    /// The queue after a consumer asked for a job.
    pub open spec fn dequeued(self) -> QueueView {
        if self.taken < self.issued {
            QueueView { taken: self.taken + 1, ..self }
        } else {
            self
        }
    }

    /// What the consumer is told.
    pub open spec fn next(self) -> Dequeued {
        if self.taken < self.issued {
            Dequeued::Job(self.taken as u64)
        } else if self.closed {
            Dequeued::EndOfStream
        } else {
            Dequeued::Wait
        }
    }

    /// The queue after closing.
    pub open spec fn shut(self) -> QueueView {
        QueueView { closed: true, ..self }
    }
}

/// The queue's counters.
#[derive(Debug)]
pub struct JobQueue {
    issued: u64,
    taken: u64,
    closed: bool,
}

impl View for JobQueue {
    type V = QueueView;

    closed spec fn view(&self) -> QueueView {
        QueueView { issued: self.issued as nat, taken: self.taken as nat, closed: self.closed }
    }
}

impl JobQueue {
    /// An open queue that has seen no job.
    pub fn new() -> (queue: Self)
        ensures
            queue@ == (QueueView { issued: 0, taken: 0, closed: false }),
    {
        JobQueue { issued: 0, taken: 0, closed: false }
    }

    /// Whether the queue can still number a job (it can for the first
    /// 2^64 - 1 of them).
    pub fn can_number(&self) -> (room: bool)
        ensures
            room == self@.has_room(),
    {
        self.issued < u64::MAX
    }

    /// Appends a job and returns its ticket. Fails on a closed queue, which
    /// is left as it was. An open queue must have a number left for the job.
    pub fn enqueue(&mut self) -> (ticket: Result<u64, QueueError>)
        requires
            old(self)@.wf(),
            old(self)@.closed || old(self)@.has_room(),
        ensures
            final(self)@ == old(self)@.enqueued(),
            final(self)@.wf(),
            old(self)@.closed ==> ticket == Err::<u64, QueueError>(QueueError::QueueClosed),
            !old(self)@.closed ==> ticket == Ok::<u64, QueueError>(old(self)@.issued as u64),
    {
        if self.closed {
            Err(QueueError::QueueClosed)
        } else {
            let ticket = self.issued;
            self.issued = self.issued + 1;
            Ok(ticket)
        }
    }

    /// Hands out the oldest pending job, or says why there is none.
    pub fn dequeue(&mut self) -> (next: Dequeued)
        requires
            old(self)@.wf(),
        ensures
            next == old(self)@.next(),
            final(self)@ == old(self)@.dequeued(),
            final(self)@.wf(),
    {
        if self.taken < self.issued {
            let ticket = self.taken;
            self.taken = self.taken + 1;
            Dequeued::Job(ticket)
        } else if self.closed {
            Dequeued::EndOfStream
        } else {
            Dequeued::Wait
        }
    }

    /// Closes the queue. Closing a closed queue changes nothing.
    pub fn close(&mut self)
        ensures
            final(self)@ == old(self)@.shut(),
    {
        self.closed = true;
    }

    /// Whether the queue was closed.
    pub fn is_closed(&self) -> (closed: bool)
        ensures
            closed == self@.closed,
    {
        self.closed
    }

    /// How many jobs wait.
    pub fn pending_len(&self) -> (n: u64)
        requires
            self@.wf(),
        ensures
            n == self@.pending().len(),
    {
        self.issued - self.taken
    }
}

/// Jobs leave in the order in which they came: the ticket handed out is the
/// head of the pending line, and the line that remains is its tail.
pub proof fn lemma_dequeue_is_fifo(queue: QueueView)
    requires
        queue.wf(),
        queue.taken < queue.issued,
    ensures
        queue.pending().len() > 0,
        queue.pending()[0] == queue.taken,
        queue.dequeued().pending() == queue.pending().drop_first(),
{
    assert(queue.dequeued().pending() =~= queue.pending().drop_first());
}

/// A job that is accepted goes to the back of the line.
pub proof fn lemma_enqueue_appends(queue: QueueView)
    requires
        queue.wf(),
        !queue.closed,
    ensures
        queue.enqueued().pending() == queue.pending().push(queue.issued),
{
    assert(queue.enqueued().pending() =~= queue.pending().push(queue.issued));
}

/// Closing twice is closing once, and a closed queue accepts nothing.
pub proof fn lemma_close_is_final(queue: QueueView)
    ensures
        queue.shut().shut() == queue.shut(),
        queue.shut().enqueued() == queue.shut(),
        queue.shut().pending() == queue.pending(),
{
}

} // verus!
