//! One worker: its record in the pool, and the two-state loop it runs.

use crate::queue::JobQueue;
use crate::queue::Received;
use vstd::prelude::*;

verus! {

/// The pool's record of one worker: its index, and the join handle of its
/// execution unit until shutdown takes it.
pub struct Worker<H> {
    pub id: usize,
    pub handler: Option<H>,
}

/// Where a worker's loop stands. `Stopped` is terminal.
#[derive(Clone, Copy, Debug, PartialEq, Eq, Structural)]
pub enum WorkerState {
    Running,
    Stopped,
}

/// What a worker does next.
pub enum Action<J> {
    /// Release the queue, then run this job to completion and poll again.
    Run(J),
    /// Nothing to do yet: wait until the queue changes, then poll again.
    Wait,
    /// Leave the loop.
    Exit,
}

impl WorkerState {
    /// One turn of the worker loop, made while the worker holds the queue.
    ///
    /// A running worker takes the oldest pending job; with none pending it
    /// waits while the producer side is present and stops once it is gone.
    /// A stopped worker stays stopped and leaves the queue untouched.
    pub fn poll<J>(self, queue: &mut JobQueue<J>) -> (next: (WorkerState, Action<J>))
        requires
            old(queue).wf(),
        ensures
            final(queue).wf(),
            final(queue).producer_present() == old(queue).producer_present(),
            final(queue).submitted() == old(queue).submitted(),
            next == poll_outcome(self, *old(queue)),
            final(queue).pending() == poll_pending(self, *old(queue)),
            final(queue).delivered() == poll_delivered(self, *old(queue)),
    {
        match self {
            WorkerState::Stopped => (WorkerState::Stopped, Action::Exit),
            WorkerState::Running => match queue.receive() {
                Received::Job(job) => (WorkerState::Running, Action::Run(job)),
                Received::Empty => (WorkerState::Running, Action::Wait),
                Received::Disconnected => (WorkerState::Stopped, Action::Exit),
            },
        }
    }
}

/// The state a worker moves to and what it does, given its state and the
/// queue it polls.
pub open spec fn poll_outcome<J>(state: WorkerState, queue: JobQueue<J>) -> (WorkerState, Action<J>) {
    if state == WorkerState::Stopped {
        (WorkerState::Stopped, Action::Exit)
    } else if queue.pending().len() > 0 {
        (WorkerState::Running, Action::Run(queue.pending()[0]))
    } else if queue.producer_present() {
        (WorkerState::Running, Action::Wait)
    } else {
        (WorkerState::Stopped, Action::Exit)
    }
}

/// The jobs left pending after a worker in `state` has polled `queue`.
pub open spec fn poll_pending<J>(state: WorkerState, queue: JobQueue<J>) -> Seq<J> {
    if state == WorkerState::Running && queue.pending().len() > 0 {
        queue.pending().drop_first()
    } else {
        queue.pending()
    }
}

/// The jobs handed out so far, after a worker in `state` has polled `queue`.
pub open spec fn poll_delivered<J>(state: WorkerState, queue: JobQueue<J>) -> Seq<J> {
    if state == WorkerState::Running && queue.pending().len() > 0 {
        queue.delivered().push(queue.pending()[0])
    } else {
        queue.delivered()
    }
}

/// While the producer side is present no running worker stops; and a running
/// worker stops only when the producer side is gone and the queue is drained,
/// by which time every job that was sent has been handed out exactly once.
pub proof fn lemma_stops_only_when_drained<J>(queue: JobQueue<J>)
    requires
        queue.wf(),
    ensures
        queue.producer_present() ==> poll_outcome(WorkerState::Running, queue).0
            == WorkerState::Running,
        poll_outcome(WorkerState::Running, queue).0 == WorkerState::Stopped ==> {
            &&& !queue.producer_present()
            &&& queue.pending().len() == 0
            &&& queue.delivered() == queue.submitted()
        },
{
    if queue.pending().len() == 0 {
        queue.lemma_drained();
    }
}

/// A job is handed to a worker only by being taken off the front of the
/// queue: whatever a poll tells the worker to run is the oldest pending job,
/// and that job is pending no longer.
pub proof fn lemma_run_takes_oldest<J>(state: WorkerState, queue: JobQueue<J>, job: J)
    requires
        queue.wf(),
        poll_outcome(state, queue).1 == Action::Run(job),
    ensures
        state == WorkerState::Running,
        queue.pending().len() > 0,
        job == queue.pending()[0],
        poll_pending(state, queue) == queue.pending().drop_first(),
        poll_delivered(state, queue) == queue.delivered().push(job),
        queue.submitted() == poll_delivered(state, queue) + poll_pending(state, queue),
{
    queue.lemma_conserved();
    assert(queue.pending() =~= seq![job] + queue.pending().drop_first());
    assert(queue.delivered() + queue.pending() =~= queue.delivered().push(job)
        + queue.pending().drop_first());
}

} // verus!
