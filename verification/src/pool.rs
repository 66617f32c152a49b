//! The pool: a fixed set of workers around one job queue, from construction
//! through submission to shutdown.

use crate::history::Event;
use crate::history::follows;
use crate::history::fresh;
use crate::queue::JobQueue;
use crate::worker::Action;
use crate::worker::Worker;
use crate::worker::WorkerState;
use crate::worker::poll_delivered;
use crate::worker::poll_outcome;
use crate::worker::poll_pending;
use vstd::prelude::*;

verus! {

/// One execution unit the pool asks its owner to start.
#[derive(Clone, Copy, Debug, PartialEq, Eq, Structural)]
pub struct SpawnRequest {
    /// The index the new worker is bound to.
    pub id: usize,
    /// The exact stack size to ask for, or `None` for the platform default.
    pub stack_size: Option<usize>,
}

/// The stack size to ask the platform for: zero stands for its default.
pub open spec fn stack_request(stack_size: usize) -> Option<usize> {
    if stack_size > 0 {
        Some(stack_size)
    } else {
        None
    }
}

/// The handles that shutdown hands back for joining: those of the workers
/// that still hold one, each with its worker's index, in construction order.
pub open spec fn joinable<H>(workers: Seq<Worker<H>>) -> Seq<(usize, H)>
    decreases workers.len(),
{
    if workers.len() == 0 {
        Seq::empty()
    } else {
        let earlier = joinable(workers.drop_last());
        match workers.last().handler {
            Some(handle) => earlier.push((workers.last().id, handle)),
            None => earlier,
        }
    }
}

/// A pool of workers over jobs of type `J`, whose execution units are joined
/// through handles of type `H`.
pub struct ThreadPool<J, H> {
    workers: Vec<Worker<H>>,
    queue: JobQueue<J>,
    requested: usize,
    stack_size: usize,
    spawning: bool,
}

impl<J, H> ThreadPool<J, H> {
    /// The workers started so far, in construction order.
    pub closed spec fn workers(&self) -> Seq<Worker<H>> {
        self.workers@
    }

    /// The job queue shared by the workers.
    pub closed spec fn queue(&self) -> JobQueue<J> {
        self.queue
    }

    /// The number of workers asked for at construction.
    pub closed spec fn requested(&self) -> usize {
        self.requested
    }

    /// The stack size hint given at construction.
    pub closed spec fn stack_size(&self) -> usize {
        self.stack_size
    }

    /// Whether construction may still start workers.
    pub closed spec fn spawning(&self) -> bool {
        self.spawning
    }

    /// Whether the pool is waiting for its owner to start the next worker.
    pub open spec fn awaiting_spawn(&self) -> bool {
        self.spawning() && self.workers().len() < self.requested()
    }

    /// The pool never runs with a request for zero workers, never holds more
    /// workers than were asked for, and worker `i` has index `i`. Until
    /// shutdown drops the producer side, every worker holds its handle.
    pub open spec fn wf(&self) -> bool {
        &&& self.queue().wf()
        &&& self.requested() > 0
        &&& self.workers().len() <= self.requested()
        &&& forall|i: int| 0 <= i < self.workers().len() ==> (#[trigger] self.workers()[i]).id == i
        &&& self.queue().producer_present() ==> forall|i: int|
            0 <= i < self.workers().len() ==> (#[trigger] self.workers()[i]).handler is Some
    }

    /// A pool that is to have `threads_count` workers, each with a stack of
    /// `stack_size` bytes (zero: the platform default). No worker is started
    /// yet; the queue is empty and its producer side present.
    pub fn new(threads_count: usize, stack_size: usize) -> (pool: Self)
        requires
            threads_count > 0,
        ensures
            pool.wf(),
            pool.requested() == threads_count,
            pool.stack_size() == stack_size,
            pool.spawning(),
            pool.workers() == Seq::<Worker<H>>::empty(),
            fresh(pool.queue()),
    {
        ThreadPool {
            workers: Vec::new(),
            queue: JobQueue::new(),
            requested: threads_count,
            stack_size,
            spawning: true,
        }
    }

    /// Construction that ends without a failed start leaves the pool with
    /// exactly the workers asked for.
    pub proof fn lemma_construction_complete(self)
        requires
            self.wf(),
            self.spawning(),
            !self.awaiting_spawn(),
        ensures
            self.workers().len() == self.requested(),
    {
    }

    /// The next worker to start, if construction is not finished: its index
    /// is the number of workers started so far.
    pub fn next_spawn(&self) -> (request: Option<SpawnRequest>)
        ensures
            request == if self.awaiting_spawn() {
                Some(
                    (SpawnRequest {
                        id: self.workers().len() as usize,
                        stack_size: stack_request(self.stack_size()),
                    }),
                )
            } else {
                None
            },
    {
        if self.spawning && self.workers.len() < self.requested {
            let stack_size = if self.stack_size > 0 {
                Some(self.stack_size)
            } else {
                None
            };
            Some(SpawnRequest { id: self.workers.len(), stack_size })
        } else {
            None
        }
    }

    /// Records that the worker last asked for was started, with its handle.
    pub fn spawned(&mut self, handle: H)
        requires
            old(self).wf(),
            old(self).awaiting_spawn(),
        ensures
            final(self).wf(),
            final(self).workers() == old(self).workers().push(
                (Worker { id: old(self).workers().len() as usize, handler: Some(handle) }),
            ),
            final(self).queue() == old(self).queue(),
            final(self).requested() == old(self).requested(),
            final(self).stack_size() == old(self).stack_size(),
            final(self).spawning(),
    {
        let id = self.workers.len();
        self.workers.push(Worker { id, handler: Some(handle) });
    }

    /// Records that the worker last asked for could not be started. No
    /// further worker is asked for: the pool goes on with fewer workers than
    /// requested.
    pub fn spawn_failed(&mut self)
        requires
            old(self).wf(),
            old(self).awaiting_spawn(),
        ensures
            final(self).wf(),
            !final(self).spawning(),
            final(self).workers() == old(self).workers(),
            final(self).workers().len() < final(self).requested(),
            final(self).queue() == old(self).queue(),
            final(self).requested() == old(self).requested(),
            final(self).stack_size() == old(self).stack_size(),
    {
        self.spawning = false;
    }

    /// Whether the producer side of the queue is still present, that is,
    /// whether shutdown has not begun.
    pub fn is_open(&self) -> (open: bool)
        ensures
            open == self.queue().producer_present(),
    {
        self.queue.is_open()
    }

    /// The number of workers started so far.
    pub fn worker_count(&self) -> (n: usize)
        ensures
            n == self.workers().len(),
    {
        self.workers.len()
    }

    /// Submits one job: it is queued behind all pending ones.
    pub fn execute(&mut self, job: J)
        requires
            old(self).wf(),
            old(self).queue().producer_present(),
        ensures
            final(self).wf(),
            follows(old(self).queue(), Event::Submit(job), final(self).queue()),
            final(self).workers() == old(self).workers(),
            final(self).requested() == old(self).requested(),
            final(self).stack_size() == old(self).stack_size(),
            final(self).spawning() == old(self).spawning(),
    {
        self.queue.send(job);
    }

    /// One turn of a worker's loop against this pool's queue.
    pub fn poll(&mut self, state: WorkerState) -> (next: (WorkerState, Action<J>))
        requires
            old(self).wf(),
        ensures
            final(self).wf(),
            next == poll_outcome(state, old(self).queue()),
            state == WorkerState::Running ==> follows(
                old(self).queue(),
                Event::Poll,
                final(self).queue(),
            ),
            final(self).queue().pending() == poll_pending(state, old(self).queue()),
            final(self).queue().delivered() == poll_delivered(state, old(self).queue()),
            final(self).queue().submitted() == old(self).queue().submitted(),
            final(self).queue().producer_present() == old(self).queue().producer_present(),
            final(self).workers() == old(self).workers(),
            final(self).requested() == old(self).requested(),
            final(self).stack_size() == old(self).stack_size(),
            final(self).spawning() == old(self).spawning(),
    {
        state.poll(&mut self.queue)
    }

    /// Begins shutdown: drops the producer side of the queue and takes the
    /// join handle of every worker that still holds one. The handles come
    /// back in construction order, each with its worker's index, for the
    /// owner to join in that order. Pending jobs stay queued for the workers
    /// to drain. A second call finds no handle left and returns nothing.
    pub fn shutdown(&mut self) -> (handles: Vec<(usize, H)>)
        requires
            old(self).wf(),
        ensures
            final(self).wf(),
            handles@ == joinable(old(self).workers()),
            old(self).queue().producer_present() ==> handles@.len() == old(self).workers().len(),
            final(self).workers().len() == old(self).workers().len(),
            forall|i: int|
                0 <= i < final(self).workers().len() ==> (#[trigger] final(self).workers()[i])
                    == (Worker::<H> { id: old(self).workers()[i].id, handler: None }),
            follows(old(self).queue(), Event::Close, final(self).queue()),
            !final(self).spawning(),
            final(self).requested() == old(self).requested(),
            final(self).stack_size() == old(self).stack_size(),
    {
        self.queue.close();
        self.spawning = false;
        let ghost closed = self.queue;
        let mut handles: Vec<(usize, H)> = Vec::new();
        let count: usize = self.workers.len();
        let mut i: usize = 0;
        while i < count
            invariant
                i <= count,
                count == self.workers@.len(),
                count == old(self).workers@.len(),
                self.queue == closed,
                self.requested == old(self).requested,
                self.stack_size == old(self).stack_size,
                !self.spawning,
                forall|k: int|
                    0 <= k < i ==> (#[trigger] self.workers@[k]) == (Worker::<H> {
                        id: old(self).workers@[k].id,
                        handler: None,
                    }),
                forall|k: int| i <= k < count ==> (#[trigger] self.workers@[k]) == old(self).workers@[k],
                handles@ == joinable(old(self).workers@.take(i as int)),
            decreases count - i,
        {
            let worker = &mut self.workers[i];
            let id = worker.id;
            let taken = worker.handler.take();
            proof {
                let before = old(self).workers@;
                assert(before.take(i + 1).drop_last() == before.take(i as int));
                assert(before.take(i + 1).last() == before[i as int]);
            }
            match taken {
                Some(handle) => {
                    handles.push((id, handle));
                },
                None => {},
            }
            i += 1;
        }
        proof {
            assert(old(self).workers@.take(count as int) == old(self).workers@);
            if old(self).queue().producer_present() {
                lemma_joins_every_worker(old(self).workers());
            }
        }
        handles
    }
}

/// While every worker holds its handle, shutdown hands back one handle for
/// each worker: at place `i` the index and the handle of worker `i`.
pub proof fn lemma_joins_every_worker<H>(workers: Seq<Worker<H>>)
    requires
        forall|i: int| 0 <= i < workers.len() ==> (#[trigger] workers[i]).handler is Some,
    ensures
        joinable(workers).len() == workers.len(),
        forall|i: int|
            0 <= i < workers.len() ==> #[trigger] joinable(workers)[i] == (
                workers[i].id,
                workers[i].handler->0,
            ),
    decreases workers.len(),
{
    if workers.len() > 0 {
        let earlier = workers.drop_last();
        assert forall|i: int| 0 <= i < earlier.len() implies (#[trigger] earlier[i]).handler is Some by {
            assert(earlier[i] == workers[i]);
        }
        lemma_joins_every_worker(earlier);
        assert forall|i: int| 0 <= i < workers.len() implies #[trigger] joinable(workers)[i] == (
            workers[i].id,
            workers[i].handler->0,
        ) by {
            if i < earlier.len() {
                assert(joinable(workers)[i] == joinable(earlier)[i]);
                assert(earlier[i] == workers[i]);
            }
        }
    }
}

/// No handle is joined twice: once every worker's handle has been taken, as
/// after a shutdown, there is none left to hand back.
pub proof fn lemma_joins_nothing_twice<H>(workers: Seq<Worker<H>>)
    requires
        forall|i: int| 0 <= i < workers.len() ==> (#[trigger] workers[i]).handler is None,
    ensures
        joinable(workers) == Seq::<(usize, H)>::empty(),
    decreases workers.len(),
{
    if workers.len() > 0 {
        let earlier = workers.drop_last();
        assert forall|i: int| 0 <= i < earlier.len() implies (#[trigger] earlier[i]).handler is None by {
            assert(earlier[i] == workers[i]);
        }
        lemma_joins_nothing_twice(earlier);
    }
}

} // verus!
