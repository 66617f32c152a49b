//! The job queue: an unbounded first-in-first-out transport with one producer
//! side that can be closed once.

use std::collections::VecDeque;
use vstd::prelude::*;

verus! {

/// What one attempt to take a job from the queue found.
pub enum Received<J> {
    /// The oldest pending job, now owned by the caller.
    Job(J),
    /// Nothing is pending, but the producer side is still present.
    Empty,
    /// Nothing is pending and the producer side is gone: end of stream.
    Disconnected,
}

/// An unbounded queue of jobs. It remembers, as ghost state, every job that
/// was ever sent and every job that was ever handed out.
pub struct JobQueue<J> {
    pending: VecDeque<J>,
    open: bool,
    submitted: Ghost<Seq<J>>,
    delivered: Ghost<Seq<J>>,
}

impl<J> JobQueue<J> {
    /// Nothing is lost, duplicated or reordered: the jobs sent so far are the
    /// jobs handed out so far followed by the jobs still pending.
    pub closed spec fn wf(&self) -> bool {
        self.submitted@ == self.delivered@ + self.pending@
    }

    /// The jobs waiting to be taken, oldest first.
    pub closed spec fn pending(&self) -> Seq<J> {
        self.pending@
    }

    /// Whether the producer side is still present.
    pub closed spec fn producer_present(&self) -> bool {
        self.open
    }

    /// Every job ever sent, in the order of sending.
    pub closed spec fn submitted(&self) -> Seq<J> {
        self.submitted@
    }

    /// Every job ever handed out, in the order of handing out.
    pub closed spec fn delivered(&self) -> Seq<J> {
        self.delivered@
    }

    /// A new queue: empty, with its producer side present.
    pub fn new() -> (queue: Self)
        ensures
            queue.wf(),
            queue.producer_present(),
            queue.pending() == Seq::<J>::empty(),
            queue.submitted() == Seq::<J>::empty(),
            queue.delivered() == Seq::<J>::empty(),
    {
        JobQueue {
            pending: VecDeque::new(),
            open: true,
            submitted: Ghost(Seq::empty()),
            delivered: Ghost(Seq::empty()),
        }
    }

    /// Whether the producer side is still present.
    pub fn is_open(&self) -> (open: bool)
        ensures
            open == self.producer_present(),
    {
        self.open
    }

    /// The number of pending jobs.
    pub fn len(&self) -> (n: usize)
        ensures
            n == self.pending().len(),
    {
        self.pending.len()
    }

    /// Appends one job behind all pending ones.
    pub fn send(&mut self, job: J)
        requires
            old(self).wf(),
            old(self).producer_present(),
        ensures
            final(self).wf(),
            final(self).producer_present(),
            final(self).pending() == old(self).pending().push(job),
            final(self).submitted() == old(self).submitted().push(job),
            final(self).delivered() == old(self).delivered(),
    {
        self.pending.push_back(job);
        self.submitted = Ghost(self.submitted@.push(job));
        assert(self.submitted@ =~= self.delivered@ + self.pending@);
    }

    /// Drops the producer side. Pending jobs stay; closing twice changes nothing.
    pub fn close(&mut self)
        requires
            old(self).wf(),
        ensures
            final(self).wf(),
            !final(self).producer_present(),
            final(self).pending() == old(self).pending(),
            final(self).submitted() == old(self).submitted(),
            final(self).delivered() == old(self).delivered(),
    {
        self.open = false;
    }

    /// Takes the oldest pending job, if there is one; otherwise says whether
    /// more may still come.
    pub fn receive(&mut self) -> (received: Received<J>)
        requires
            old(self).wf(),
        ensures
            final(self).wf(),
            final(self).producer_present() == old(self).producer_present(),
            final(self).submitted() == old(self).submitted(),
            match received {
                Received::Job(job) => {
                    &&& old(self).pending().len() > 0
                    &&& job == old(self).pending()[0]
                    &&& final(self).pending() == old(self).pending().drop_first()
                    &&& final(self).delivered() == old(self).delivered().push(job)
                },
                Received::Empty => {
                    &&& old(self).pending().len() == 0
                    &&& old(self).producer_present()
                    &&& final(self).pending() == old(self).pending()
                    &&& final(self).delivered() == old(self).delivered()
                },
                Received::Disconnected => {
                    &&& old(self).pending().len() == 0
                    &&& !old(self).producer_present()
                    &&& final(self).pending() == old(self).pending()
                    &&& final(self).delivered() == old(self).delivered()
                },
            },
    {
        match self.pending.pop_front() {
            Some(job) => {
                self.delivered = Ghost(self.delivered@.push(job));
                assert(self.pending@ =~= old(self).pending@.drop_first());
                assert(self.submitted@ =~= self.delivered@ + self.pending@);
                Received::Job(job)
            },
            None => {
                if self.open {
                    Received::Empty
                } else {
                    Received::Disconnected
                }
            },
        }
    }

    /// No job is lost, repeated or reordered: at every moment the jobs sent
    /// so far are exactly the jobs handed out so far, in the same order,
    /// followed by the jobs still pending.
    pub proof fn lemma_conserved(self)
        requires
            self.wf(),
        ensures
            self.submitted() == self.delivered() + self.pending(),
            self.submitted().len() == self.delivered().len() + self.pending().len(),
    {
    }

    /// Once nothing is pending, every job that was sent has been handed out
    /// exactly once, in the order of sending.
    pub proof fn lemma_drained(self)
        requires
            self.wf(),
            self.pending().len() == 0,
        ensures
            self.delivered() == self.submitted(),
    {
        assert(self.delivered() + self.pending() =~= self.delivered());
    }
}

} // verus!
