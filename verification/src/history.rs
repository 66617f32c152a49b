//! Whole lifetimes of a queue: what holds after any sequence of submissions,
//! polls by running workers and a close, however they interleave.

use crate::queue::JobQueue;
use crate::worker::Action;
use crate::worker::WorkerState;
use crate::worker::poll_delivered;
use crate::worker::poll_outcome;
use crate::worker::poll_pending;
use vstd::prelude::*;

verus! {

/// One thing that happens to a queue.
pub enum Event<J> {
    /// `JobQueue::send` with this job.
    Submit(J),
    /// `WorkerState::poll` by a running worker.
    Poll,
    /// `JobQueue::close`.
    Close,
}

/// A queue as `JobQueue::new` returns it.
pub open spec fn fresh<J>(queue: JobQueue<J>) -> bool {
    &&& queue.wf()
    &&& queue.producer_present()
    &&& queue.pending() == Seq::<J>::empty()
    &&& queue.submitted() == Seq::<J>::empty()
    &&& queue.delivered() == Seq::<J>::empty()
}

/// Whether `event` takes the queue from `before` to `after`: for each event,
/// what the function it stands for ensures.
pub open spec fn follows<J>(before: JobQueue<J>, event: Event<J>, after: JobQueue<J>) -> bool {
    &&& before.wf()
    &&& after.wf()
    &&& match event {
        Event::Submit(job) => {
            &&& before.producer_present()
            &&& after.producer_present()
            &&& after.pending() == before.pending().push(job)
            &&& after.submitted() == before.submitted().push(job)
            &&& after.delivered() == before.delivered()
        },
        Event::Poll => {
            &&& after.producer_present() == before.producer_present()
            &&& after.pending() == poll_pending(WorkerState::Running, before)
            &&& after.submitted() == before.submitted()
            &&& after.delivered() == poll_delivered(WorkerState::Running, before)
        },
        Event::Close => {
            &&& !after.producer_present()
            &&& after.pending() == before.pending()
            &&& after.submitted() == before.submitted()
            &&& after.delivered() == before.delivered()
        },
    }
}

/// Whether `states` is a lifetime of a queue under `events`: it starts fresh,
/// and each event leads from one state to the next.
pub open spec fn is_history<J>(states: Seq<JobQueue<J>>, events: Seq<Event<J>>) -> bool {
    &&& states.len() == events.len() + 1
    &&& fresh(states[0])
    &&& forall|i: int| 0 <= i < events.len() ==> #[trigger] follows(states[i], events[i], states[i + 1])
}

/// The jobs submitted by `events`, in order.
pub open spec fn submissions<J>(events: Seq<Event<J>>) -> Seq<J>
    decreases events.len(),
{
    if events.len() == 0 {
        Seq::empty()
    } else {
        let earlier = submissions(events.drop_last());
        match events.last() {
            Event::Submit(job) => earlier.push(job),
            _ => earlier,
        }
    }
}

/// The jobs that the polls among `events` told their workers to run, in
/// order, where `states[i]` is the queue that event `i` found.
pub open spec fn runs<J>(states: Seq<JobQueue<J>>, events: Seq<Event<J>>) -> Seq<J>
    decreases events.len(),
{
    if events.len() == 0 || states.len() != events.len() + 1 {
        Seq::empty()
    } else {
        let earlier = runs(states.drop_last(), events.drop_last());
        match (events.last(), poll_outcome(WorkerState::Running, states[events.len() - 1]).1) {
            (Event::Poll, Action::Run(job)) => earlier.push(job),
            _ => earlier,
        }
    }
}

/// Over any lifetime of a queue, the jobs that workers were told to run
/// followed by the jobs still pending are exactly the jobs submitted, each
/// once and in the order of submission. So when a running worker is told to
/// stop, every job submitted has been run exactly once.
pub proof fn lemma_every_job_runs_once<J>(states: Seq<JobQueue<J>>, events: Seq<Event<J>>)
    requires
        is_history(states, events),
    ensures
        states.last().wf(),
        states.last().submitted() == submissions(events),
        states.last().delivered() == runs(states, events),
        runs(states, events) + states.last().pending() == submissions(events),
        poll_outcome(WorkerState::Running, states.last()).0 == WorkerState::Stopped ==> runs(
            states,
            events,
        ) == submissions(events),
    decreases events.len(),
{
    if events.len() > 0 {
        let n = events.len() - 1;
        let earlier_states = states.drop_last();
        let earlier_events = events.drop_last();
        assert(is_history(earlier_states, earlier_events)) by {
            assert forall|i: int| 0 <= i < earlier_events.len() implies #[trigger] follows(
                earlier_states[i],
                earlier_events[i],
                earlier_states[i + 1],
            ) by {
                assert(follows(states[i], events[i], states[i + 1]));
            }
        }
        lemma_every_job_runs_once(earlier_states, earlier_events);
        assert(earlier_states.last() == states[n]);
        assert(follows(states[n], events[n], states[n + 1]));
    }
    let last = states.last();
    if events.len() == 0 {
        assert(last == states[0]);
    }
    last.lemma_conserved();
    if last.pending().len() == 0 {
        last.lemma_drained();
    }
}

} // verus!
