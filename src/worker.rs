use vstd::prelude::*;

use crate::message::{count_terminates, Message};

verus! {

/// Where a worker's loop stands: it takes messages while `Running`, and
/// `Terminated` is final.
#[derive(Clone, Copy, Debug, PartialEq, Eq, Structural)]
pub enum WorkerState {
    Running,
    Terminated,
}

/// What a worker does with the message it just dequeued.
pub enum WorkerAction<J> {
    /// Invoke this job once, then come back for the next message.
    Run(J),
    /// Leave the loop; the thread then returns.
    Exit,
}

/// How the invocation of a job ended.
#[derive(Clone, Copy, Debug, PartialEq, Eq, Structural)]
pub enum JobOutcome {
    Completed,
    /// The job raised a fault, caught at the worker's loop.
    Faulted,
}

/// The next state of a worker in `st` that dequeues `m`.
pub open spec fn step<J>(st: WorkerState, m: Message<J>) -> WorkerState {
    if m is Terminate {
        WorkerState::Terminated
    } else {
        st
    }
}

/// The state of a worker in `st` after it has dequeued every message of
/// `s`, in order.
pub open spec fn run<J>(st: WorkerState, s: Seq<Message<J>>) -> WorkerState
    decreases s.len(),
{
    if s.len() == 0 {
        st
    } else {
        step(run(st, s.drop_last()), s.last())
    }
}

/// The state of a worker's loop: its identifier, fixed at construction,
/// whether it still takes messages, and how many of its jobs faulted.
pub struct Worker {
    id: usize,
    state: WorkerState,
    faults: u64,
}

/// A worker seen from outside.
pub struct WorkerView {
    pub id: usize,
    pub state: WorkerState,
    pub faults: u64,
}

impl View for Worker {
    type V = WorkerView;

    closed spec fn view(&self) -> WorkerView {
        WorkerView { id: self.id, state: self.state, faults: self.faults }
    }
}

impl Worker {
    /// A running worker with identifier `id` and no fault seen.
    pub fn new(id: usize) -> (w: Worker)
        ensures
            w@ == (WorkerView { id, state: WorkerState::Running, faults: 0 }),
    {
        Worker { id, state: WorkerState::Running, faults: 0 }
    }

    pub fn id(&self) -> (r: usize)
        ensures
            r == self@.id,
    {
        self.id
    }

    /// Whether the worker still takes messages.
    pub fn is_running(&self) -> (r: bool)
        ensures
            r == (self@.state == WorkerState::Running),
    {
        self.state == WorkerState::Running
    }

    /// How many of this worker's jobs raised a fault.
    pub fn faults(&self) -> (r: u64)
        ensures
            r == self@.faults,
    {
        self.faults
    }

    /// Acts on a dequeued message: a job is handed back to be run and the
    /// worker keeps running; a stop order ends the loop.
    pub fn handle<J>(&mut self, m: Message<J>) -> (r: WorkerAction<J>)
        requires
            old(self)@.state == WorkerState::Running,
        ensures
            final(self)@.id == old(self)@.id,
            final(self)@.faults == old(self)@.faults,
            final(self)@.state == step(old(self)@.state, m),
            match m {
                Message::NewJob(j) => r == WorkerAction::Run(j),
                Message::Terminate => r is Exit,
            },
    {
        match m {
            Message::NewJob(j) => WorkerAction::Run(j),
            Message::Terminate => {
                self.state = WorkerState::Terminated;
                WorkerAction::Exit
            },
        }
    }

    /// Records how a job ended. A fault is counted (saturating at the
    /// largest `u64`) and the worker stays in its loop either way: a job's
    /// fault never takes a worker out of the pool.
    pub fn job_finished(&mut self, outcome: JobOutcome)
        ensures
            final(self)@.id == old(self)@.id,
            final(self)@.state == old(self)@.state,
            final(self)@.faults == if outcome == JobOutcome::Faulted {
                if old(self)@.faults == u64::MAX {
                    u64::MAX
                } else {
                    (old(self)@.faults + 1) as u64
                }
            } else {
                old(self)@.faults
            },
    {
        if outcome == JobOutcome::Faulted {
            self.faults = self.faults.saturating_add(1);
        }
    }
}

/// A running worker that dequeues the messages of `s` in turn stops exactly
/// when it has taken one stop order: it is still running after `s` if and
/// only if `s` holds none, and it never takes a second, since it stops
/// taking messages at the first.
pub proof fn lemma_one_stop_each<J>(s: Seq<Message<J>>)
    requires
        count_terminates(s.drop_last()) == 0 || s.len() == 0,
    ensures
        count_terminates(s) <= 1,
        (run(WorkerState::Running, s) == WorkerState::Running) <==> (count_terminates(s) == 0),
    decreases s.len(),
{
    if s.len() > 0 {
        lemma_running_without_stop(s.drop_last());
    }
}

/// Whether a worker could have dequeued the messages of `t` in turn: it
/// takes messages only while running, so no stop order but the last.
pub open spec fn took_while_running<J>(t: Seq<Message<J>>) -> bool {
    t.len() == 0 || count_terminates(t.drop_last()) == 0
}

/// How many stop orders the workers took between them, `takes[i]` being
/// the messages worker `i` dequeued.
pub open spec fn total_stops<J>(takes: Seq<Seq<Message<J>>>) -> nat
    decreases takes.len(),
{
    if takes.len() == 0 {
        0
    } else {
        total_stops(takes.drop_last()) + count_terminates(takes.last())
    }
}

/// When the workers of a pool, each taking messages only while running,
/// have taken between them as many stop orders as there are workers, each
/// worker took exactly one and has left its loop.
pub proof fn lemma_one_stop_per_worker<J>(takes: Seq<Seq<Message<J>>>)
    requires
        forall|i: int| 0 <= i < takes.len() ==> took_while_running(#[trigger] takes[i]),
        total_stops(takes) == takes.len(),
    ensures
        forall|i: int|
            0 <= i < takes.len() ==> count_terminates(#[trigger] takes[i]) == 1 && run(
                WorkerState::Running,
                takes[i],
            ) == WorkerState::Terminated,
    decreases takes.len(),
{
    if takes.len() > 0 {
        let init = takes.drop_last();
        assert forall|i: int| 0 <= i < init.len() implies took_while_running(#[trigger] init[i]) by {
            assert(init[i] == takes[i]);
        }
        lemma_total_stops_bound(init);
        lemma_one_stop_each(takes.last());
        lemma_one_stop_per_worker(init);
        assert forall|i: int| 0 <= i < takes.len() implies count_terminates(#[trigger] takes[i])
            == 1 && run(WorkerState::Running, takes[i]) == WorkerState::Terminated by {
            if i < init.len() {
                assert(init[i] == takes[i]);
            }
            lemma_one_stop_each(takes[i]);
        }
    }
}

/// Workers that take messages only while running take at most one stop
/// order each.
proof fn lemma_total_stops_bound<J>(takes: Seq<Seq<Message<J>>>)
    requires
        forall|i: int| 0 <= i < takes.len() ==> took_while_running(#[trigger] takes[i]),
    ensures
        total_stops(takes) <= takes.len(),
    decreases takes.len(),
{
    if takes.len() > 0 {
        let init = takes.drop_last();
        assert forall|i: int| 0 <= i < init.len() implies took_while_running(#[trigger] init[i]) by {
            assert(init[i] == takes[i]);
        }
        lemma_total_stops_bound(init);
        lemma_one_stop_each(takes.last());
    }
}

/// A running worker that sees no stop order keeps running.
proof fn lemma_running_without_stop<J>(s: Seq<Message<J>>)
    requires
        count_terminates(s) == 0,
    ensures
        run(WorkerState::Running, s) == WorkerState::Running,
    decreases s.len(),
{
    if s.len() > 0 {
        lemma_running_without_stop(s.drop_last());
    }
}

} // verus!
