use vstd::prelude::*;

verus! {

/// What travels through the shared queue: a unit of work for whichever
/// worker dequeues it, or the order for that worker to stop.
pub enum Message<J> {
    NewJob(J),
    Terminate,
}

impl<J> Message<J> {
    /// Whether this message orders its receiver to stop.
    pub fn is_terminate(&self) -> (r: bool)
        ensures
            r == (*self is Terminate),
    {
        match self {
            Message::NewJob(_) => false,
            Message::Terminate => true,
        }
    }
}

/// How many `Terminate` messages `s` holds.
pub open spec fn count_terminates<J>(s: Seq<Message<J>>) -> nat
    decreases s.len(),
{
    if s.len() == 0 {
        0
    } else {
        count_terminates(s.drop_last()) + if s.last() is Terminate {
            1nat
        } else {
            0nat
        }
    }
}

/// The jobs that `s` carries, in order, its stop orders left out.
pub open spec fn jobs_of<J>(s: Seq<Message<J>>) -> Seq<J>
    decreases s.len(),
{
    if s.len() == 0 {
        Seq::empty()
    } else {
        match s.last() {
            Message::NewJob(j) => jobs_of(s.drop_last()).push(j),
            Message::Terminate => jobs_of(s.drop_last()),
        }
    }
}

/// The messages that submitting `jobs` in order puts on the queue.
pub open spec fn job_messages<J>(jobs: Seq<J>) -> Seq<Message<J>> {
    jobs.map_values(|j: J| Message::NewJob(j))
}

/// `n` stop orders in a row.
pub open spec fn terminates<J>(n: nat) -> Seq<Message<J>> {
    Seq::new(n, |i: int| Message::<J>::Terminate)
}

} // verus!
