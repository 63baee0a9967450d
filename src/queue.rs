use std::collections::VecDeque;
use vstd::prelude::*;

use crate::message::{count_terminates, job_messages, jobs_of, terminates, Message};

verus! {

/// What a queue has seen: the messages already handed to a receiver, in
/// the order they left, and those still waiting, head first.
pub struct QueueView<J> {
    pub received: Seq<Message<J>>,
    pub pending: Seq<Message<J>>,
}

impl<J> QueueView<J> {
    /// Every message ever sent, in the order it was sent.
    pub open spec fn sent(self) -> Seq<Message<J>> {
        self.received + self.pending
    }
}

/// The unbounded FIFO of control messages shared by all workers. A send
/// appends at the tail, a receive takes the head: each message leaves
/// exactly once, in the order it came in. Mutual exclusion between the
/// threads that share it is the holder's business.
pub struct MessageQueue<J> {
    pending: VecDeque<Message<J>>,
    received: Ghost<Seq<Message<J>>>,
}

impl<J> View for MessageQueue<J> {
    type V = QueueView<J>;

    closed spec fn view(&self) -> QueueView<J> {
        QueueView { received: self.received@, pending: self.pending@ }
    }
}

impl<J> MessageQueue<J> {
    /// An empty queue that has seen nothing.
    pub fn new() -> (q: Self)
        ensures
            q@.received.len() == 0,
            q@.pending.len() == 0,
    {
        MessageQueue { pending: VecDeque::new(), received: Ghost(Seq::empty()) }
    }

    /// Appends `m` at the tail. Never blocks and never fails.
    pub fn send(&mut self, m: Message<J>)
        ensures
            final(self)@.received == old(self)@.received,
            final(self)@.pending == old(self)@.pending.push(m),
            final(self)@.sent() == old(self)@.sent().push(m),
    {
        self.pending.push_back(m);
        assert(self@.sent() =~= old(self)@.sent().push(m));
    }

    /// Takes the head of the queue, or `None` when nothing is waiting (the
    /// caller then waits for a send).
    pub fn receive(&mut self) -> (r: Option<Message<J>>)
        ensures
            final(self)@.sent() == old(self)@.sent(),
            old(self)@.pending.len() == 0 ==> r is None && final(self)@ == old(self)@,
            old(self)@.pending.len() > 0 ==> r == Some(old(self)@.pending[0])
                && final(self)@.received == old(self)@.received.push(old(self)@.pending[0])
                && final(self)@.pending == old(self)@.pending.drop_first(),
    {
        let r = self.pending.pop_front();
        match &r {
            Some(m) => {
                self.received = Ghost(self.received@.push(*m));
                assert(self@.sent() =~= old(self)@.sent());
            },
            None => {},
        }
        r
    }

    /// How many messages are waiting.
    pub fn len(&self) -> (r: usize)
        ensures
            r == self@.pending.len(),
    {
        self.pending.len()
    }

    /// Whether no message is waiting.
    pub fn is_empty(&self) -> (r: bool)
        ensures
            r == (self@.pending.len() == 0),
    {
        self.pending.len() == 0
    }
}

/// Messages leave in the order they were sent: whatever has been received
/// is the first part of what was sent, so the `i`-th message received is
/// the `i`-th one sent, and none is skipped or received twice.
pub proof fn lemma_receive_order<J>(v: QueueView<J>)
    ensures
        v.received.len() <= v.sent().len(),
        forall|i: int| 0 <= i < v.received.len() ==> v.received[i] == #[trigger] v.sent()[i],
        v.sent().skip(v.received.len() as int) == v.pending,
{
    assert(v.sent().skip(v.received.len() as int) =~= v.pending);
}

/// When the jobs were all sent before the `n` stop orders (one for each of
/// at least one worker), by the time `n`
/// stop orders have been received every job has been received too, exactly
/// once and in the order of submission, and nothing is left waiting: the
/// jobs that left the queue are the jobs submitted.
pub proof fn lemma_jobs_drained_before_stop<J>(v: QueueView<J>, jobs: Seq<J>, n: nat)
    requires
        n > 0,
        v.sent() == job_messages(jobs) + terminates::<J>(n),
        count_terminates(v.received) == n,
    ensures
        v.received == v.sent(),
        v.pending.len() == 0,
        v.received.take(jobs.len() as int) == job_messages(jobs),
        jobs_of(v.received) == jobs,
{
    let s = v.sent();
    let m = jobs.len();
    lemma_receive_order(v);
    lemma_count_in_prefix(jobs, n, v.received.len());
    assert(s.len() == m + n);
    if v.received.len() < s.len() {
        assert(count_terminates(s.take(v.received.len() as int)) < n);
        assert(v.received =~= s.take(v.received.len() as int));
        assert(false);
    }
    assert(v.received =~= s);
    assert(v.received.take(m as int) =~= job_messages(jobs));
    lemma_jobs_of_submitted(jobs, n);
}

/// The jobs carried by `jobs ++ n stop orders` are `jobs`.
proof fn lemma_jobs_of_submitted<J>(jobs: Seq<J>, n: nat)
    ensures
        jobs_of(job_messages(jobs) + terminates::<J>(n)) == jobs,
    decreases jobs.len() + n,
{
    let s = job_messages(jobs) + terminates::<J>(n);
    if n > 0 {
        assert(s.drop_last() =~= job_messages(jobs) + terminates::<J>((n - 1) as nat));
        lemma_jobs_of_submitted(jobs, (n - 1) as nat);
    } else if jobs.len() > 0 {
        assert(s.drop_last() =~= job_messages(jobs.drop_last()) + terminates::<J>(0));
        lemma_jobs_of_submitted(jobs.drop_last(), 0);
        assert(jobs =~= jobs.drop_last().push(jobs.last()));
    } else {
        assert(s =~= Seq::<Message<J>>::empty());
    }
}

/// In `jobs ++ n stop orders`, a prefix of length `k` past the jobs holds
/// `k - |jobs|` stop orders, and one within the jobs holds none.
proof fn lemma_count_in_prefix<J>(jobs: Seq<J>, n: nat, k: nat)
    requires
        k <= jobs.len() + n,
    ensures
        count_terminates((job_messages(jobs) + terminates::<J>(n)).take(k as int)) == if k
            <= jobs.len() {
            0
        } else {
            (k - jobs.len()) as nat
        },
    decreases k,
{
    let s = job_messages(jobs) + terminates::<J>(n);
    if k > 0 {
        let p = s.take(k as int);
        assert(p.drop_last() =~= s.take(k - 1));
        lemma_count_in_prefix(jobs, n, (k - 1) as nat);
        assert(s[k - 1] == p.last());
        if k <= jobs.len() {
            assert(s[k - 1] == job_messages(jobs)[k - 1]);
        } else {
            assert(s[k - 1] == terminates::<J>(n)[k - 1 - jobs.len()]);
        }
    }
}

} // verus!
