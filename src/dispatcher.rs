use vstd::prelude::*;

use crate::message::Message;
use crate::queue::MessageQueue;

verus! {

/// Why the pool refused a request.
#[derive(Clone, Copy, Debug, PartialEq, Eq, Structural)]
pub enum PoolError {
    /// A pool needs at least one worker.
    ZeroSize,
    /// Shutdown has begun: no job is taken any more.
    ShutDown,
}

/// The next thing the pool's owner does to shut the pool down.
#[derive(Clone, Copy, Debug, PartialEq, Eq, Structural)]
pub enum ShutdownAction {
    /// Put one stop order on the shared queue.
    SendTerminate,
    /// Wait for the worker with this index to return.
    Join(usize),
    /// Every worker has been joined.
    Done,
}

/// A dispatcher seen from outside: the pool's size, whether shutdown has
/// begun, how many stop orders went out and how many workers were joined.
pub struct DispatcherView {
    pub size: nat,
    pub closing: bool,
    pub terminates_sent: nat,
    pub joined: nat,
}

impl DispatcherView {
    /// The states a dispatcher can be in: stop orders go out before any
    /// join, one per worker, and each worker is joined once.
    pub open spec fn wf(self) -> bool {
        &&& self.size >= 1
        &&& self.terminates_sent <= self.size
        &&& self.joined <= self.size
        &&& self.joined > 0 ==> self.terminates_sent == self.size
        &&& !self.closing ==> self.terminates_sent == 0 && self.joined == 0
    }

    /// A dispatcher for `size` workers that has not begun shutdown.
    pub open spec fn fresh(size: nat) -> DispatcherView {
        DispatcherView { size, closing: false, terminates_sent: 0, joined: 0 }
    }

    /// The next shutdown action from this state.
    pub open spec fn next_action(self) -> ShutdownAction {
        if self.terminates_sent < self.size {
            ShutdownAction::SendTerminate
        } else if self.joined < self.size {
            ShutdownAction::Join(self.joined as usize)
        } else {
            ShutdownAction::Done
        }
    }

    /// The state after taking `next_action`.
    pub open spec fn next_state(self) -> DispatcherView {
        if self.terminates_sent < self.size {
            DispatcherView { closing: true, terminates_sent: self.terminates_sent + 1, ..self }
        } else if self.joined < self.size {
            DispatcherView { closing: true, joined: self.joined + 1, ..self }
        } else {
            DispatcherView { closing: true, ..self }
        }
    }

    /// The state after `k` shutdown steps.
    pub open spec fn after(self, k: nat) -> DispatcherView
        decreases k,
    {
        if k == 0 {
            self
        } else {
            self.after((k - 1) as nat).next_state()
        }
    }

    /// The action taken at step `k` of shutdown, counting from zero.
    pub open spec fn action_at(self, k: nat) -> ShutdownAction {
        self.after(k).next_action()
    }
}

/// The owner's side of a pool: its fixed size and where shutdown stands.
/// It decides whether a job is taken and, step by step, what shutdown does
/// next; sending on the queue and joining threads are left to the caller.
pub struct Dispatcher {
    size: usize,
    closing: bool,
    terminates_sent: usize,
    joined: usize,
}

impl View for Dispatcher {
    type V = DispatcherView;

    closed spec fn view(&self) -> DispatcherView {
        DispatcherView {
            size: self.size as nat,
            closing: self.closing,
            terminates_sent: self.terminates_sent as nat,
            joined: self.joined as nat,
        }
    }
}

impl Dispatcher {
    #[verifier::type_invariant]
    spec fn inv(&self) -> bool {
        self@.wf()
    }

    /// A dispatcher for `size` workers, or `ZeroSize` when `size` is zero.
    pub fn new(size: usize) -> (r: Result<Dispatcher, PoolError>)
        ensures
            size == 0 <==> r == Err::<Dispatcher, PoolError>(PoolError::ZeroSize),
            size > 0 <==> r is Ok,
            r is Ok ==> r->Ok_0@ == DispatcherView::fresh(size as nat),
    {
        if size == 0 {
            Err(PoolError::ZeroSize)
        } else {
            Ok(Dispatcher { size, closing: false, terminates_sent: 0, joined: 0 })
        }
    }

    /// The number of workers, fixed for the pool's life.
    pub fn size(&self) -> (r: usize)
        ensures
            r == self@.size,
            r >= 1,
    {
        proof {
            use_type_invariant(self);
        }
        self.size
    }

    /// Whether a job may be submitted: yes until shutdown begins, after
    /// that `ShutDown`.
    pub fn check_submit(&self) -> (r: Result<(), PoolError>)
        ensures
            !self@.closing <==> r is Ok,
            self@.closing <==> r == Err::<(), PoolError>(PoolError::ShutDown),
    {
        if self.closing {
            Err(PoolError::ShutDown)
        } else {
            Ok(())
        }
    }

    /// Submits `job`: while the pool is open it goes to the tail of `q`
    /// and `Ok` comes back; once shutdown has begun the queue is left as it
    /// was and `ShutDown` comes back.
    pub fn submit<J>(&self, q: &mut MessageQueue<J>, job: J) -> (r: Result<(), PoolError>)
        ensures
            !self@.closing <==> r is Ok,
            self@.closing <==> r == Err::<(), PoolError>(PoolError::ShutDown),
            r is Ok ==> final(q)@.received == old(q)@.received && final(q)@.pending == old(
                q,
            )@.pending.push(Message::NewJob(job)),
            r is Err ==> final(q)@ == old(q)@,
    {
        if self.closing {
            Err(PoolError::ShutDown)
        } else {
            q.send(Message::NewJob(job));
            Ok(())
        }
    }

    /// Whether every worker has been joined.
    pub fn is_finished(&self) -> (r: bool)
        ensures
            r == (self@.joined == self@.size),
    {
        self.joined == self.size
    }

    /// Takes one step of shutdown and says what to do: first one
    /// `SendTerminate` per worker, then `Join(0)`, `Join(1)`, ... in index
    /// order, then `Done` for good. The first step closes the pool to new
    /// jobs. Calling it again once `Done` changes nothing, so shutdown may
    /// be driven more than once.
    pub fn shutdown_step(&mut self) -> (r: ShutdownAction)
        ensures
            r == old(self)@.next_action(),
            final(self)@ == old(self)@.next_state(),
    {
        proof {
            use_type_invariant(&*self);
        }
        if self.terminates_sent < self.size {
            *self = Dispatcher { closing: true, terminates_sent: self.terminates_sent + 1, ..*self };
            ShutdownAction::SendTerminate
        } else if self.joined < self.size {
            let i = self.joined;
            *self = Dispatcher { closing: true, joined: i + 1, ..*self };
            ShutdownAction::Join(i)
        } else {
            *self = Dispatcher { closing: true, ..*self };
            ShutdownAction::Done
        }
    }
}

/// Shutdown of a pool of `n` workers, from a fresh dispatcher: step `k` is
/// `SendTerminate` for `k < n`, then `Join(k - n)` for `n <= k < 2n`, then
/// `Done` for ever after. So exactly `n` stop orders go out, all of them
/// before the first join, and each worker is joined once, in index order.
pub proof fn lemma_shutdown_order(n: nat, k: nat)
    requires
        n >= 1,
        n <= usize::MAX,
    ensures
        DispatcherView::fresh(n).action_at(k) == if k < n {
            ShutdownAction::SendTerminate
        } else if k < 2 * n {
            ShutdownAction::Join((k - n) as usize)
        } else {
            ShutdownAction::Done
        },
{
    lemma_state_after(n, k);
}

/// Where a fresh dispatcher of `n` workers stands after `k` steps.
proof fn lemma_state_after(n: nat, k: nat)
    requires
        n >= 1,
    ensures
        DispatcherView::fresh(n).after(k) == if k == 0 {
            DispatcherView::fresh(n)
        } else if k <= n {
            DispatcherView { size: n, closing: true, terminates_sent: k, joined: 0 }
        } else if k <= 2 * n {
            DispatcherView { size: n, closing: true, terminates_sent: n, joined: (k - n) as nat }
        } else {
            DispatcherView { size: n, closing: true, terminates_sent: n, joined: n }
        },
    decreases k,
{
    if k > 0 {
        lemma_state_after(n, (k - 1) as nat);
    }
}

} // verus!
