//! The phases of an event loop iteration, after libuv's design, and the
//! queues of callbacks that the phases run.
use vstd::prelude::*;
use std::collections::VecDeque;

verus! {

/// The phases of one event loop iteration, in the order they run.
#[derive(Debug, Clone, Copy, PartialEq, Eq, Structural)]
pub enum EventLoopPhase {
    /// Expired timer callbacks (`setTimeout`, `setInterval`).
    Timers,
    /// I/O callbacks deferred from the previous iteration.
    PendingCallbacks,
    /// Internal idle hooks.
    Idle,
    /// Internal prepare hooks.
    Prepare,
    /// Polling for I/O completion and driving futures.
    Poll,
    /// `setImmediate` callbacks.
    Check,
    /// Resource cleanup callbacks.
    CloseCallbacks,
}

/// The phases in execution order.
pub open spec fn phase_order() -> Seq<EventLoopPhase> {
    seq![
        EventLoopPhase::Timers,
        EventLoopPhase::PendingCallbacks,
        EventLoopPhase::Idle,
        EventLoopPhase::Prepare,
        EventLoopPhase::Poll,
        EventLoopPhase::Check,
        EventLoopPhase::CloseCallbacks,
    ]
}

impl EventLoopPhase {
    /// All phases in execution order.
    pub fn all() -> (r: Vec<EventLoopPhase>)
        ensures
            r@ == phase_order(),
    {
        let r = vec![
            EventLoopPhase::Timers,
            EventLoopPhase::PendingCallbacks,
            EventLoopPhase::Idle,
            EventLoopPhase::Prepare,
            EventLoopPhase::Poll,
            EventLoopPhase::Check,
            EventLoopPhase::CloseCallbacks,
        ];
        assert(r@ =~= phase_order());
        r
    }
}

/// The callbacks that the phases of the event loop run: queues of one-shot
/// callbacks (pending I/O callbacks and close callbacks), drained in order,
/// and lists of observers that run on every iteration.
pub struct EventLoopPhases<C: FnOnce(), O: Fn()> {
    /// Callbacks deferred from the previous iteration.
    pub pending_callbacks: VecDeque<C>,
    /// Close callbacks.
    pub close_callbacks: VecDeque<C>,
    /// Idle observers.
    pub idle_observers: Vec<O>,
    /// Prepare observers.
    pub prepare_observers: Vec<O>,
    /// Check observers.
    pub check_observers: Vec<O>,
}

/// Every callback of `q` may be called.
pub open spec fn all_callable<C: FnOnce()>(q: Seq<C>) -> bool {
    forall|i: int| 0 <= i < q.len() ==> call_requires(#[trigger] q[i], ())
}

/// Every callback of `q` has run: what each one promises of its call holds.
pub open spec fn all_called<C: FnOnce()>(q: Seq<C>) -> bool {
    forall|i: int| 0 <= i < q.len() ==> call_ensures(#[trigger] q[i], (), ())
}

/// Every observer of `v` may be called.
pub open spec fn all_observable<O: Fn()>(v: Seq<O>) -> bool {
    forall|i: int| 0 <= i < v.len() ==> call_requires(#[trigger] v[i], ())
}

/// Every observer of `v` has run: what each one promises of a run holds.
pub open spec fn all_observed<O: Fn()>(v: Seq<O>) -> bool {
    forall|i: int| 0 <= i < v.len() ==> call_ensures(#[trigger] v[i], (), ())
}

impl<C: FnOnce(), O: Fn()> EventLoopPhases<C, O> {
    /// No callbacks and no observers.
    pub fn new() -> (r: Self)
        ensures
            r.pending_callbacks@ == Seq::<C>::empty(),
            r.close_callbacks@ == Seq::<C>::empty(),
            r.idle_observers@ == Seq::<O>::empty(),
            r.prepare_observers@ == Seq::<O>::empty(),
            r.check_observers@ == Seq::<O>::empty(),
    {
        EventLoopPhases {
            pending_callbacks: VecDeque::new(),
            close_callbacks: VecDeque::new(),
            idle_observers: Vec::new(),
            prepare_observers: Vec::new(),
            check_observers: Vec::new(),
        }
    }

    fn run_observers(observers: &Vec<O>)
        requires
            all_observable(observers@),
        ensures
            all_observed(observers@),
    {
        let mut i: usize = 0;
        while i < observers.len()
            invariant
                all_observable(observers@),
                i <= observers@.len(),
                forall|j: int| 0 <= j < i ==> call_ensures(#[trigger] observers@[j], (), ()),
            decreases observers.len() - i,
        {
            let observer = &observers[i];
            assert(call_requires(observers@[i as int], ()));
            observer();
            i = i + 1;
        }
    }

    fn drain_callbacks(queue: &mut VecDeque<C>)
        requires
            all_callable(old(queue)@),
        ensures
            final(queue)@ == Seq::<C>::empty(),
            all_called(old(queue)@),
    {
        let ghost orig = queue@;
        let ghost mut done: int = 0;
        loop
            invariant
                0 <= done <= orig.len(),
                queue@ == orig.subrange(done, orig.len() as int),
                all_callable(orig),
                forall|j: int| 0 <= j < done ==> call_ensures(#[trigger] orig[j], (), ()),
            ensures
                queue@ == Seq::<C>::empty(),
                all_called(orig),
            decreases queue@.len(),
        {
            let ghost q = queue@;
            match queue.pop_front() {
                Some(cb) => {
                    assert(q[0] == orig[done]);
                    assert(call_requires(orig[done], ()));
                    cb();
                    proof {
                        assert(queue@ =~= orig.subrange(done + 1, orig.len() as int));
                        done = done + 1;
                    }
                },
                None => {
                    assert(done == orig.len());
                    break;
                },
            }
        }
    }

    /// Runs every idle observer, in order.
    pub fn run_idle(&mut self)
        requires
            all_observable(old(self).idle_observers@),
        ensures
            *final(self) == *old(self),
            all_observed(old(self).idle_observers@),
    {
        Self::run_observers(&self.idle_observers);
    }

    /// Runs every prepare observer, in order.
    pub fn run_prepare(&mut self)
        requires
            all_observable(old(self).prepare_observers@),
        ensures
            *final(self) == *old(self),
            all_observed(old(self).prepare_observers@),
    {
        Self::run_observers(&self.prepare_observers);
    }

    /// Runs every check observer, in order.
    pub fn run_check(&mut self)
        requires
            all_observable(old(self).check_observers@),
        ensures
            *final(self) == *old(self),
            all_observed(old(self).check_observers@),
    {
        Self::run_observers(&self.check_observers);
    }

    /// Runs and removes every pending callback, oldest first.
    pub fn run_pending_callbacks(&mut self)
        requires
            all_callable(old(self).pending_callbacks@),
        ensures
            final(self).pending_callbacks@ == Seq::<C>::empty(),
            all_called(old(self).pending_callbacks@),
            final(self).close_callbacks == old(self).close_callbacks,
            final(self).idle_observers == old(self).idle_observers,
            final(self).prepare_observers == old(self).prepare_observers,
            final(self).check_observers == old(self).check_observers,
    {
        Self::drain_callbacks(&mut self.pending_callbacks);
    }

    /// Runs and removes every close callback, oldest first.
    pub fn run_close_callbacks(&mut self)
        requires
            all_callable(old(self).close_callbacks@),
        ensures
            final(self).close_callbacks@ == Seq::<C>::empty(),
            all_called(old(self).close_callbacks@),
            final(self).pending_callbacks == old(self).pending_callbacks,
            final(self).idle_observers == old(self).idle_observers,
            final(self).prepare_observers == old(self).prepare_observers,
            final(self).check_observers == old(self).check_observers,
    {
        Self::drain_callbacks(&mut self.close_callbacks);
    }

    /// Whether any queue or observer list is non-empty.
    pub fn has_pending_work(&self) -> (r: bool)
        ensures
            r == (self.pending_callbacks@.len() > 0 || self.close_callbacks@.len() > 0
                || self.idle_observers@.len() > 0 || self.prepare_observers@.len() > 0
                || self.check_observers@.len() > 0),
    {
        self.pending_callbacks.len() != 0 || self.close_callbacks.len() != 0
            || self.idle_observers.len() != 0 || self.prepare_observers.len() != 0
            || self.check_observers.len() != 0
    }
}

/// How the event loop runs, after libuv's `uv_run_mode`.
#[derive(Debug, Clone, Copy, PartialEq, Eq, Structural)]
pub enum RunMode {
    /// Run until there are no more active handles or requests.
    Default,
    /// Run a single iteration.
    Once,
    /// Run a single iteration without blocking for I/O.
    NoWait,
}

} // verus!
