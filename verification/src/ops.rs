//! Per-op metadata, metrics summaries, and the tracker of operations that
//! keep the event loop alive.
use vstd::prelude::*;
use std::sync::Arc;
use std::sync::atomic::AtomicUsize;
use std::sync::atomic::Ordering;

verus! {

/// Descriptions of an op for sanitizer output.
#[derive(Clone, Copy)]
pub struct OpMetadata {
    /// A description of the op for use in sanitizer output.
    pub sanitizer_details: Option<&'static str>,
    /// The fix for the issue described in `sanitizer_details`.
    pub sanitizer_fix: Option<&'static str>,
}

impl OpMetadata {
    /// Metadata with neither a description nor a fix.
    pub fn default() -> (r: Self)
        ensures
            r.sanitizer_details is None,
            r.sanitizer_fix is None,
    {
        OpMetadata { sanitizer_details: None, sanitizer_fix: None }
    }
}

/// The next value of a reference count that is released once: one less,
/// or `None` (no change) when it is already zero.
pub fn unref_step(x: usize) -> (r: Option<usize>)
    ensures
        r == (if x == 0 {
            None
        } else {
            Some((x - 1) as usize)
        }),
{
    if x == 0 {
        None
    } else {
        Some(x - 1)
    }
}

/// `AtomicUsize::fetch_update` with [`unref_step`]: releases one reference
/// unless the count is zero. The value seen depends on other threads, so no
/// result is stated.
#[verifier::external_body]
fn atomic_unref(counter: &AtomicUsize) {
    let _ = counter.fetch_update(Ordering::Relaxed, Ordering::Relaxed, |x| unref_step(x));
}

/// Counts the operations that an embedder keeps running outside the op
/// system and that should keep the event loop alive. Clones share the count.
#[derive(Clone)]
pub struct ExternalOpsTracker {
    counter: Arc<AtomicUsize>,
}

impl ExternalOpsTracker {
    /// A tracker with no operations.
    pub fn new() -> (r: Self) {
        ExternalOpsTracker { counter: Arc::new(AtomicUsize::new(0)) }
    }

    /// Records one more running operation.
    pub fn ref_op(&self) {
        self.counter.fetch_add(1, Ordering::Relaxed);
    }

    /// Records that an operation has finished; the count never drops below
    /// zero.
    pub fn unref_op(&self) {
        atomic_unref(&self.counter);
    }

    /// Whether any operation is recorded as running.
    pub fn has_pending_ops(&self) -> (r: bool) {
        self.counter.load(Ordering::Relaxed) > 0
    }
}


/// The op that is running, if any, for the re-entrancy check: its name.
pub struct CurrentOp {
    pub name: Option<&'static str>,
}

/// While held, marks an op as running; [`release`] clears the mark.
pub struct ReentrancyGuard {}

/// The re-entrancy check of an op named `name`: a re-entrant op is not
/// tracked; any other op becomes the running one and gets a guard. An op
/// that is not re-entrant must not start while another op runs (the check
/// panics then).
pub fn reentrancy_check(
    current: &mut CurrentOp,
    name: &'static str,
    is_reentrant: bool,
) -> (r: Option<ReentrancyGuard>)
    requires
        !is_reentrant ==> old(current).name is None,
    ensures
        is_reentrant ==> r is None && final(current).name == old(current).name,
        !is_reentrant ==> r is Some && final(current).name == Some(name),
{
    if is_reentrant {
        return None;
    }
    current.name = Some(name);
    Some(ReentrancyGuard {})
}

/// Drops the guard: no op is marked as running any more.
pub fn release(current: &mut CurrentOp, guard: ReentrancyGuard)
    ensures
        final(current).name is None,
{
    current.name = None;
}

/// The kind of an op metrics event.
#[derive(Copy, Clone, Debug, Eq, PartialEq, Structural)]
pub enum OpMetricsEvent {
    /// Entered an op dispatch.
    Dispatched,
    /// Left an op synchronously.
    Completed,
    /// Left an op asynchronously.
    CompletedAsync,
    /// Left an op synchronously with an exception.
    Error,
    /// Left an op asynchronously with an exception.
    ErrorAsync,
}

/// How an op was dispatched.
#[derive(Copy, Clone, Debug, Eq, PartialEq, Structural)]
pub enum OpMetricsSource {
    Slow,
    Fast,
    Async,
}

/// Counts of op dispatches and completions, for one op or in aggregate.
#[derive(Clone, Debug, PartialEq, Eq, Structural)]
pub struct OpMetricsSummary {
    /// The number of ops dispatched synchronously.
    pub ops_dispatched_sync: u64,
    /// The number of ops dispatched asynchronously.
    pub ops_dispatched_async: u64,
    /// The number of sync ops dispatched fast.
    pub ops_dispatched_fast: u64,
    /// The number of asynchronously dispatched ops completed.
    pub ops_completed_async: u64,
}

impl Default for OpMetricsSummary {
    fn default() -> (r: Self)
        ensures
            r.ops_dispatched_sync == 0,
            r.ops_dispatched_async == 0,
            r.ops_dispatched_fast == 0,
            r.ops_completed_async == 0,
    {
        OpMetricsSummary {
            ops_dispatched_sync: 0,
            ops_dispatched_async: 0,
            ops_dispatched_fast: 0,
            ops_completed_async: 0,
        }
    }
}

impl OpMetricsSummary {
    /// Whether some asynchronously dispatched ops have not completed yet.
    pub fn has_outstanding_ops(&self) -> (r: bool)
        ensures
            r == (self.ops_dispatched_async > self.ops_completed_async),
    {
        self.ops_dispatched_async > self.ops_completed_async
    }
}

} // verus!
