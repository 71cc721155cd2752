//! The trace access model: a wrapper of an access model that adds up, for
//! each operation, the time that the calls of it took.
//!
//! The counters are shared between threads and advisory: they are added to
//! with relaxed atomic additions, and a read of one may miss additions that
//! are under way.

use std::sync::atomic::AtomicU64;
use vstd::prelude::*;

verus! {

/// A reading of the monotonic clock of std, carried through as an opaque
/// value.
#[verifier::external_type_specification]
#[verifier::external_body]
pub struct ExInstant(std::time::Instant);

/// Calls `Instant::now` of std, which reads the clock. Nothing is claimed of
/// the reading.
#[verifier::external_body]
fn now() -> (instant: std::time::Instant) {
    std::time::Instant::now()
}

/// Calls `Instant::elapsed` of std: the time since the reading. Nothing is
/// claimed of it.
#[verifier::external_body]
fn elapsed_since(instant: &std::time::Instant) -> (elapsed: std::time::Duration) {
    instant.elapsed()
}

/// Calls `Duration::as_nanos` of std: the span of time in nanoseconds.
/// Nothing is claimed of it.
#[verifier::external_body]
fn as_nanos(elapsed: &std::time::Duration) -> (nanos: u128) {
    elapsed.as_nanos()
}

/// The number of traced operations.
pub const TRACED_OPERATIONS: usize = 7;

/// An operation of an access model whose time is traced.
#[derive(Debug, Clone, Copy, PartialEq, Eq, Structural)]
pub enum TraceOp {
    /// The time of the last change of a file.
    Mtime,
    /// Whether a path is a file.
    IsFile,
    /// The canonical path of a file.
    RealPath,
    /// The content of a file.
    ReadAll,
    /// The content of a file, computed from the cached content.
    ReadAllDiff,
    /// The content of a file, replaced and computed from the cached content.
    ReplaceDiff,
    /// Dropping all state.
    Clear,
}

impl TraceOp {
    /// The place of the operation's counter.
    pub open spec fn spec_index(&self) -> usize {
        match self {
            TraceOp::Mtime => 0,
            TraceOp::IsFile => 1,
            TraceOp::RealPath => 2,
            TraceOp::ReadAll => 3,
            TraceOp::ReadAllDiff => 4,
            TraceOp::ReplaceDiff => 5,
            TraceOp::Clear => 6,
        }
    }

    /// The place of the operation's counter.
    #[verifier::when_used_as_spec(spec_index)]
    pub fn index(&self) -> (index: usize)
        ensures
            index == self.spec_index(),
            index < TRACED_OPERATIONS,
    {
        match self {
            TraceOp::Mtime => 0,
            TraceOp::IsFile => 1,
            TraceOp::RealPath => 2,
            TraceOp::ReadAll => 3,
            TraceOp::ReadAllDiff => 4,
            TraceOp::ReplaceDiff => 5,
            TraceOp::Clear => 6,
        }
    }

    /// The name of the operation, as a trace line shows it.
    pub fn name(&self) -> (name: &'static str)
        ensures
            name@ == (match self {
                TraceOp::Mtime => "mtime"@,
                TraceOp::IsFile => "is_file"@,
                TraceOp::RealPath => "real_path"@,
                TraceOp::ReadAll => "read_all"@,
                TraceOp::ReadAllDiff => "read_all_diff"@,
                TraceOp::ReplaceDiff => "replace_diff"@,
                TraceOp::Clear => "clear"@,
            }),
    {
        match self {
            TraceOp::Mtime => "mtime",
            TraceOp::IsFile => "is_file",
            TraceOp::RealPath => "real_path",
            TraceOp::ReadAll => "read_all",
            TraceOp::ReadAllDiff => "read_all_diff",
            TraceOp::ReplaceDiff => "replace_diff",
            TraceOp::Clear => "clear",
        }
    }
}

/// What a counter is advanced by for a call that took `nanos` nanoseconds:
/// the low 64 bits of the count.
pub open spec fn counted_nanos(nanos: u128) -> u64 {
    (nanos % 0x1_0000_0000_0000_0000) as u64
}

/// What a counter is advanced by for a call that took `nanos` nanoseconds.
pub fn count_nanos(nanos: u128) -> (counted: u64)
    ensures
        counted == counted_nanos(nanos),
{
    let low: u128 = nanos % 0x1_0000_0000_0000_0000;
    low as u64
}

/// An access model together with the time that its operations took.
pub struct TraceAccessModel<M> {
    /// The access model that does the work.
    pub inner: M,
    trace: [AtomicU64; 7],
}

impl<M> TraceAccessModel<M> {
    /// The access model that is wrapped.
    pub closed spec fn wrapped(self) -> M {
        self.inner
    }

    /// Wraps `inner`, with every counter at zero.
    pub fn new(inner: M) -> (model: Self)
        ensures
            model.wrapped() == inner,
    {
        TraceAccessModel {
            inner,
            trace: [
                AtomicU64::new(0),
                AtomicU64::new(0),
                AtomicU64::new(0),
                AtomicU64::new(0),
                AtomicU64::new(0),
                AtomicU64::new(0),
                AtomicU64::new(0),
            ],
        }
    }

    /// Adds the time of one call of `op` to the operation's counter.
    pub fn record(&self, op: TraceOp, elapsed_nanos: u128) {
        let counted = count_nanos(elapsed_nanos);
        let index = op.index();
        self.trace[index].fetch_add(counted, std::sync::atomic::Ordering::Relaxed);
    }

    /// Runs `call` on the wrapped model as one call of `op`: reads the clock
    /// before and after, and adds the time between to the operation's
    /// counter. Returns what `call` returned, unchanged, and the time it
    /// took in nanoseconds.
    pub fn traced<R, F: FnOnce(&M) -> R>(&self, op: TraceOp, call: F) -> (outcome: (R, u128))
        requires
            call.requires((&self.wrapped(),)),
        ensures
            call.ensures((&self.wrapped(),), outcome.0),
    {
        let instant = now();
        let res = call(&self.inner);
        let elapsed = elapsed_since(&instant);
        let nanos = as_nanos(&elapsed);
        self.record(op, nanos);
        (res, nanos)
    }

    /// The time that the calls of `op` took so far, in nanoseconds.
    pub fn elapsed(&self, op: TraceOp) -> (nanos: u64) {
        let index = op.index();
        self.trace[index].load(std::sync::atomic::Ordering::Relaxed)
    }
}

} // verus!
