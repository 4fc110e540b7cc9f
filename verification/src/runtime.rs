//! The cooperative runtime, as far as the transport needs it: a way to start
//! a task, a way to wait, and a monotonic clock.

use std::future::Future;
use std::time::Duration;
use vstd::prelude::*;

verus! {

/// A point in time on the monotonic clock, `instant::Instant`. Opaque.
#[verifier::external_type_specification]
#[verifier::external_body]
pub struct ExInstant(instant::Instant);

/// A point in time on the monotonic clock.
#[derive(Clone, Copy)]
pub struct RuntimeInstant(instant::Instant);

/// Reads the monotonic clock, in one way on every platform.
pub struct RuntimeInstantHandler {}

/// The time from one instant to another, as
/// `instant::Instant::saturating_duration_since` measures it: what has passed
/// from `earlier` to `later`, and nothing where `later` is not the later one.
/// It depends on the two instants alone.
pub uninterp spec fn span_between(earlier: RuntimeInstant, later: RuntimeInstant) -> Duration;

impl RuntimeInstantHandler {
    /// `instant::Instant::now`: the current point in time. It depends on the
    /// clock, so nothing is claimed of it.
    #[verifier::external_body]
    pub fn now() -> (instant: RuntimeInstant) {
        RuntimeInstant(instant::Instant::now())
    }

    /// The time that has passed since `instant`: from `instant` to the
    /// instant that the clock shows now.
    pub fn elapsed(instant: RuntimeInstant) -> (passed: Duration)
        ensures
            exists|now: RuntimeInstant| passed == #[trigger] span_between(instant, now),
    {
        let now = RuntimeInstantHandler::now();
        RuntimeInstantHandler::duration_between(instant, now)
    }

    /// `instant::Instant::saturating_duration_since`: the time from `earlier`
    /// to `later`, which is nothing where `later` is not the later one, on
    /// every platform. Instants are opaque, so the result is named, not
    /// written out.
    #[verifier::external_body]
    pub fn duration_between(earlier: RuntimeInstant, later: RuntimeInstant) -> (span: Duration)
        ensures
            span == span_between(earlier, later),
    {
        later.0.saturating_duration_since(earlier.0)
    }
}

/// What a host has to offer so that processors can run on it.
pub trait Runtime: Clone + Send + Sync {
    /// The wait that `sleep` returns.
    type Sleep: Future<Output = ()> + Send;

    /// Starts `future` as a task of its own.
    fn spawn<F>(&self, future: F) where F: Future<Output = ()> + Send + 'static;

    /// A wait that ends once `duration` has passed.
    fn sleep(&self, duration: Duration) -> Self::Sleep;
}

/// A host's runtime together with the clock: all that the reliability engine
/// asks of its surroundings.
pub struct RuntimeImpl<R> where R: Runtime {
    pub runtime: R,
}

impl<R> Clone for RuntimeImpl<R> where R: Runtime {
    fn clone(&self) -> Self {
        RuntimeImpl { runtime: self.runtime.clone() }
    }
}

impl<R> RuntimeImpl<R> where R: Runtime {
    /// The engine's runtime on top of the host's.
    pub fn new(runtime: R) -> (engine_runtime: Self)
        ensures
            engine_runtime.runtime == runtime,
    {
        RuntimeImpl { runtime }
    }

    /// Starts `future` as a task of the host's runtime.
    pub fn spawn<F>(&self, future: F) where F: Future<Output = ()> + Send + 'static {
        self.runtime.spawn(future)
    }

    /// The current point in time.
    pub fn now(&self) -> RuntimeInstant {
        RuntimeInstantHandler::now()
    }

    /// The time that has passed since `instant`: from `instant` to the
    /// instant that the clock shows now.
    pub fn elapsed(&self, instant: RuntimeInstant) -> (passed: Duration)
        ensures
            exists|now: RuntimeInstant| passed == #[trigger] span_between(instant, now),
    {
        RuntimeInstantHandler::elapsed(instant)
    }

    /// The time from `earlier` to `later`.
    pub fn duration_between(&self, earlier: RuntimeInstant, later: RuntimeInstant) -> (span:
        Duration)
        ensures
            span == span_between(earlier, later),
    {
        RuntimeInstantHandler::duration_between(earlier, later)
    }

    /// A wait of the host's runtime that ends once `duration` has passed:
    /// what the host's `sleep` gives for `duration`.
    pub fn sleep(&self, duration: Duration) -> (wait: R::Sleep)
        ensures
            call_ensures(R::sleep, (&self.runtime, duration), wait),
    {
        self.runtime.sleep(duration)
    }
}

} // verus!
