//! Load gates: when a responder asks for a cookie before it allocates state.

use std::sync::atomic::{AtomicUsize, Ordering};
use std::sync::Arc;
use vstd::prelude::*;

verus! {

/// Tells whether the responder is under load.
pub trait LoadGate: Send + Sync {
    /// Whether first handshake messages are to be challenged now.
    fn under_load(&self) -> bool;
}

/// Never under load.
pub struct AlwaysOpen;

impl LoadGate for AlwaysOpen {
    fn under_load(&self) -> (b: bool)
        ensures
            !b,
    {
        false
    }
}

/// Always under load: every first handshake message is challenged.
pub struct AlwaysUnderLoad;

impl LoadGate for AlwaysUnderLoad {
    fn under_load(&self) -> (b: bool)
        ensures
            b,
    {
        true
    }
}

/// Under load once `max_inflight` handshakes are in flight.
pub struct Threshold {
    /// The number of handshakes in flight from which on there is load.
    pub max_inflight: usize,
    /// How many handshakes are in flight.
    pub counter: Arc<AtomicUsize>,
}

/// Whether `counter` is what `AtomicUsize::new` makes of `n`.
pub open spec fn made_with(counter: AtomicUsize, n: usize) -> bool {
    call_ensures(AtomicUsize::new, (n,), counter)
}

/// Whether `fetch_add` of `n` to `counter` may have found `before` in it.
pub open spec fn added_to(counter: AtomicUsize, n: usize, before: usize) -> bool {
    call_ensures(AtomicUsize::fetch_add, (&counter, n, Ordering::Relaxed), before)
}

/// Whether `fetch_sub` of `n` from `counter` may have found `before` in it.
pub open spec fn taken_from(counter: AtomicUsize, n: usize, before: usize) -> bool {
    call_ensures(AtomicUsize::fetch_sub, (&counter, n, Ordering::Relaxed), before)
}

/// Whether a relaxed load of `counter` may yield `inflight`.
pub open spec fn may_read(counter: AtomicUsize, inflight: usize) -> bool {
    call_ensures(AtomicUsize::load, (&counter, Ordering::Relaxed), inflight)
}

/// Whether `inflight` handshakes reach the limit `max_inflight`.
pub fn threshold_reached(inflight: usize, max_inflight: usize) -> (b: bool)
    ensures
        b == (inflight >= max_inflight),
{
    inflight >= max_inflight
}

impl Threshold {
    /// A gate with the limit `max_inflight`, and the counter that it reads,
    /// which is made with zero. What it holds later is not part of the
    /// contract, since every owner may change it at any time.
    pub fn new(max_inflight: usize) -> (r: (Self, Arc<AtomicUsize>))
        ensures
            r.0.max_inflight == max_inflight,
            r.0.counter == r.1,
            made_with(*r.1, 0),
    {
        let atomic: AtomicUsize = AtomicUsize::new(0);
        assert(made_with(atomic, 0));
        let counter: Arc<AtomicUsize> = Arc::new(atomic);
        (Threshold { max_inflight, counter: counter.clone() }, counter)
    }

    /// Counts one more handshake in flight.
    pub fn increment(&self)
        ensures
            exists|before: usize| #[trigger] added_to(*self.counter, 1, before),
    {
        let before: usize = self.counter.fetch_add(1, Ordering::Relaxed);
        assert(added_to(*self.counter, 1, before));
    }

    /// Counts one handshake in flight less.
    pub fn decrement(&self)
        ensures
            exists|before: usize| #[trigger] taken_from(*self.counter, 1, before),
    {
        let before: usize = self.counter.fetch_sub(1, Ordering::Relaxed);
        assert(taken_from(*self.counter, 1, before));
    }
}

impl LoadGate for Threshold {
    /// Reads the counter once and compares what it held with the limit: there
    /// is load exactly when that many handshakes reach it. A limit of zero is
    /// always reached.
    fn under_load(&self) -> (b: bool)
        ensures
            exists|inflight: usize| #[trigger]
                may_read(*self.counter, inflight) && b == (inflight >= self.max_inflight),
    {
        let inflight: usize = self.counter.load(Ordering::Relaxed);
        assert(may_read(*self.counter, inflight));
        threshold_reached(inflight, self.max_inflight)
    }
}

/// The open gate never reports load, the closed one always does.
pub proof fn law_fixed_gates(open: bool, closed: bool)
    requires
        call_ensures(AlwaysOpen::under_load, (&AlwaysOpen,), open),
        call_ensures(AlwaysUnderLoad::under_load, (&AlwaysUnderLoad,), closed),
    ensures
        !open,
        closed,
{
}

/// There is load exactly when the limit is reached: by the limit itself, and not by
/// one less.
pub proof fn law_threshold_is_the_limit(inflight: usize, max_inflight: usize, b: bool)
    requires
        call_ensures(threshold_reached, (inflight, max_inflight), b),
    ensures
        inflight >= max_inflight <==> b,
{
}

/// A threshold counts from zero on the counter that it hands out, up and down by
/// one, and compares what it reads there with its limit.
pub proof fn law_threshold_counts(
    max_inflight: usize,
    r: (Threshold, Arc<AtomicUsize>),
    gate: &Threshold,
    b: bool,
)
    requires
        call_ensures(Threshold::new, (max_inflight,), r),
        call_ensures(Threshold::increment, (gate,), ()),
        call_ensures(Threshold::decrement, (gate,), ()),
        call_ensures(Threshold::under_load, (gate,), b),
    ensures
        r.0.max_inflight == max_inflight,
        r.0.counter == r.1,
        call_ensures(AtomicUsize::new, (0usize,), *r.1),
        exists|n: usize| #[trigger]
            call_ensures(AtomicUsize::fetch_add, (&*gate.counter, 1usize, Ordering::Relaxed), n),
        exists|n: usize| #[trigger]
            call_ensures(AtomicUsize::fetch_sub, (&*gate.counter, 1usize, Ordering::Relaxed), n),
        exists|n: usize| #[trigger]
            call_ensures(AtomicUsize::load, (&*gate.counter, Ordering::Relaxed), n) && (b <==> n
                >= gate.max_inflight),
{
    let up = choose|n: usize| #[trigger] added_to(*gate.counter, 1, n);
    assert(call_ensures(AtomicUsize::fetch_add, (&*gate.counter, 1usize, Ordering::Relaxed), up));
    let down = choose|n: usize| #[trigger] taken_from(*gate.counter, 1, n);
    assert(call_ensures(AtomicUsize::fetch_sub, (&*gate.counter, 1usize, Ordering::Relaxed), down));
    let read = choose|n: usize| #[trigger]
        may_read(*gate.counter, n) && b == (n >= gate.max_inflight);
    assert(call_ensures(AtomicUsize::load, (&*gate.counter, Ordering::Relaxed), read));
}

} // verus!
