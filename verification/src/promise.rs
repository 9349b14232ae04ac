use vstd::prelude::*;

use crate::error::BridgeError;
use crate::table::PromiseTable;

verus! {

// A promise is a one-shot completion token.  The host resource behind it
// must be finalized exactly once over its whole life: either resolved with
// a payload, or released unresolved.  The wrapper makes a second transition
// impossible to express by consuming ownership, and the explicit state
// machine below makes the once-only guarantee a proved statement rather
// than a convention.

/// The lifecycle of one host promise resource.
#[derive(Clone, Copy, PartialEq, Eq, Structural, Debug)]
pub enum Lifecycle {
    /// Neither resolved nor released yet.
    Pending,
    /// Resolved with a payload; terminal.
    Resolved,
    /// Released unresolved; terminal.
    Released,
}

/// A transition requested of a promise resource.
#[derive(Clone, Copy, PartialEq, Eq, Structural, Debug)]
pub enum PromiseEvent {
    /// Resolve, carrying the payload handed to the host.
    Send(bool),
    /// Release unresolved.
    Free,
}

/// The state after requesting `e` in state `s`: only a pending promise
/// moves, and any transition out of `Pending` is terminal.
pub open spec fn step(s: Lifecycle, e: PromiseEvent) -> Lifecycle {
    if s is Pending {
        match e {
            PromiseEvent::Send(_) => Lifecycle::Resolved,
            PromiseEvent::Free => Lifecycle::Released,
        }
    } else {
        s
    }
}

/// Whether requesting `e` in state `s` is accepted, i.e. runs the host's
/// resolve or free function.
pub open spec fn step_accepted(s: Lifecycle, e: PromiseEvent) -> bool {
    s is Pending
}

/// The state after requesting every event of `evs` in order from `s`.
pub open spec fn run(s: Lifecycle, evs: Seq<PromiseEvent>) -> Lifecycle
    decreases evs.len(),
{
    if evs.len() == 0 {
        s
    } else {
        run(step(s, evs[0]), evs.subrange(1, evs.len() as int))
    }
}

/// How many events of `evs` are accepted, i.e. how often a host finalizer
/// (resolve or free) runs, when they are requested in order from `s`.
pub open spec fn finalizations(s: Lifecycle, evs: Seq<PromiseEvent>) -> nat
    decreases evs.len(),
{
    if evs.len() == 0 {
        0
    } else {
        (if step_accepted(s, evs[0]) {
            1nat
        } else {
            0nat
        }) + finalizations(step(s, evs[0]), evs.subrange(1, evs.len() as int))
    }
}

/// How many events of `evs` are accepted resolutions when they are
/// requested in order from `s`.
pub open spec fn resolutions(s: Lifecycle, evs: Seq<PromiseEvent>) -> nat
    decreases evs.len(),
{
    if evs.len() == 0 {
        0
    } else {
        (if step_accepted(s, evs[0]) && evs[0] is Send {
            1nat
        } else {
            0nat
        }) + resolutions(step(s, evs[0]), evs.subrange(1, evs.len() as int))
    }
}

/// A terminal state absorbs every later event: nothing is accepted, no
/// finalizer runs again, and the state never changes.
pub proof fn lemma_terminal_absorbs(s: Lifecycle, evs: Seq<PromiseEvent>)
    requires
        !(s is Pending),
    ensures
        run(s, evs) == s,
        finalizations(s, evs) == 0,
        resolutions(s, evs) == 0,
    decreases evs.len(),
{
    if evs.len() > 0 {
        lemma_terminal_absorbs(s, evs.subrange(1, evs.len() as int));
    }
}

/// Single resolution: whatever sequence of transitions is requested of a
/// fresh promise, at most one resolution is ever accepted.
pub proof fn lemma_single_resolution(evs: Seq<PromiseEvent>)
    ensures
        resolutions(Lifecycle::Pending, evs) <= 1,
{
    if evs.len() > 0 {
        lemma_terminal_absorbs(step(Lifecycle::Pending, evs[0]), evs.subrange(1, evs.len() as int));
    }
}

/// Finalize exactly once: whatever sequence of transitions is requested of
/// a fresh promise, the host finalizer runs at most once; it runs exactly
/// once precisely when the promise leaves `Pending`, which any first
/// request does.
pub proof fn lemma_finalize_exactly_once(evs: Seq<PromiseEvent>)
    ensures
        finalizations(Lifecycle::Pending, evs) <= 1,
        finalizations(Lifecycle::Pending, evs) == 1 <==> !(run(Lifecycle::Pending, evs)
            is Pending),
        evs.len() > 0 ==> finalizations(Lifecycle::Pending, evs) == 1,
{
    if evs.len() > 0 {
        lemma_terminal_absorbs(step(Lifecycle::Pending, evs[0]), evs.subrange(1, evs.len() as int));
    }
}

/// The host-side state of one promise resource, with a count of how often
/// its finalizer (resolve or free) has run.
pub struct HostPromise {
    /// Where the resource stands in its lifecycle.
    pub state: Lifecycle,
    /// How often a host finalizer has run for it.
    pub finalizations: u64,
}

impl HostPromise {
    /// A resource is consistent when the finalizer has run exactly once
    /// if and only if it left `Pending`.
    pub open spec fn wf(self) -> bool {
        self.finalizations == (if self.state is Pending {
            0int
        } else {
            1int
        })
    }

    /// A fresh, pending resource.
    pub fn new() -> (p: HostPromise)
        ensures
            p.state is Pending,
            p.finalizations == 0,
            p.wf(),
    {
        HostPromise { state: Lifecycle::Pending, finalizations: 0 }
    }

    /// Request one transition.  A pending resource moves and its finalizer
    /// runs once; a finished one rejects the request unchanged.
    pub fn apply(&mut self, e: PromiseEvent) -> (r: Result<(), BridgeError>)
        requires
            old(self).wf(),
        ensures
            final(self).wf(),
            final(self).state == step(old(self).state, e),
            r is Ok <==> step_accepted(old(self).state, e),
            r is Err ==> *final(self) == *old(self) && r == Err::<(), BridgeError>(
                BridgeError::PromiseAlreadyFinished,
            ),
            r is Ok ==> final(self).finalizations == old(self).finalizations + 1,
    {
        match self.state {
            Lifecycle::Pending => {
                self.state = match e {
                    PromiseEvent::Send(_) => Lifecycle::Resolved,
                    PromiseEvent::Free => Lifecycle::Released,
                };
                self.finalizations = self.finalizations + 1;
                Ok(())
            },
            _ => Err(BridgeError::PromiseAlreadyFinished),
        }
    }
}

/// A one-shot completion token handed to the workload by the host.
///
/// The wrapper owns a pending resource for its whole life; both ways out,
/// `send` and `release`, consume the wrapper, so a second transition on the
/// same logical promise cannot even be written down.
pub struct Promise {
    cell: HostPromise,
}

impl Promise {
    #[verifier::type_invariant]
    spec fn inv(self) -> bool {
        self.cell.state is Pending && self.cell.finalizations == 0
    }

    /// Wrap a fresh promise handle, validating its function table once
    /// here; a table with an absent entry never yields a usable promise.
    pub fn new(table: PromiseTable) -> (r: Result<Promise, BridgeError>)
        ensures
            r is Ok <==> table.complete_spec(),
            r is Err ==> r == Err::<Promise, BridgeError>(BridgeError::MissingTableEntry),
    {
        if table.complete() {
            Ok(Promise { cell: HostPromise::new() })
        } else {
            Err(BridgeError::MissingTableEntry)
        }
    }

    /// Resolve the promise with `value`, consuming it.
    ///
    /// The host disregards the payload's content; only the transition to
    /// `Resolved` matters.  The returned resource state witnesses that the
    /// finalizer ran exactly once.
    pub fn send(self, value: bool) -> (fate: HostPromise)
        ensures
            fate.state is Resolved,
            fate.finalizations == 1,
            fate.wf(),
    {
        proof {
            use_type_invariant(&self);
        }
        let Promise { mut cell } = self;
        let _ = cell.apply(PromiseEvent::Send(value));
        cell
    }

    /// Release the promise unresolved, consuming it.
    ///
    /// This is the path a discarded promise takes; the returned resource
    /// state witnesses that the finalizer still ran exactly once.
    pub fn release(self) -> (fate: HostPromise)
        ensures
            fate.state is Released,
            fate.finalizations == 1,
            fate.wf(),
    {
        proof {
            use_type_invariant(&self);
        }
        let Promise { mut cell } = self;
        let _ = cell.apply(PromiseEvent::Free);
        cell
    }
}

} // verus!
