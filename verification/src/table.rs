use vstd::prelude::*;

verus! {

// Each handle kind arrives with a table of host function pointers.  The
// tables are validated once, when the wrapper around the handle is built:
// a missing entry is a version-mismatch failure and is reported there,
// instead of surfacing as an undefined crash deep inside a later call.
// Here a table records, for every entry the wrapper will ever dispatch
// through, whether the host supplied it.

/// Presence of each required entry of a context handle's function table.
#[derive(Clone, Copy, PartialEq, Eq, Structural, Debug)]
pub struct ContextTable {
    /// Entry that appends one log record.
    pub trace: bool,
    /// Entry that reads the simulated process identity.
    pub get_process_id: bool,
    /// Entry that writes the simulated process identity.
    pub set_process_id: bool,
    /// Entry that reads the simulated clock.
    pub now: bool,
    /// Entry that draws the next deterministic 32-bit random value.
    pub rnd: bool,
    /// Entry that reads and consumes one configuration option.
    pub get_option: bool,
    /// Entry that reads this client's index.
    pub client_id: bool,
    /// Entry that reads the number of cooperating clients.
    pub client_count: bool,
    /// Entry that reads the run-wide shared random value.
    pub shared_random_number: bool,
}

impl ContextTable {
    /// Every required entry is present.
    pub open spec fn complete_spec(self) -> bool {
        &&& self.trace
        &&& self.get_process_id
        &&& self.set_process_id
        &&& self.now
        &&& self.rnd
        &&& self.get_option
        &&& self.client_id
        &&& self.client_count
        &&& self.shared_random_number
    }

    /// Decide whether every required entry is present.
    pub fn complete(&self) -> (r: bool)
        ensures
            r == self.complete_spec(),
    {
        self.trace && self.get_process_id && self.set_process_id && self.now && self.rnd
            && self.get_option && self.client_id && self.client_count
            && self.shared_random_number
    }
}

/// Presence of each required entry of a promise handle's function table.
#[derive(Clone, Copy, PartialEq, Eq, Structural, Debug)]
pub struct PromiseTable {
    /// Entry that resolves the promise.
    pub send: bool,
    /// Entry that releases the promise unresolved.
    pub free: bool,
}

impl PromiseTable {
    /// Every required entry is present.
    pub open spec fn complete_spec(self) -> bool {
        self.send && self.free
    }

    /// Decide whether every required entry is present.
    pub fn complete(&self) -> (r: bool)
        ensures
            r == self.complete_spec(),
    {
        self.send && self.free
    }
}

/// Presence of each required entry of a metrics handle's function table.
#[derive(Clone, Copy, PartialEq, Eq, Structural, Debug)]
pub struct MetricsTable {
    /// Entry that passes a capacity hint on.
    pub reserve: bool,
    /// Entry that appends one datapoint.
    pub push: bool,
}

impl MetricsTable {
    /// Every required entry is present.
    pub open spec fn complete_spec(self) -> bool {
        self.reserve && self.push
    }

    /// Decide whether every required entry is present.
    pub fn complete(&self) -> (r: bool)
        ensures
            r == self.complete_spec(),
    {
        self.reserve && self.push
    }
}

} // verus!
