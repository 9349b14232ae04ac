use vstd::prelude::*;

use crate::decode::OptionValue;
use crate::error::BridgeError;
use crate::marshal::{copy_bytes, str_for_c, text_ok};
use crate::options::{entries_text_ok, keys_distinct, map_of, OptionRegistry};
use crate::severity::Severity;
use crate::table::ContextTable;

verus! {

// The workload context is the facade a workload programs against: tracing,
// process identity, deterministic randomness, consumable configuration
// options and client topology.  It wraps the context handle the host
// supplies, validates the handle's function table once at construction,
// and models the host-side state that its calls read and change.

/// One structured log entry as the host receives it: the severity's
/// boundary code and every text marshaled as a null-terminated buffer.
pub struct TraceRecord {
    /// The severity's boundary code.
    pub severity: u32,
    /// The marshaled entry name.
    pub name_c: Vec<u8>,
    /// The marshaled detail pairs, in call order.
    pub pairs_c: Vec<(Vec<u8>, Vec<u8>)>,
}

/// The mathematical image of a `TraceRecord`.
pub struct TraceRecordImage {
    /// The severity's boundary code.
    pub severity: u32,
    /// The marshaled entry name.
    pub name_c: Seq<u8>,
    /// The marshaled detail pairs, in call order.
    pub pairs_c: Seq<(Seq<u8>, Seq<u8>)>,
}

impl View for TraceRecord {
    type V = TraceRecordImage;

    open spec fn view(&self) -> TraceRecordImage {
        TraceRecordImage {
            severity: self.severity,
            name_c: self.name_c@,
            pairs_c: self.pairs_c@.map_values(|p: (Vec<u8>, Vec<u8>)| (p.0@, p.1@)),
        }
    }
}

/// The record the host receives for one trace call: the severity encoded,
/// the name and every detail pair null-terminated, order kept.
pub open spec fn trace_record(severity: Severity, name: Seq<u8>, details: Seq<(Vec<u8>, Vec<u8>)>)
    -> TraceRecordImage {
    TraceRecordImage {
        severity: severity.code_spec(),
        name_c: name.push(0u8),
        pairs_c: Seq::new(
            details.len(),
            |i: int| (details[i].0@.push(0u8), details[i].1@.push(0u8)),
        ),
    }
}

/// The host-side state visible through one context.
pub struct ContextImage {
    /// The options still configured and unread.
    pub options: Map<Seq<u8>, Seq<u8>>,
    /// The simulated process identity.
    pub process_id: u64,
    /// This client's index within the run.
    pub client_id: i32,
    /// How many clients cooperate on the workload in this run.
    pub client_count: i32,
    /// The value drawn once and shared by every client of the run.
    pub shared_random: i64,
    /// The state of the deterministic random sequence.
    pub rng_state: u32,
    /// Every log record the host has received, in call order.
    pub log: Seq<TraceRecordImage>,
    /// Whether a run-ending trace has been issued.
    pub failed: bool,
}

/// The host-side state a fresh context starts from.
pub struct HostFixture {
    /// The configured options, as name/value pairs.
    pub options: Vec<(Vec<u8>, Vec<u8>)>,
    /// The simulated process identity.
    pub process_id: u64,
    /// This client's index within the run.
    pub client_id: i32,
    /// How many clients cooperate on the workload in this run.
    pub client_count: i32,
    /// The value drawn once and shared by every client of the run.
    pub shared_random: i64,
    /// The seed of the deterministic random sequence.
    pub rng_seed: u32,
}

/// The facade a workload programs against, wrapping the context handle.
pub struct WorkloadContext {
    options: OptionRegistry,
    process_id: u64,
    client_id: i32,
    client_count: i32,
    shared_random: i64,
    rng_state: u32,
    log: Vec<TraceRecord>,
    failed: bool,
}

impl View for WorkloadContext {
    type V = ContextImage;

    closed spec fn view(&self) -> ContextImage {
        ContextImage {
            options: self.options@,
            process_id: self.process_id,
            client_id: self.client_id,
            client_count: self.client_count,
            shared_random: self.shared_random,
            rng_state: self.rng_state,
            log: self.log@.map_values(|t: TraceRecord| t@),
            failed: self.failed,
        }
    }
}

/// The next state of the deterministic random sequence.
pub open spec fn rnd_step(s: u32) -> u32 {
    (((s as int) * 1664525 + 1013904223) % 4294967296) as u32
}

/// What a consuming read of `name` finds: the configured value, unless the
/// name is unconfigured or configured as the empty text, which is the
/// boundary's absence sentinel.
pub open spec fn raw_outcome(m: Map<Seq<u8>, Seq<u8>>, name: Seq<u8>) -> Option<Seq<u8>> {
    if m.contains_key(name) && m[name].len() > 0 {
        Some(m[name])
    } else {
        None
    }
}

/// What a typed read of `name` returns: the decoded value, with both an
/// absent name and text that fails to decode yielding absence.
pub open spec fn option_outcome<T: OptionValue>(m: Map<Seq<u8>, Seq<u8>>, name: Seq<u8>) -> Option<
    T,
> {
    match raw_outcome(m, name) {
        Some(v) => T::decode_spec(v),
        None => None,
    }
}

impl WorkloadContext {
    /// The context's internal well-formedness.
    pub closed spec fn inv(self) -> bool {
        self.options.inv()
    }

    /// Wrap the context handle the host supplies, validating its function
    /// table and its option fixture once, before any call is dispatched.
    pub fn new(table: ContextTable, host: HostFixture) -> (r: Result<WorkloadContext, BridgeError>)
        ensures
            match r {
                Ok(c) => {
                    &&& table.complete_spec()
                    &&& entries_text_ok(host.options@)
                    &&& keys_distinct(host.options@)
                    &&& c.inv()
                    &&& c@ == (ContextImage {
                        options: map_of(host.options@),
                        process_id: host.process_id,
                        client_id: host.client_id,
                        client_count: host.client_count,
                        shared_random: host.shared_random,
                        rng_state: host.rng_seed,
                        log: Seq::<TraceRecordImage>::empty(),
                        failed: false,
                    })
                },
                Err(BridgeError::MissingTableEntry) => !table.complete_spec(),
                Err(BridgeError::InvalidText) => table.complete_spec() && !entries_text_ok(
                    host.options@,
                ),
                Err(BridgeError::DuplicateOptionName) => table.complete_spec() && entries_text_ok(
                    host.options@,
                ) && !keys_distinct(host.options@),
                Err(_) => false,
            },
    {
        if !table.complete() {
            return Err(BridgeError::MissingTableEntry);
        }
        let HostFixture { options, process_id, client_id, client_count, shared_random, rng_seed } =
            host;
        let registry = match OptionRegistry::from_entries(options) {
            Ok(reg) => reg,
            Err(e) => {
                return Err(e);
            },
        };
        let c = WorkloadContext {
            options: registry,
            process_id,
            client_id,
            client_count,
            shared_random,
            rng_state: rng_seed,
            log: Vec::new(),
            failed: false,
        };
        proof {
            assert(c@.log =~= Seq::<TraceRecordImage>::empty());
        }
        Ok(c)
    }

    /// Forward one structured log entry to the host.
    ///
    /// Every text is marshaled for the call only; the pairs keep their
    /// order.  Tracing at `Error` marks the run as failed: the host is
    /// expected to end it shortly after this call returns, so nothing
    /// after such a call should be relied upon.
    pub fn trace(&mut self, severity: Severity, name: Vec<u8>, details: &Vec<(Vec<u8>, Vec<u8>)>)
        requires
            old(self).inv(),
            text_ok(name@),
            forall|i: int| 0 <= i < details@.len() ==> text_ok(#[trigger] details@[i].0@),
            forall|i: int| 0 <= i < details@.len() ==> text_ok(#[trigger] details@[i].1@),
        ensures
            final(self).inv(),
            final(self)@ == (ContextImage {
                log: old(self)@.log.push(trace_record(severity, name@, details@)),
                failed: old(self)@.failed || severity is Error,
                ..old(self)@
            }),
    {
        let ghost name_view = name@;
        let name_c = str_for_c(name).unwrap();
        let mut pairs_c: Vec<(Vec<u8>, Vec<u8>)> = Vec::new();
        let n = details.len();
        let mut i: usize = 0;
        while i < n
            invariant
                n == details@.len(),
                i <= n,
                forall|j: int| 0 <= j < n ==> text_ok(#[trigger] details@[j].0@),
                forall|j: int| 0 <= j < n ==> text_ok(#[trigger] details@[j].1@),
                pairs_c@.len() == i,
                forall|j: int|
                    0 <= j < i ==> (#[trigger] pairs_c@[j]).0@ == details@[j].0@.push(0u8)
                        && pairs_c@[j].1@ == details@[j].1@.push(0u8),
            decreases n - i,
        {
            let key_c = str_for_c(copy_bytes(&details[i].0)).unwrap();
            let val_c = str_for_c(copy_bytes(&details[i].1)).unwrap();
            pairs_c.push((key_c, val_c));
            i = i + 1;
        }
        let record = TraceRecord { severity: severity.code(), name_c, pairs_c };
        proof {
            assert(record@.pairs_c =~= trace_record(severity, name_view, details@).pairs_c);
            assert(record@ == trace_record(severity, name_view, details@));
        }
        let ghost before = self.log@;
        self.log.push(record);
        self.failed = self.failed || severity == Severity::Error;
        proof {
            assert(self.log@.map_values(|t: TraceRecord| t@) =~= before.map_values(
                |t: TraceRecord| t@,
            ).push(trace_record(severity, name_view, details@)));
        }
    }

    /// Read the simulated process identity.
    pub fn get_process_id(&self) -> (id: u64)
        ensures
            id == self@.process_id,
    {
        self.process_id
    }

    /// Write the simulated process identity; nothing else changes.
    /// Uniqueness is the host's concern, not checked here.
    pub fn set_process_id(&mut self, id: u64)
        requires
            old(self).inv(),
        ensures
            final(self).inv(),
            final(self)@ == (ContextImage { process_id: id, ..old(self)@ }),
    {
        self.process_id = id;
    }

    /// Draw the next value of the host's deterministic random sequence.
    ///
    /// The sequence is a pure function of the state, with no buffering or
    /// reordering, so a fixed seed reproduces the same values run over
    /// run, however the calls interleave with other context calls.
    pub fn rnd(&mut self) -> (r: u32)
        requires
            old(self).inv(),
        ensures
            final(self).inv(),
            r == rnd_step(old(self)@.rng_state),
            final(self)@ == (ContextImage { rng_state: r, ..old(self)@ }),
    {
        let wide: u64 = (self.rng_state as u64) * 1664525 + 1013904223;
        let next: u32 = (wide % 4294967296) as u32;
        self.rng_state = next;
        next
    }

    /// Read and consume the raw text configured under `name`.
    ///
    /// The host is queried with the empty text as the absence sentinel: an
    /// unconfigured name, a name already consumed, and a name configured
    /// as empty text all read as absent.  The name is consumed either way.
    pub fn get_option_raw(&mut self, name: &Vec<u8>) -> (r: Option<Vec<u8>>)
        requires
            old(self).inv(),
        ensures
            final(self).inv(),
            final(self)@ == (ContextImage {
                options: old(self)@.options.remove(name@),
                ..old(self)@
            }),
            match r {
                Some(v) => raw_outcome(old(self)@.options, name@) == Some(v@),
                None => raw_outcome(old(self)@.options, name@) is None,
            },
    {
        match self.options.take(name) {
            Some(v) => {
                if v.len() > 0 {
                    Some(v)
                } else {
                    None
                }
            },
            None => None,
        }
    }

    /// Read, consume and decode the option configured under `name`.
    ///
    /// Text that fails to decode into the requested kind reads as absent,
    /// exactly like an unconfigured name; the name is consumed either way,
    /// so a second read returns absence whatever the first found.
    pub fn get_option<T: OptionValue>(&mut self, name: &Vec<u8>) -> (r: Option<T>)
        requires
            old(self).inv(),
        ensures
            final(self).inv(),
            final(self)@ == (ContextImage {
                options: old(self)@.options.remove(name@),
                ..old(self)@
            }),
            r == option_outcome::<T>(old(self)@.options, name@),
    {
        match self.get_option_raw(name) {
            Some(v) => T::decode(&v),
            None => None,
        }
    }

    /// Read this client's index within the run.
    pub fn client_id(&self) -> (id: i32)
        ensures
            id == self@.client_id,
    {
        self.client_id
    }

    /// Read how many clients cooperate on the workload in this run.
    pub fn client_count(&self) -> (count: i32)
        ensures
            count == self@.client_count,
    {
        self.client_count
    }

    /// Read the value drawn once and shared by every client of the run,
    /// used to synchronize randomized decisions without coordination.
    pub fn shared_random_number(&self) -> (r: i64)
        ensures
            r == self@.shared_random,
    {
        self.shared_random
    }

    /// The log records the host has received through this context, in
    /// call order: the observation point of a host-side test harness.
    pub fn log(&self) -> (log: &Vec<TraceRecord>)
        ensures
            log@.map_values(|t: TraceRecord| t@) == self@.log,
    {
        &self.log
    }

    /// Whether a run-ending trace has been issued through this context.
    pub fn failed(&self) -> (f: bool)
        ensures
            f == self@.failed,
    {
        self.failed
    }
}

/// Consume-on-read: after a read of `name` has consumed it — whatever that
/// read returned — a later typed read of the same name returns absence.
pub proof fn lemma_consume_on_read<T: OptionValue>(m: Map<Seq<u8>, Seq<u8>>, name: Seq<u8>)
    ensures
        option_outcome::<T>(m.remove(name), name) is None,
{
}

/// Parse failure is absence: when the text configured under `name` fails
/// to decode into the requested kind, a typed read returns plain absence,
/// indistinguishable from an unconfigured name.
pub proof fn lemma_parse_failure_is_absence<T: OptionValue>(m: Map<Seq<u8>, Seq<u8>>, name: Seq<
    u8,
>)
    requires
        match raw_outcome(m, name) {
            Some(v) => T::decode_spec(v) is None,
            None => true,
        },
    ensures
        option_outcome::<T>(m, name) is None,
{
}

} // verus!
