use vstd::prelude::*;

verus! {

/// Severity of one host log entry.
///
/// The variants are ordered by increasing escalation.  `WarnAlways` differs
/// from `Warn` only in being exempt from host-side suppression.  `Error` is
/// special: tracing with it tells the host that the run has failed, and the
/// host is expected to end the process shortly after the call returns.
#[derive(Clone, Copy, PartialEq, Eq, Structural, Debug)]
pub enum Severity {
    /// Debugging detail, normally suppressed.
    Debug,
    /// Ordinary progress information.
    Info,
    /// A recoverable anomaly.
    Warn,
    /// A recoverable anomaly, exempt from host-side suppression.
    WarnAlways,
    /// The run has failed; the host ends it shortly after this is traced.
    Error,
}

impl Severity {
    /// The numeric code this severity travels under on the boundary.
    ///
    /// The codes are a versioned contract with the host and are never
    /// redefined by this layer.
    pub open spec fn code_spec(self) -> u32 {
        match self {
            Severity::Debug => 5,
            Severity::Info => 10,
            Severity::Warn => 20,
            Severity::WarnAlways => 30,
            Severity::Error => 40,
        }
    }

    /// Position of this severity in the escalation order.
    pub open spec fn rank(self) -> int {
        match self {
            Severity::Debug => 0,
            Severity::Info => 1,
            Severity::Warn => 2,
            Severity::WarnAlways => 3,
            Severity::Error => 4,
        }
    }

    /// Encode this severity as its boundary code.
    pub fn code(self) -> (c: u32)
        ensures
            c == self.code_spec(),
    {
        match self {
            Severity::Debug => 5,
            Severity::Info => 10,
            Severity::Warn => 20,
            Severity::WarnAlways => 30,
            Severity::Error => 40,
        }
    }
}

/// The numeric codes respect the escalation order: a strictly more severe
/// entry always travels under a strictly larger code, so the host's
/// threshold filtering agrees with the order of the variants.
pub proof fn lemma_codes_follow_escalation(a: Severity, b: Severity)
    ensures
        a.rank() < b.rank() <==> a.code_spec() < b.code_spec(),
{
}

} // verus!
