use vstd::prelude::*;

use crate::error::BridgeError;
use crate::marshal::{str_for_c, text_ok};
use crate::table::MetricsTable;

verus! {

// The metrics sink forwards named numeric datapoints to the host, which
// aggregates and renders them later.  The sink's whole contract is
// faithful, order-preserving, unmodified forwarding: no deduplication, no
// reordering, no local arithmetic.  The numeric value therefore travels as
// its 64-bit IEEE-754 bit pattern, which this layer never interprets.

/// One named numeric datapoint.
pub struct Metric {
    /// The name of the datapoint.
    pub key: Vec<u8>,
    /// The 64-bit IEEE-754 bit pattern of the value; never interpreted here.
    pub val_bits: u64,
    /// Whether the host should combine repeated pushes of this name as a
    /// running average (`true`) instead of keeping them independent.
    pub avg: bool,
    /// Display format for the host's renderer; absent means the default.
    pub fmt: Option<Vec<u8>>,
}

/// The mathematical image of a `Metric`.
pub struct MetricImage {
    /// The name of the datapoint.
    pub key: Seq<u8>,
    /// The 64-bit IEEE-754 bit pattern of the value.
    pub val_bits: u64,
    /// The averaging flag.
    pub avg: bool,
    /// The display format, when one was supplied.
    pub fmt: Option<Seq<u8>>,
}

impl View for Metric {
    type V = MetricImage;

    open spec fn view(&self) -> MetricImage {
        MetricImage {
            key: self.key@,
            val_bits: self.val_bits,
            avg: self.avg,
            fmt: match self.fmt {
                Some(f) => Some(f@),
                None => None,
            },
        }
    }
}

impl Metric {
    /// Create a plain value entry: not averaged, default format.
    pub fn val(key: Vec<u8>, val_bits: u64) -> (m: Metric)
        ensures
            m@.key == key@,
            m@.val_bits == val_bits,
            m@.avg == false,
            m@.fmt is None,
    {
        Metric { key, val_bits, avg: false, fmt: None }
    }

    /// Create an averaged entry: combined host-side, default format.
    pub fn avg(key: Vec<u8>, val_bits: u64) -> (m: Metric)
        ensures
            m@.key == key@,
            m@.val_bits == val_bits,
            m@.avg == true,
            m@.fmt is None,
    {
        Metric { key, val_bits, avg: true, fmt: None }
    }
}

/// The display format used when a datapoint does not supply one: the
/// bytes of `"%.3g"`.
pub open spec fn default_fmt() -> Seq<u8> {
    seq![37u8, 46u8, 51u8, 103u8]
}

/// A datapoint as the host receives it: both text fields marshaled as
/// null-terminated buffers, value and flag unmodified.
pub struct HostMetric {
    /// The marshaled name.
    pub key_c: Vec<u8>,
    /// The marshaled display format.
    pub fmt_c: Vec<u8>,
    /// The 64-bit IEEE-754 bit pattern of the value.
    pub val_bits: u64,
    /// The averaging flag.
    pub avg: bool,
}

/// The mathematical image of a `HostMetric`.
pub struct HostMetricImage {
    /// The marshaled name.
    pub key_c: Seq<u8>,
    /// The marshaled display format.
    pub fmt_c: Seq<u8>,
    /// The 64-bit IEEE-754 bit pattern of the value.
    pub val_bits: u64,
    /// The averaging flag.
    pub avg: bool,
}

impl View for HostMetric {
    type V = HostMetricImage;

    open spec fn view(&self) -> HostMetricImage {
        HostMetricImage {
            key_c: self.key_c@,
            fmt_c: self.fmt_c@,
            val_bits: self.val_bits,
            avg: self.avg,
        }
    }
}

/// What the host receives for one pushed datapoint: every field forwarded
/// unmodified, the absent format defaulted, both texts null-terminated.
pub open spec fn forwarded(m: MetricImage) -> HostMetricImage {
    HostMetricImage {
        key_c: m.key.push(0u8),
        fmt_c: (match m.fmt {
            Some(f) => f,
            None => default_fmt(),
        }).push(0u8),
        val_bits: m.val_bits,
        avg: m.avg,
    }
}

/// The texts of `m` may cross the boundary.
pub open spec fn metric_text_ok(m: MetricImage) -> bool {
    &&& text_ok(m.key)
    &&& (m.fmt matches Some(f) ==> text_ok(f))
}

/// The metrics sink of one workload run: the ordered sequence of
/// datapoints the host has received through it.
pub struct Metrics {
    entries: Vec<HostMetric>,
}

impl View for Metrics {
    type V = Seq<HostMetricImage>;

    closed spec fn view(&self) -> Seq<HostMetricImage> {
        self.entries@.map_values(|h: HostMetric| h@)
    }
}

impl Metrics {
    /// Wrap a fresh metrics handle, validating its function table once
    /// here; no datapoint has been forwarded yet.
    pub fn new(table: MetricsTable) -> (r: Result<Metrics, BridgeError>)
        ensures
            r is Ok <==> table.complete_spec(),
            r matches Ok(m) ==> m@ == Seq::<HostMetricImage>::empty(),
            r is Err ==> r == Err::<Metrics, BridgeError>(BridgeError::MissingTableEntry),
    {
        if table.complete() {
            let m = Metrics { entries: Vec::new() };
            proof {
                assert(m@ =~= Seq::<HostMetricImage>::empty());
            }
            Ok(m)
        } else {
            Err(BridgeError::MissingTableEntry)
        }
    }

    /// Pass a capacity hint on to the host.
    ///
    /// The hint has no observable effect: the forwarded sequence is
    /// unchanged, whenever and however often this is called.
    pub fn reserve(&mut self, _n: usize)
        ensures
            final(self)@ == old(self)@,
    {
    }

    /// Append one datapoint to the forwarded sequence.
    ///
    /// Every field crosses unmodified, in call order, with the absent
    /// format defaulted; nothing is deduplicated or reordered.
    pub fn push(&mut self, metric: Metric)
        requires
            metric_text_ok(metric@),
        ensures
            final(self)@ == old(self)@.push(forwarded(metric@)),
    {
        let ghost image = metric@;
        let Metric { key, val_bits, avg, fmt } = metric;
        let key_c = str_for_c(key).unwrap();
        let fmt_c = match fmt {
            Some(f) => str_for_c(f).unwrap(),
            None => {
                let mut d: Vec<u8> = Vec::new();
                d.push(37);
                d.push(46);
                d.push(51);
                d.push(103);
                d.push(0);
                proof {
                    assert(d@ =~= default_fmt().push(0u8));
                }
                d
            },
        };
        let host_metric = HostMetric { key_c, fmt_c, val_bits, avg };
        proof {
            assert(host_metric@ == forwarded(image));
        }
        self.entries.push(host_metric);
        proof {
            assert(self.entries@.map_values(|h: HostMetric| h@) =~= old(
                self,
            ).entries@.map_values(|h: HostMetric| h@).push(forwarded(image)));
        }
    }

    /// The datapoints the host has received through this sink, in call
    /// order: the observation point of a host-side test harness.
    pub fn entries(&self) -> (e: &Vec<HostMetric>)
        ensures
            e@.map_values(|h: HostMetric| h@) == self@,
    {
        &self.entries
    }
}

/// One call a workload may make against the sink.
pub enum SinkOp {
    /// Append the datapoint.
    Push(MetricImage),
    /// Pass the capacity hint on.
    Reserve(int),
}

/// The forwarded sequence after one sink call.
pub open spec fn op_effect(s: Seq<HostMetricImage>, op: SinkOp) -> Seq<HostMetricImage> {
    match op {
        SinkOp::Push(m) => s.push(forwarded(m)),
        SinkOp::Reserve(_) => s,
    }
}

/// The forwarded sequence after a whole sequence of sink calls.
pub open spec fn sink_after(s: Seq<HostMetricImage>, ops: Seq<SinkOp>) -> Seq<HostMetricImage>
    decreases ops.len(),
{
    if ops.len() == 0 {
        s
    } else {
        sink_after(op_effect(s, ops[0]), ops.subrange(1, ops.len() as int))
    }
}

/// The datapoints that the calls of `ops` push, forwarded, in call order.
pub open spec fn pushes_of(ops: Seq<SinkOp>) -> Seq<HostMetricImage>
    decreases ops.len(),
{
    if ops.len() == 0 {
        Seq::empty()
    } else {
        (match ops[0] {
            SinkOp::Push(m) => seq![forwarded(m)],
            SinkOp::Reserve(_) => Seq::empty(),
        }) + pushes_of(ops.subrange(1, ops.len() as int))
    }
}

/// Push order preserved: for any sequence of sink calls, the forwarded
/// sequence is exactly the prior sequence followed by the pushed
/// datapoints in call order; capacity hints, in any position and number,
/// have no effect on order or content.
pub proof fn lemma_push_order_preserved(s: Seq<HostMetricImage>, ops: Seq<SinkOp>)
    ensures
        sink_after(s, ops) == s + pushes_of(ops),
    decreases ops.len(),
{
    if ops.len() == 0 {
        assert(s + pushes_of(ops) =~= s);
    } else {
        let rest = ops.subrange(1, ops.len() as int);
        lemma_push_order_preserved(op_effect(s, ops[0]), rest);
        match ops[0] {
            SinkOp::Push(m) => {
                assert(s.push(forwarded(m)) + pushes_of(rest) =~= s + (seq![forwarded(m)]
                    + pushes_of(rest)));
            },
            SinkOp::Reserve(_) => {
                assert(s + pushes_of(rest) =~= s + pushes_of(ops));
            },
        }
    }
}

} // verus!
