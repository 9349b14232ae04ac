use workload_bridge::error::BridgeError;
use workload_bridge::metrics::{Metric, Metrics};
use workload_bridge::promise::{HostPromise, Lifecycle, Promise, PromiseEvent};
use workload_bridge::severity::Severity;
use workload_bridge::table::{MetricsTable, PromiseTable};

#[test]
fn severity_codes_match_the_boundary_contract() {
    assert_eq!(Severity::Debug.code(), 5);
    assert_eq!(Severity::Info.code(), 10);
    assert_eq!(Severity::Warn.code(), 20);
    assert_eq!(Severity::WarnAlways.code(), 30);
    assert_eq!(Severity::Error.code(), 40);
}

#[test]
fn promise_table_validated_at_construction() {
    let r = Promise::new(PromiseTable { send: true, free: false });
    assert!(matches!(r, Err(BridgeError::MissingTableEntry)));
    let r = Promise::new(PromiseTable { send: false, free: true });
    assert!(matches!(r, Err(BridgeError::MissingTableEntry)));
    assert!(Promise::new(PromiseTable { send: true, free: true }).is_ok());
}

#[test]
fn promise_send_finalizes_once() {
    // Resolve a fresh promise and let the handle go: exactly one
    // finalizer invocation is observed over its whole life.
    let p = Promise::new(PromiseTable { send: true, free: true }).unwrap();
    let fate = p.send(true);
    assert_eq!(fate.state, Lifecycle::Resolved);
    assert_eq!(fate.finalizations, 1);
}

#[test]
fn promise_release_finalizes_once() {
    let p = Promise::new(PromiseTable { send: true, free: true }).unwrap();
    let fate = p.release();
    assert_eq!(fate.state, Lifecycle::Released);
    assert_eq!(fate.finalizations, 1);
}

#[test]
fn finished_promise_rejects_further_transitions() {
    let mut cell = HostPromise::new();
    assert!(cell.apply(PromiseEvent::Send(true)).is_ok());
    let again = cell.apply(PromiseEvent::Free);
    assert_eq!(again, Err(BridgeError::PromiseAlreadyFinished));
    let once_more = cell.apply(PromiseEvent::Send(false));
    assert_eq!(once_more, Err(BridgeError::PromiseAlreadyFinished));
    assert_eq!(cell.state, Lifecycle::Resolved);
    assert_eq!(cell.finalizations, 1);
}

#[test]
fn metrics_table_validated_at_construction() {
    let r = Metrics::new(MetricsTable { reserve: false, push: true });
    assert!(matches!(r, Err(BridgeError::MissingTableEntry)));
    assert!(Metrics::new(MetricsTable { reserve: true, push: true }).is_ok());
}

#[test]
fn push_order_survives_late_reserve() {
    // Two pushes then a late capacity hint: both datapoints appear, in
    // call order, unmodified.
    let mut sink = Metrics::new(MetricsTable { reserve: true, push: true }).unwrap();
    sink.push(Metric::val(b"ops".to_vec(), 100.0f64.to_bits()));
    sink.push(Metric::avg(b"latency_ms".to_vec(), 5.2f64.to_bits()));
    sink.reserve(10);
    let entries = sink.entries();
    assert_eq!(entries.len(), 2);
    assert_eq!(entries[0].key_c, b"ops\0".to_vec());
    assert_eq!(entries[0].fmt_c, b"%.3g\0".to_vec());
    assert_eq!(entries[0].val_bits, 100.0f64.to_bits());
    assert!(!entries[0].avg);
    assert_eq!(entries[1].key_c, b"latency_ms\0".to_vec());
    assert_eq!(entries[1].fmt_c, b"%.3g\0".to_vec());
    assert_eq!(entries[1].val_bits, 5.2f64.to_bits());
    assert!(entries[1].avg);
}

#[test]
fn early_and_repeated_reserve_have_no_effect() {
    let mut sink = Metrics::new(MetricsTable { reserve: true, push: true }).unwrap();
    sink.reserve(1);
    sink.push(Metric::val(b"first".to_vec(), 1.0f64.to_bits()));
    sink.reserve(2);
    sink.reserve(3);
    sink.push(Metric::val(b"second".to_vec(), 2.0f64.to_bits()));
    let entries = sink.entries();
    assert_eq!(entries.len(), 2);
    assert_eq!(entries[0].key_c, b"first\0".to_vec());
    assert_eq!(entries[1].key_c, b"second\0".to_vec());
}

#[test]
fn reserve_alone_forwards_nothing() {
    let mut sink = Metrics::new(MetricsTable { reserve: true, push: true }).unwrap();
    sink.reserve(0);
    sink.reserve(64);
    assert_eq!(sink.entries().len(), 0);
}

#[test]
fn push_keeps_supplied_format() {
    let mut sink = Metrics::new(MetricsTable { reserve: true, push: true }).unwrap();
    let metric = Metric {
        key: b"cpu".to_vec(),
        val_bits: 0.25f64.to_bits(),
        avg: false,
        fmt: Some(b"%0.2f".to_vec()),
    };
    sink.push(metric);
    let entries = sink.entries();
    assert_eq!(entries[0].fmt_c, b"%0.2f\0".to_vec());
}
