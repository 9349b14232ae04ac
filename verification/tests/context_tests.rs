use workload_bridge::context::{HostFixture, WorkloadContext};
use workload_bridge::error::BridgeError;
use workload_bridge::severity::Severity;
use workload_bridge::table::ContextTable;

fn full_table() -> ContextTable {
    ContextTable {
        trace: true,
        get_process_id: true,
        set_process_id: true,
        now: true,
        rnd: true,
        get_option: true,
        client_id: true,
        client_count: true,
        shared_random_number: true,
    }
}

fn fixture_with(options: Vec<(Vec<u8>, Vec<u8>)>) -> HostFixture {
    HostFixture {
        options,
        process_id: 7,
        client_id: 2,
        client_count: 4,
        shared_random: 99,
        rng_seed: 0,
    }
}

#[test]
fn context_table_validated_at_construction() {
    let mut table = full_table();
    table.get_option = false;
    let r = WorkloadContext::new(table, fixture_with(Vec::new()));
    assert!(matches!(r, Err(BridgeError::MissingTableEntry)));
}

#[test]
fn fixture_rejects_duplicate_names() {
    let options = vec![
        (b"a".to_vec(), b"1".to_vec()),
        (b"b".to_vec(), b"2".to_vec()),
        (b"a".to_vec(), b"3".to_vec()),
    ];
    let r = WorkloadContext::new(full_table(), fixture_with(options));
    assert!(matches!(r, Err(BridgeError::DuplicateOptionName)));
}

#[test]
fn fixture_rejects_malformed_text() {
    let options = vec![(b"a".to_vec(), vec![0xFFu8])];
    let r = WorkloadContext::new(full_table(), fixture_with(options));
    assert!(matches!(r, Err(BridgeError::InvalidText)));
}

#[test]
fn trace_with_no_details_succeeds() {
    // A plain informational entry with zero detail pairs.
    let mut ctx = WorkloadContext::new(full_table(), fixture_with(Vec::new())).unwrap();
    ctx.trace(Severity::Info, b"TestStarted".to_vec(), &Vec::new());
    let log = ctx.log();
    assert_eq!(log.len(), 1);
    assert_eq!(log[0].severity, 10);
    assert_eq!(log[0].name_c, b"TestStarted\0".to_vec());
    assert!(log[0].pairs_c.is_empty());
    assert!(!ctx.failed());
}

#[test]
fn fatal_trace_is_recorded_and_ends_the_run() {
    // An entry at the highest severity is the last one whose outcome is
    // checked: it is forwarded intact and the run is marked failed.
    let mut ctx = WorkloadContext::new(full_table(), fixture_with(Vec::new())).unwrap();
    ctx.trace(
        Severity::Error,
        b"FatalAssertion".to_vec(),
        &vec![(b"key".to_vec(), b"val".to_vec())],
    );
    assert!(ctx.failed());
    let log = ctx.log();
    assert_eq!(log.len(), 1);
    assert_eq!(log[0].severity, 40);
    assert_eq!(log[0].name_c, b"FatalAssertion\0".to_vec());
    assert_eq!(log[0].pairs_c, vec![(b"key\0".to_vec(), b"val\0".to_vec())]);
}

#[test]
fn trace_keeps_detail_pair_order() {
    let mut ctx = WorkloadContext::new(full_table(), fixture_with(Vec::new())).unwrap();
    let details = vec![
        (b"first".to_vec(), b"1".to_vec()),
        (b"second".to_vec(), b"2".to_vec()),
        (b"third".to_vec(), b"3".to_vec()),
    ];
    ctx.trace(Severity::Warn, b"Ordered".to_vec(), &details);
    let log = ctx.log();
    assert_eq!(log[0].severity, 20);
    assert_eq!(
        log[0].pairs_c,
        vec![
            (b"first\0".to_vec(), b"1\0".to_vec()),
            (b"second\0".to_vec(), b"2\0".to_vec()),
            (b"third\0".to_vec(), b"3\0".to_vec()),
        ]
    );
}

#[test]
fn get_option_returns_then_consumes() {
    // First read of a configured, well-formed number yields it; the
    // immediately following read of the same name yields absence.
    let options = vec![(b"maxKeys".to_vec(), b"42".to_vec())];
    let mut ctx = WorkloadContext::new(full_table(), fixture_with(options)).unwrap();
    let first: Option<u64> = ctx.get_option(&b"maxKeys".to_vec());
    assert_eq!(first, Some(42));
    let second: Option<u64> = ctx.get_option(&b"maxKeys".to_vec());
    assert_eq!(second, None);
}

#[test]
fn get_option_parse_failure_is_absence() {
    // A configured value that fails to decode reads as plain absence.
    let options = vec![(b"maxKeys".to_vec(), b"not-a-number".to_vec())];
    let mut ctx = WorkloadContext::new(full_table(), fixture_with(options)).unwrap();
    let got: Option<u64> = ctx.get_option(&b"maxKeys".to_vec());
    assert_eq!(got, None);
}

#[test]
fn get_option_consumes_even_after_parse_failure() {
    let options = vec![(b"maxKeys".to_vec(), b"not-a-number".to_vec())];
    let mut ctx = WorkloadContext::new(full_table(), fixture_with(options)).unwrap();
    let first: Option<u64> = ctx.get_option(&b"maxKeys".to_vec());
    assert_eq!(first, None);
    let raw = ctx.get_option_raw(&b"maxKeys".to_vec());
    assert_eq!(raw, None);
}

#[test]
fn get_option_unconfigured_name_is_absent() {
    let mut ctx = WorkloadContext::new(full_table(), fixture_with(Vec::new())).unwrap();
    let got: Option<u64> = ctx.get_option(&b"missing".to_vec());
    assert_eq!(got, None);
}

#[test]
fn empty_text_value_reads_as_absent() {
    // The empty text is the boundary's absence sentinel.
    let options = vec![(b"flag".to_vec(), Vec::new())];
    let mut ctx = WorkloadContext::new(full_table(), fixture_with(options)).unwrap();
    let raw = ctx.get_option_raw(&b"flag".to_vec());
    assert_eq!(raw, None);
}

#[test]
fn get_option_raw_returns_text_once() {
    let options = vec![(b"mode".to_vec(), b"fast".to_vec())];
    let mut ctx = WorkloadContext::new(full_table(), fixture_with(options)).unwrap();
    assert_eq!(ctx.get_option_raw(&b"mode".to_vec()), Some(b"fast".to_vec()));
    assert_eq!(ctx.get_option_raw(&b"mode".to_vec()), None);
}

#[test]
fn get_option_decodes_flags() {
    let options = vec![
        (b"on".to_vec(), b"true".to_vec()),
        (b"off".to_vec(), b"false".to_vec()),
        (b"odd".to_vec(), b"TRUE".to_vec()),
    ];
    let mut ctx = WorkloadContext::new(full_table(), fixture_with(options)).unwrap();
    assert_eq!(ctx.get_option::<bool>(&b"on".to_vec()), Some(true));
    assert_eq!(ctx.get_option::<bool>(&b"off".to_vec()), Some(false));
    assert_eq!(ctx.get_option::<bool>(&b"odd".to_vec()), None);
}

#[test]
fn number_decoding_edge_cases() {
    let options = vec![
        (b"zeroes".to_vec(), b"007".to_vec()),
        (b"max".to_vec(), b"18446744073709551615".to_vec()),
        (b"over".to_vec(), b"18446744073709551616".to_vec()),
        (b"mixed".to_vec(), b"1x".to_vec()),
    ];
    let mut ctx = WorkloadContext::new(full_table(), fixture_with(options)).unwrap();
    assert_eq!(ctx.get_option::<u64>(&b"zeroes".to_vec()), Some(7));
    assert_eq!(ctx.get_option::<u64>(&b"max".to_vec()), Some(u64::MAX));
    assert_eq!(ctx.get_option::<u64>(&b"over".to_vec()), None);
    assert_eq!(ctx.get_option::<u64>(&b"mixed".to_vec()), None);
}

#[test]
fn signed_number_decoding() {
    let options = vec![
        (b"neg".to_vec(), b"-5".to_vec()),
        (b"pos".to_vec(), b"5".to_vec()),
        (b"min".to_vec(), b"-9223372036854775808".to_vec()),
        (b"max".to_vec(), b"9223372036854775807".to_vec()),
        (b"under".to_vec(), b"-9223372036854775809".to_vec()),
        (b"bare".to_vec(), b"-".to_vec()),
        (b"doubled".to_vec(), b"--5".to_vec()),
    ];
    let mut ctx = WorkloadContext::new(full_table(), fixture_with(options)).unwrap();
    assert_eq!(ctx.get_option::<i64>(&b"neg".to_vec()), Some(-5));
    assert_eq!(ctx.get_option::<i64>(&b"pos".to_vec()), Some(5));
    assert_eq!(ctx.get_option::<i64>(&b"min".to_vec()), Some(i64::MIN));
    assert_eq!(ctx.get_option::<i64>(&b"max".to_vec()), Some(i64::MAX));
    assert_eq!(ctx.get_option::<i64>(&b"under".to_vec()), None);
    assert_eq!(ctx.get_option::<i64>(&b"bare".to_vec()), None);
    assert_eq!(ctx.get_option::<i64>(&b"doubled".to_vec()), None);
}

#[test]
fn process_identity_round_trip() {
    let mut ctx = WorkloadContext::new(full_table(), fixture_with(Vec::new())).unwrap();
    assert_eq!(ctx.get_process_id(), 7);
    ctx.set_process_id(123);
    assert_eq!(ctx.get_process_id(), 123);
}

#[test]
fn client_topology_is_reported() {
    let ctx = WorkloadContext::new(full_table(), fixture_with(Vec::new())).unwrap();
    assert_eq!(ctx.client_id(), 2);
    assert_eq!(ctx.client_count(), 4);
    assert_eq!(ctx.shared_random_number(), 99);
}

#[test]
fn random_sequence_starts_from_the_seed() {
    // With seed 0 the first drawn value is the sequence's increment.
    let mut ctx = WorkloadContext::new(full_table(), fixture_with(Vec::new())).unwrap();
    assert_eq!(ctx.rnd(), 1013904223);
}

#[test]
fn random_sequence_is_reproducible() {
    let mut a = WorkloadContext::new(full_table(), fixture_with(Vec::new())).unwrap();
    let mut b = WorkloadContext::new(full_table(), fixture_with(Vec::new())).unwrap();
    let drawn_a = [a.rnd(), a.rnd(), a.rnd()];
    // Interleaving other context calls must not disturb the sequence.
    b.trace(Severity::Debug, b"Interleaved".to_vec(), &Vec::new());
    let b0 = b.rnd();
    b.set_process_id(55);
    let b1 = b.rnd();
    let _ = b.get_option_raw(&b"anything".to_vec());
    let b2 = b.rnd();
    assert_eq!(drawn_a, [b0, b1, b2]);
    let expected_second = ((1013904223u64 * 1664525 + 1013904223) % 4294967296) as u32;
    assert_eq!(drawn_a[1], expected_second);
}
