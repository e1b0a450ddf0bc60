use payout_snapshot::decimal::parse_decimal_nanos;
use payout_snapshot::error::BalanceError;
use payout_snapshot::platform::{
    curseforge_points_to_usd, extract_curseforge_balance, extract_modrinth_balance,
    modrinth_balance_as_usd, Extraction, ModrinthBalance,
};
use payout_snapshot::snapshot::{build_snapshot, time_bucket};

fn object(entries: &[(&str, serde_json::Value)]) -> serde_json::Value {
    let mut map = serde_json::Map::new();
    for (key, value) in entries {
        map.insert(key.to_string(), value.clone());
    }
    serde_json::Value::Object(map)
}

fn string_value(s: &str) -> serde_json::Value {
    serde_json::Value::String(s.to_string())
}

fn modrinth_payload(available: Option<&str>, pending: Option<&str>) -> serde_json::Value {
    let mut entries: Vec<(&str, serde_json::Value)> = Vec::new();
    if let Some(a) = available {
        entries.push(("available", string_value(a)));
    }
    if let Some(p) = pending {
        entries.push(("pending", string_value(p)));
    }
    object(&entries)
}

// Relevant fields entirely absent: extraction yields absence, never a failure.

#[test]
fn modrinth_empty_object_is_absent() {
    let r = extract_modrinth_balance(object(&[]));
    assert!(matches!(r, Extraction::Absent));
}

#[test]
fn modrinth_unrelated_fields_are_absent() {
    let payload = object(&[("balance", string_value("10.5")), ("userPoints", 7u64.into())]);
    let r = extract_modrinth_balance(payload);
    assert!(matches!(r, Extraction::Absent));
}

#[test]
fn curseforge_empty_object_is_absent() {
    let r = extract_curseforge_balance(object(&[]));
    assert!(matches!(r, Extraction::Absent));
}

#[test]
fn curseforge_non_integer_points_are_absent() {
    let payload = object(&[("userPoints", string_value("250"))]);
    assert!(matches!(extract_curseforge_balance(payload), Extraction::Absent));
    let negative = object(&[("userPoints", serde_json::Value::from(-5i64))]);
    assert!(matches!(extract_curseforge_balance(negative), Extraction::Absent));
}

// A present but malformed field yields a failure naming that field, never a
// silent zero.

#[test]
fn modrinth_malformed_available_names_field() {
    let payload = modrinth_payload(Some("ten dollars"), Some("2.25"));
    match extract_modrinth_balance(payload.clone()) {
        Extraction::Failed(f) => {
            assert_eq!(f.platform, "Modrinth");
            assert!(matches!(f.error, BalanceError::ParseError("available")));
            assert_eq!(f.json, payload);
        }
        _ => panic!("expected a parse failure"),
    }
}

#[test]
fn modrinth_malformed_pending_names_field() {
    let payload = modrinth_payload(Some("10.5"), Some("2,25"));
    match extract_modrinth_balance(payload) {
        Extraction::Failed(f) => {
            assert!(matches!(f.error, BalanceError::ParseError("pending")));
        }
        _ => panic!("expected a parse failure"),
    }
}

#[test]
fn modrinth_non_string_field_reads_as_absent() {
    // A JSON number, not a string: the string-typed field read comes back
    // absent, and with the other field also missing the source is absent.
    let payload = object(&[("available", 10u64.into())]);
    assert!(matches!(extract_modrinth_balance(payload), Extraction::Absent));
}

#[test]
fn malformed_decimal_strings_are_rejected() {
    for bad in [
        "", ".", ".5", "5.", "1.2.3", "-1", "+1", "1e3", " 1", "1 ", "10.1234567890",
        "12345678901", "NaN", "inf",
    ] {
        assert_eq!(parse_decimal_nanos(bad), None, "accepted {:?}", bad);
    }
}

#[test]
fn accepted_decimal_strings_parse_exactly() {
    assert_eq!(parse_decimal_nanos("0"), Some(0));
    assert_eq!(parse_decimal_nanos("10.5"), Some(10_500_000_000));
    assert_eq!(parse_decimal_nanos("2.25"), Some(2_250_000_000));
    assert_eq!(parse_decimal_nanos("0.005"), Some(5_000_000));
    assert_eq!(parse_decimal_nanos("007"), Some(7_000_000_000));
    assert_eq!(parse_decimal_nanos("999999999.999999999"), Some(999_999_999_999_999_999));
}

// Normalization truncates and is idempotent.

#[test]
fn normalization_never_rounds_up() {
    let r = modrinth_balance_as_usd(ModrinthBalance { nanos: 1_005_000_000 });
    assert_eq!(r.cents, 100);
    let r = modrinth_balance_as_usd(ModrinthBalance { nanos: 1_999_999_999 });
    assert_eq!(r.cents, 199);
}

#[test]
fn normalization_is_idempotent() {
    let once = modrinth_balance_as_usd(ModrinthBalance { nanos: 12_345_678_901 });
    let renormalized = modrinth_balance_as_usd(ModrinthBalance {
        nanos: (once.cents as u64) * 10_000_000,
    });
    assert_eq!(renormalized.cents, once.cents);
}

#[test]
fn curseforge_conversion_rate() {
    assert_eq!(curseforge_points_to_usd(100).cents, 500);
    assert_eq!(curseforge_points_to_usd(250).cents, 1250);
    assert_eq!(curseforge_points_to_usd(0).cents, 0);
}

// The Modrinth sum: a missing field counts as zero once the other is present.

#[test]
fn modrinth_sum_of_both_fields() {
    match extract_modrinth_balance(modrinth_payload(Some("10.5"), Some("2.25"))) {
        Extraction::Present(b) => {
            assert_eq!(b.nanos, 12_750_000_000);
            assert_eq!(modrinth_balance_as_usd(b).cents, 1275);
        }
        _ => panic!("expected a balance"),
    }
}

#[test]
fn modrinth_sum_with_pending_missing() {
    match extract_modrinth_balance(modrinth_payload(Some("10.5"), None)) {
        Extraction::Present(b) => {
            assert_eq!(modrinth_balance_as_usd(b).cents, 1050);
        }
        _ => panic!("expected a balance"),
    }
}

#[test]
fn modrinth_both_fields_absent_is_absent_not_zero() {
    assert!(matches!(
        extract_modrinth_balance(modrinth_payload(None, None)),
        Extraction::Absent
    ));
}

// Time bucketing: cycles in one thirty-minute window share a key.

#[test]
fn same_window_same_bucket() {
    assert_eq!(time_bucket(1800), 1800);
    assert_eq!(time_bucket(3599), 1800);
    assert_eq!(time_bucket(3600), 3600);
    let now = 1_700_000_000u64;
    assert_eq!(time_bucket(now), time_bucket(now + 900));
    assert_ne!(time_bucket(now), time_bucket(now + 1800));
}

#[test]
fn consecutive_cycles_share_bucket_key() {
    let now = 1_700_000_000u64;
    let (first, _) = build_snapshot(now, None, None);
    let (second, _) = build_snapshot(now + 60, None, None);
    assert_eq!(first.time_bucket, second.time_bucket);
}

// A cycle with one failed source still records the other and reports the
// failure; the cycle never aborts.

#[test]
fn one_source_failing_does_not_block_the_other() {
    let modrinth = modrinth_payload(Some("not a number"), None);
    let curseforge = object(&[("userPoints", 250u64.into())]);
    let (snapshot, failures) = build_snapshot(1_700_000_000, Some(modrinth), Some(curseforge));
    assert!(snapshot.modrinth_usd.is_none());
    assert_eq!(snapshot.curseforge_usd.unwrap().cents, 1250);
    assert_eq!(failures.len(), 1);
    assert_eq!(failures[0].platform, "Modrinth");
}

#[test]
fn both_sources_missing_still_yields_snapshot() {
    let (snapshot, failures) = build_snapshot(42, None, None);
    assert_eq!(snapshot.time_bucket, 0);
    assert!(snapshot.modrinth_usd.is_none());
    assert!(snapshot.curseforge_usd.is_none());
    assert!(failures.is_empty());
}

#[test]
fn successful_cycle_fills_both_fields() {
    let modrinth = modrinth_payload(Some("10.5"), Some("2.25"));
    let curseforge = object(&[("userPoints", 100u64.into())]);
    let (snapshot, failures) = build_snapshot(3700, Some(modrinth), Some(curseforge));
    assert_eq!(snapshot.time_bucket, 3600);
    assert_eq!(snapshot.modrinth_usd.unwrap().cents, 1275);
    assert_eq!(snapshot.curseforge_usd.unwrap().cents, 500);
    assert!(failures.is_empty());
}
