use chrono::Datelike;
use chrono::TimeZone;
use fs_sav::parser::{sort_by_quantity_desc, EARLIEST_UTC_SECONDS, LATEST_UTC_SECONDS, UNIX_EPOCH_TICKS};
use fs_sav::{parse_save_result, parse_ue_timestamp, FsSavError, StockpileItem};

#[test]
fn test_parse_ue_timestamp() {
    // Zero ticks means "missing" — no fabricated fallback.
    assert!(parse_ue_timestamp(0).is_none());

    // Test a known timestamp (approximately 2024-01-01 00:00:00 UTC)
    let ticks: i64 = 638392320000000000;
    let secs = parse_ue_timestamp(ticks).expect("valid ticks parse");
    let parsed = chrono::DateTime::from_timestamp(secs, 0).unwrap();
    assert!(parsed.year() >= 2023 && parsed.year() <= 2025);
}

#[test]
fn test_parse_ue_timestamp_exact_seconds() {
    assert_eq!(parse_ue_timestamp(638392320000000000), Some(1703635200));
    assert_eq!(parse_ue_timestamp(UNIX_EPOCH_TICKS), Some(0));
    // Partial seconds are truncated toward zero, before and after the epoch.
    assert_eq!(parse_ue_timestamp(UNIX_EPOCH_TICKS + 19_999_999), Some(1));
    assert_eq!(parse_ue_timestamp(UNIX_EPOCH_TICKS - 15_000_000), Some(-1));
    // Ticks that cannot be shifted to the Unix epoch are out of range.
    assert_eq!(parse_ue_timestamp(i64::MIN), None);
}

fn item(code: &str, quantity: i32) -> StockpileItem {
    StockpileItem::new(code.to_string(), quantity, false)
}

#[test]
fn test_items_sorted_by_quantity_keeping_ties_in_order() {
    let sorted = sort_by_quantity_desc(vec![
        item("A", 5),
        item("B", 9),
        item("C", 5),
        item("D", 0),
        item("E", 9),
    ]);
    let codes: Vec<&str> = sorted.iter().map(|i| i.code.as_str()).collect();
    assert_eq!(codes, vec!["B", "E", "A", "C", "D"]);
    let quantities: Vec<i32> = sorted.iter().map(|i| i.quantity).collect();
    assert_eq!(quantities, vec![9, 9, 5, 5, 0]);
}

#[test]
fn test_parse_save_result_reports_read_errors() {
    let read = uesave::SaveReader::new()
        .error_to_raw(true)
        .read(std::io::Cursor::new(&[1u8, 2, 3, 4, 5, 6, 7, 8][..]))
        .map_err(|e| e.to_string());
    match parse_save_result(read) {
        Err(FsSavError::ParseError(msg)) => assert!(msg.starts_with("at offset"), "{}", msg),
        other => panic!("expected a parse error, got {:?}", other),
    }
    match parse_save_result(Err("bad magic".to_string())) {
        Err(FsSavError::ParseError(msg)) => assert_eq!(msg, "bad magic"),
        other => panic!("expected a parse error, got {:?}", other),
    }
}

#[test]
fn test_utc_range_matches_chrono() {
    let single = |secs: i64| matches!(chrono::Utc.timestamp_opt(secs, 0), chrono::MappedLocalTime::Single(_));
    assert!(single(EARLIEST_UTC_SECONDS));
    assert!(!single(EARLIEST_UTC_SECONDS - 1));
    assert!(single(LATEST_UTC_SECONDS));
    assert!(!single(LATEST_UTC_SECONDS + 1));
}
