use fs_sav::{changed_stockpiles, should_emit, watch_report, DiffMode, StockpileItem, TrackedStockpile};

fn entry(key: &str, json: Option<&str>, quantities: &[i32]) -> TrackedStockpile {
    TrackedStockpile {
        key: key.to_string(),
        json: json.map(|j| j.to_string()),
        items: quantities.iter().map(|q| StockpileItem::new("Rifle".to_string(), *q, false)).collect(),
    }
}

#[test]
fn test_new_and_changed_stockpiles() {
    let previous = vec![entry("a", Some("1"), &[1]), entry("b", Some("2"), &[2])];
    let current = vec![
        entry("a", Some("1"), &[1]),
        entry("b", Some("3"), &[2]),
        entry("c", Some("4"), &[4]),
    ];
    assert_eq!(changed_stockpiles(&previous, &current, DiffMode::Any), vec![false, true, true]);
    assert_eq!(changed_stockpiles(&previous, &current, DiffMode::Items), vec![false, false, true]);
}

#[test]
fn test_items_mode_compares_items() {
    let previous = vec![entry("a", Some("x"), &[1, 2])];
    let current = vec![entry("a", Some("x"), &[2, 1])];
    assert_eq!(changed_stockpiles(&previous, &current, DiffMode::Items), vec![true]);
    assert_eq!(changed_stockpiles(&previous, &current, DiffMode::Any), vec![false]);
}

#[test]
fn test_last_previous_stockpile_with_a_key_counts() {
    let previous = vec![entry("a", Some("old"), &[]), entry("a", Some("new"), &[])];
    let current = vec![entry("a", Some("new"), &[])];
    assert_eq!(changed_stockpiles(&previous, &current, DiffMode::Any), vec![false]);
}

#[test]
fn test_unchanged_save_reports_nothing() {
    let state = vec![entry("a", Some("1"), &[1]), entry("b", None, &[])];
    let again = vec![entry("a", Some("1"), &[1]), entry("b", None, &[])];
    assert_eq!(changed_stockpiles(&state, &again, DiffMode::Any), vec![false, false]);
    assert_eq!(changed_stockpiles(&state, &again, DiffMode::Items), vec![false, false]);
}

#[test]
fn test_should_emit() {
    let mut last = None;
    assert!(should_emit(false, &mut last, Some("x".to_string())));
    assert_eq!(last, None);
    assert!(should_emit(true, &mut last, Some("x".to_string())));
    assert_eq!(last, Some("x".to_string()));
    assert!(!should_emit(true, &mut last, Some("x".to_string())));
    assert!(should_emit(true, &mut last, None));
    assert!(!should_emit(true, &mut last, None));
}

#[test]
fn test_watch_report_without_diff_lists_everything() {
    let previous = vec![entry("a", Some("1"), &[1])];
    let current = vec![entry("a", Some("1"), &[1]), entry("b", Some("2"), &[2])];
    assert_eq!(watch_report(&previous, &current, None), Some(vec![0, 1]));
    assert_eq!(watch_report(&previous, &Vec::new(), None), Some(vec![]));
}

#[test]
fn test_watch_report_lists_changed_in_order() {
    let previous = vec![entry("a", Some("1"), &[1]), entry("b", Some("2"), &[2])];
    let current = vec![
        entry("c", Some("9"), &[9]),
        entry("a", Some("1"), &[1]),
        entry("b", Some("3"), &[2]),
    ];
    assert_eq!(watch_report(&previous, &current, Some(DiffMode::Any)), Some(vec![0, 2]));
    assert_eq!(watch_report(&previous, &current, Some(DiffMode::Items)), Some(vec![0]));
}

#[test]
fn test_watch_report_nothing_when_unchanged() {
    let previous = vec![entry("a", Some("1"), &[1]), entry("b", Some("2"), &[2])];
    let current = vec![entry("a", Some("1"), &[1]), entry("b", Some("2"), &[2])];
    assert_eq!(watch_report(&previous, &current, Some(DiffMode::Any)), None);
    assert_eq!(watch_report(&previous, &current, Some(DiffMode::Items)), None);
}
