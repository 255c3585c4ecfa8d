use fs_sav::python::apply_filters as py_apply_filters;
use fs_sav::{apply_filters, Faction, FilterArgs, Stockpile, StockpileItem};

fn pile(name: &str, ty: &str, faction: Faction, hex: Option<&str>, reserve: bool, items: usize) -> Stockpile {
    Stockpile {
        name: name.to_string(),
        stockpile_type: ty.to_string(),
        faction,
        hex: hex.map(|h| h.to_string()),
        coords: None,
        is_reserve: reserve,
        items: (0..items).map(|i| StockpileItem::new(format!("Item{i}"), 1, false)).collect(),
        tech: None,
        timestamp: Some(0),
        shard: None,
        ingame_timestamp: None,
        resolution: None,
        errors: None,
    }
}

fn piles() -> Vec<Stockpile> {
    vec![
        pile("", "Seaport", Faction::Warden, Some("TerminusHex"), false, 2),
        pile("Res", "Seaport", Faction::Colonial, Some("TerminusHex"), true, 0),
        pile("", "StorageFacility", Faction::Colonial, Some("DeadLandsHex"), false, 0),
        pile("Depot", "StorageFacility", Faction::Warden, None, true, 1),
    ]
}

fn labels(s: &[Stockpile]) -> Vec<(String, String)> {
    s.iter().map(|p| (p.stockpile_type.clone(), p.name.clone())).collect()
}

#[test]
fn test_python_filters_match_cli_filters_without_faction() {
    let cases: Vec<(bool, bool, Option<&str>, Option<&str>, bool)> = vec![
        (false, false, None, None, false),
        (true, false, None, None, false),
        (false, true, None, None, false),
        (false, false, Some("TerminusHex"), None, false),
        (false, false, None, Some("seaPORT"), false),
        (false, false, None, Some("StorageFacility"), true),
        (true, false, Some("DeadLandsHex"), Some("storagefacility"), false),
    ];
    for (public, reserves, hex, ty, with_items) in cases {
        let py = py_apply_filters(piles(), public, reserves, hex, ty, with_items);
        let args = FilterArgs {
            public,
            reserves,
            hex: hex.map(|h| h.to_string()),
            stockpile_type: ty.map(|t| t.to_string()),
            faction: None,
        };
        let cli = apply_filters(piles(), &args, with_items);
        assert_eq!(labels(&py), labels(&cli));
    }
}

#[test]
fn test_python_type_filter_ignores_case_and_keeps_order() {
    let kept = py_apply_filters(piles(), false, false, None, Some("SEAPORT"), false);
    assert_eq!(
        labels(&kept),
        vec![("Seaport".to_string(), "".to_string()), ("Seaport".to_string(), "Res".to_string())]
    );
    assert!(py_apply_filters(piles(), false, false, None, Some("Sea"), false).is_empty());
}

#[test]
fn test_python_type_filter_reads_the_json_text() {
    // A type holding a quote is written `Sea\"port` in JSON.
    let odd = vec![pile("", "Sea\"port", Faction::Warden, None, false, 1)];
    assert!(py_apply_filters(odd.clone(), false, false, None, Some("Sea\"port"), false).is_empty());
    assert_eq!(py_apply_filters(odd.clone(), false, false, None, Some("sea\\\"PORT"), false).len(), 1);
    // The command line compares the type itself.
    let args = FilterArgs {
        public: false,
        reserves: false,
        hex: None,
        stockpile_type: Some("Sea\"port".to_string()),
        faction: None,
    };
    assert_eq!(apply_filters(odd.clone(), &args, false).len(), 1);
}

#[test]
fn test_python_filter_trims_quotes_around_the_type() {
    // `"Keep"` is written `"\"Keep\""`; trimming quotes leaves `\"Keep\`.
    let quoted = vec![pile("", "\"Keep\"", Faction::Colonial, None, false, 0)];
    assert_eq!(py_apply_filters(quoted.clone(), false, false, None, Some("\\\"Keep\\"), false).len(), 1);
    assert!(py_apply_filters(quoted.clone(), false, false, None, Some("Keep"), false).is_empty());
}

#[test]
fn test_python_type_filter_reads_control_character_escapes() {
    // A tab is written `\t`, another control character `\u00XX` in lower-case hex.
    let tabbed = vec![pile("", "Sea\tport", Faction::Warden, None, false, 0)];
    assert_eq!(py_apply_filters(tabbed.clone(), false, false, None, Some("SEA\\TPORT"), false).len(), 1);
    assert!(py_apply_filters(tabbed.clone(), false, false, None, Some("Sea\tport"), false).is_empty());
    let ctrl = vec![pile("", "A\u{1b}", Faction::Warden, None, false, 0)];
    assert_eq!(py_apply_filters(ctrl.clone(), false, false, None, Some("a\\u001b"), false).len(), 1);
}
