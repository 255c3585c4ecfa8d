use fs_sav::{apply_filters, parse_faction, Faction, FilterArgs, Stockpile, StockpileItem};

fn stockpile(name: &str, ty: &str, faction: Faction, hex: Option<&str>, reserve: bool, items: usize) -> Stockpile {
    Stockpile {
        name: name.to_string(),
        stockpile_type: ty.to_string(),
        faction,
        hex: hex.map(|h| h.to_string()),
        coords: None,
        is_reserve: reserve,
        items: (0..items).map(|i| StockpileItem::new(format!("Item{i}"), 1, false)).collect(),
        tech: None,
        timestamp: Some(0),
        shard: None,
        ingame_timestamp: None,
        resolution: None,
        errors: None,
    }
}

fn sample() -> Vec<Stockpile> {
    vec![
        stockpile("", "Seaport", Faction::Warden, Some("TerminusHex"), false, 2),
        stockpile("Res", "Seaport", Faction::Warden, Some("TerminusHex"), true, 0),
        stockpile("", "StorageFacility", Faction::Colonial, Some("DeadLandsHex"), false, 0),
        stockpile("Depot", "StorageFacility", Faction::Colonial, None, true, 1),
    ]
}

fn no_filters() -> FilterArgs {
    FilterArgs { public: false, reserves: false, hex: None, stockpile_type: None, faction: None }
}

fn names(s: &[Stockpile]) -> Vec<(String, String)> {
    s.iter().map(|p| (p.stockpile_type.clone(), p.name.clone())).collect()
}

#[test]
fn test_no_filters_keep_everything_in_order() {
    let kept = apply_filters(sample(), &no_filters(), false);
    assert_eq!(names(&kept), names(&sample()));
}

#[test]
fn test_public_and_reserves_filters() {
    let public = apply_filters(sample(), &FilterArgs { public: true, ..no_filters() }, false);
    assert!(public.iter().all(|s| !s.is_reserve));
    assert_eq!(public.len(), 2);
    let reserves = apply_filters(sample(), &FilterArgs { reserves: true, ..no_filters() }, false);
    assert!(reserves.iter().all(|s| s.is_reserve));
    assert_eq!(reserves.len(), 2);
}

#[test]
fn test_hex_type_faction_and_items_filters() {
    let hex = apply_filters(
        sample(),
        &FilterArgs { hex: Some("TerminusHex".to_string()), ..no_filters() },
        false,
    );
    assert_eq!(hex.len(), 2);
    let ty = apply_filters(
        sample(),
        &FilterArgs { stockpile_type: Some("storagefacility".to_string()), ..no_filters() },
        false,
    );
    assert_eq!(names(&ty), vec![
        ("StorageFacility".to_string(), "".to_string()),
        ("StorageFacility".to_string(), "Depot".to_string()),
    ]);
    let colonial = apply_filters(
        sample(),
        &FilterArgs { faction: Some(Faction::Colonial), ..no_filters() },
        false,
    );
    assert!(colonial.iter().all(|s| s.faction == Faction::Colonial));
    assert_eq!(colonial.len(), 2);
    let with_items = apply_filters(sample(), &no_filters(), true);
    assert_eq!(names(&with_items), vec![
        ("Seaport".to_string(), "".to_string()),
        ("StorageFacility".to_string(), "Depot".to_string()),
    ]);
}

#[test]
fn test_filtering_twice_changes_nothing() {
    let f = FilterArgs { public: true, hex: Some("TerminusHex".to_string()), ..no_filters() };
    let once = apply_filters(sample(), &f, true);
    let twice = apply_filters(apply_filters(sample(), &f, true), &f, true);
    assert_eq!(names(&once), names(&twice));
}

#[test]
fn test_parse_faction() {
    assert_eq!(parse_faction("C"), Ok(Faction::Colonial));
    assert_eq!(parse_faction("colonial"), Ok(Faction::Colonial));
    assert_eq!(parse_faction("ColoniAL"), Ok(Faction::Colonial));
    assert_eq!(parse_faction("w"), Ok(Faction::Warden));
    assert_eq!(parse_faction("WARDEN"), Ok(Faction::Warden));
    assert_eq!(
        parse_faction("Xy"),
        Err("invalid faction 'xy' (expected C/Colonial or W/Warden)".to_string())
    );
    assert!(parse_faction("").is_err());
}

#[test]
fn test_default_filters_keep_everything() {
    let kept = apply_filters(sample(), &FilterArgs::default(), true);
    assert_eq!(kept.len(), 2);
    let kept = apply_filters(sample(), &FilterArgs::default(), false);
    assert_eq!(names(&kept), names(&sample()));
}
