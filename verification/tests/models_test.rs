use fs_sav::models::{tech_components, TechComponent};
use fs_sav::{info, parse_tech, Faction, FloatBits, FsSavError, Stockpile, StockpileCoords};

#[test]
fn test_parse_tech_garrison_station() {
    // GarrisonStation: index 3 = RadioStation, 4 = ArtilleryShelter.
    let tech = parse_tech("GarrisonStation", &[100, 50, 0, 30, 0]).unwrap();
    assert_eq!(tech.provisional_garrison, Some(100));
    assert_eq!(tech.small_garrison, Some(50));
    assert_eq!(tech.large_garrison, Some(0));
    assert_eq!(tech.radio_station, Some(30));
    assert_eq!(tech.artillery_shelter, Some(0));
    // Slots that don't apply to this structure stay unset.
    assert_eq!(tech.fortifications, None);
    assert_eq!(tech.industry, None);
}

#[test]
fn test_parse_tech_index3_differs_by_type() {
    // The 4th value is Fortifications for a RelicBase but RadioStation for
    // a GarrisonStation - position is per-type, meaning is shared.
    let relic = parse_tech("RelicBase1", &[100, 100, 100, 80]).unwrap();
    assert_eq!(relic.fortifications, Some(80));
    assert_eq!(relic.radio_station, None);

    let garrison = parse_tech("GarrisonStation", &[100, 100, 100, 80, 0]).unwrap();
    assert_eq!(garrison.radio_station, Some(80));
    assert_eq!(garrison.fortifications, None);
}

#[test]
fn test_parse_tech_fort_base_full_eleven_slots() {
    let tech = parse_tech("FortBaseT2", &[100, 100, 70, 100, 100, 0, 0, 0, 0, 0, 0]).unwrap();
    assert_eq!(tech.t1_garrison, Some(100));
    assert_eq!(tech.t2_garrison, Some(100));
    assert_eq!(tech.advanced_bunkers, Some(0));
}

#[test]
fn test_parse_tech_none_for_non_tech_and_empty() {
    // Facilities/depots have no tech.
    assert!(parse_tech("Seaport", &[100, 100]).is_none());
    // A base with no values present yields None rather than an empty Tech.
    assert!(parse_tech("Keep", &[]).is_none());
    // An unrecognized CodeName has no known tech layout.
    assert!(parse_tech("BrandNewBase", &[100, 100]).is_none());
}

#[test]
fn test_parse_tech_ignores_values_beyond_layout() {
    let tech = parse_tech("Keep", &[10, 20, 30, 40, 50]).unwrap();
    assert_eq!(tech.provisional_garrison, Some(10));
    assert_eq!(tech.small_garrison, Some(20));
    assert_eq!(tech.large_garrison, Some(30));
    assert_eq!(tech.t1_garrison, None);
    assert_eq!(tech.industry, None);
}

#[test]
fn test_parse_tech_short_values_leave_later_slots_unset() {
    let tech = parse_tech("TownBase2", &[100, 18]).unwrap();
    assert_eq!(tech.provisional_garrison, Some(100));
    assert_eq!(tech.small_garrison, Some(18));
    assert_eq!(tech.large_garrison, None);
    assert_eq!(tech.industry, None);
    assert_eq!(tech.occupied_town, None);
    assert_eq!(tech.fortifications, None);
}

#[test]
fn test_parse_tech_code_name_is_case_sensitive() {
    assert!(parse_tech("keep", &[100]).is_none());
    assert!(parse_tech("BorderBase", &[7]).unwrap().provisional_garrison == Some(7));
}

#[test]
fn test_tech_components_in_tree_order() {
    assert_eq!(
        tech_components("TownBase1"),
        vec![
            TechComponent::ProvisionalGarrison,
            TechComponent::SmallGarrison,
            TechComponent::LargeGarrison,
            TechComponent::Industry,
            TechComponent::OccupiedTown,
            TechComponent::Fortifications,
        ]
    );
    assert_eq!(tech_components("FortBaseT3").len(), 11);
    assert_eq!(tech_components("ForwardBase1"), tech_components("Keep"));
    assert!(tech_components("Hospital").is_empty());
}

#[test]
fn test_info() {
    let i = info();
    assert_eq!(i.implementation, "rust");
    assert_eq!(i.version, "0.1.0");
}

#[test]
fn test_error_messages() {
    assert_eq!(
        FsSavError::ParseError("bad magic".to_string()).message(),
        "Failed to parse save file: bad magic"
    );
    assert_eq!(
        FsSavError::FileNotFound("War.sav".to_string()).message(),
        "File not found: War.sav"
    );
    assert_eq!(FsSavError::WatchError("x".to_string()).message(), "Watch error: x");
}

fn keyed_stockpile(name: &str, ty: &str, hex: Option<&str>, coords: Option<(f64, f64)>) -> Stockpile {
    Stockpile {
        name: name.to_string(),
        stockpile_type: ty.to_string(),
        faction: Faction::Warden,
        hex: hex.map(|h| h.to_string()),
        coords: coords.map(|(x, y)| StockpileCoords {
            x: FloatBits::Double(x.to_bits()),
            y: FloatBits::Double(y.to_bits()),
        }),
        is_reserve: false,
        items: vec![],
        tech: None,
        timestamp: Some(1703635200),
        shard: None,
        ingame_timestamp: None,
        resolution: None,
        errors: None,
    }
}

#[test]
fn test_stockpile_to_key() {
    let stockpile = keyed_stockpile("Test", "Seaport", Some("Westgate"), Some((0.5, 0.5)));
    let key = stockpile.to_key(&format!("{:.6},{:.6}", 0.5f64, 0.5f64));
    assert!(key.contains("Seaport"));
    assert!(key.contains("Westgate"));
    assert!(key.contains("Test"));
    assert_eq!(key, "Seaport:Westgate:0.500000,0.500000:Test");
}

#[test]
fn test_stockpile_key_fallbacks() {
    // An empty type shows as "Undefined", a missing hex as nothing, and
    // missing coordinates as "0,0" whatever text is given for them.
    let stockpile = keyed_stockpile("", "", None, None);
    assert_eq!(stockpile.to_key("0.100000,0.200000"), "Undefined::0,0:");
}
