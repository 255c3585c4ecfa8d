//! End-to-end: saves written with `uesave`, then read back by the library.

use fs_sav::{extract_stockpiles, parse_save_result, Faction, FloatBits, FsSavError, Stockpile};
use uesave::{
    ByteArray, Double, FGuid, Header, Properties, Property, PropertySchemas, PropertyTagDataPartial,
    PropertyTagPartial, PropertyType, Root, Save, SaveReader, StructType, StructValue, ValueVec, Vector2D,
};

const HEADER: &str = r#"{"magic":1396790855,"save_game_version":2,"package_version":{"ue4":522,"ue5":null},"engine_version_major":4,"engine_version_minor":27,"engine_version_patch":0,"engine_version_build":0,"engine_version":"4.27.0","custom_version":[3,[]]}"#;

fn record(schemas: &mut PropertySchemas, path: &str, data: PropertyTagDataPartial) {
    schemas.record(path.to_string(), PropertyTagPartial { id: None, data });
}

fn struct_tag(name: &str) -> PropertyTagDataPartial {
    PropertyTagDataPartial::Struct {
        struct_type: StructType::Struct(Some(name.to_string())),
        id: FGuid::default(),
    }
}

fn builtin_tag(struct_type: StructType) -> PropertyTagDataPartial {
    PropertyTagDataPartial::Struct { struct_type, id: FGuid::default() }
}

fn array_of(inner: PropertyTagDataPartial) -> PropertyTagDataPartial {
    PropertyTagDataPartial::Array(Box::new(inner))
}

fn other(t: PropertyType) -> PropertyTagDataPartial {
    PropertyTagDataPartial::Other(t)
}

/// Schemas for the properties of the tooltips under `root_name`.
fn record_tooltip_schemas(schemas: &mut PropertySchemas, root_name: &str) {
    let p = |rest: &str| format!("{root_name}{rest}");
    record(schemas, &p(""), array_of(struct_tag("MapToolTip")));
    record(schemas, &p(".CodeName"), other(PropertyType::StrProperty));
    record(schemas, &p(".MapId"), other(PropertyType::NameProperty));
    record(schemas, &p(".NormalizedMapCoords"), builtin_tag(StructType::Vector2D));
    record(schemas, &p(".LastUpdated"), builtin_tag(StructType::DateTime));
    record(schemas, &p(".RecentMapItemDetails"), struct_tag("MapItemDetails"));
    record(schemas, &p(".InitalMapItemDetails"), struct_tag("MapItemDetails"));
    record(schemas, &p(".InitalMapItemDetails.Values"), array_of(PropertyTagDataPartial::Byte(None)));
    let d = |rest: &str| format!("{root_name}.RecentMapItemDetails{rest}");
    record(schemas, &d(".Values"), array_of(PropertyTagDataPartial::Byte(None)));
    record(schemas, &d(".StockpileInfo"), struct_tag("StockpileInfo"));
    record(schemas, &d(".ReserveStockpileInfoList"), array_of(struct_tag("ReserveStockpileInfo")));
    record(schemas, &d(".ReserveStockpileInfoList.StockpileName"), other(PropertyType::StrProperty));
    record(schemas, &d(".ReserveStockpileInfoList.StockpileInfo"), struct_tag("StockpileInfo"));
    for info in [d(".StockpileInfo"), d(".ReserveStockpileInfoList.StockpileInfo")] {
        for group in ["Items", "ItemCrates", "Vehicles"] {
            record(schemas, &format!("{info}.{group}"), array_of(struct_tag("StockpileItem")));
            record(schemas, &format!("{info}.{group}.CodeName"), other(PropertyType::StrProperty));
            record(schemas, &format!("{info}.{group}.Quantity"), other(PropertyType::UInt32Property));
        }
    }
}

fn props(entries: Vec<(&str, Property)>) -> Properties {
    let mut p = Properties::default();
    for (k, v) in entries {
        p.insert(k, v);
    }
    p
}

fn item(code: &str, quantity: u32) -> StructValue {
    StructValue::Struct(props(vec![
        ("CodeName", Property::Str(code.to_string())),
        ("Quantity", Property::UInt32(quantity)),
    ]))
}

fn struct_array(values: Vec<StructValue>) -> Property {
    Property::Array(ValueVec::Struct(values))
}

fn bytes(values: Vec<u8>) -> Property {
    Property::Array(ValueVec::Byte(ByteArray::Byte(values)))
}

fn write_save(root: Properties, schemas: PropertySchemas) -> Vec<u8> {
    let header: Header = serde_json::from_str(HEADER).unwrap();
    let save = Save {
        header,
        schemas,
        root: Root { save_game_type: "/Script/War.WarSaveGame".to_string(), properties: root },
        extra: vec![],
    };
    let mut buf = Vec::new();
    save.write(&mut buf).unwrap();
    buf
}

fn town_base_tooltip() -> StructValue {
    let info = StructValue::Struct(props(vec![
        ("Items", struct_array(vec![item("RifleC", 5), item("RifleAmmo", 30), item("Bandages", 5)])),
        ("ItemCrates", struct_array(vec![item("SoldierSupplies", 2)])),
    ]));
    let reserve = StructValue::Struct(props(vec![
        ("StockpileName", Property::Str("Res1".to_string())),
        ("StockpileInfo", Property::Struct(StructValue::Struct(props(vec![(
            "Items",
            struct_array(vec![item("Cloth", 7)]),
        )])))),
    ]));
    StructValue::Struct(props(vec![
        ("CodeName", Property::Str("TownBase3".to_string())),
        ("MapId", Property::Name("EWorldConquestMapId::TerminusHex".to_string())),
        (
            "NormalizedMapCoords",
            Property::Struct(StructValue::Vector2D(Vector2D { x: Double(0.5), y: Double(0.25) })),
        ),
        ("LastUpdated", Property::Struct(StructValue::DateTime(638392320000000000))),
        (
            "RecentMapItemDetails",
            Property::Struct(StructValue::Struct(props(vec![
                ("StockpileInfo", Property::Struct(info)),
                ("Values", bytes(vec![])),
                ("ReserveStockpileInfoList", struct_array(vec![reserve])),
            ]))),
        ),
        (
            "InitalMapItemDetails",
            Property::Struct(StructValue::Struct(props(vec![("Values", bytes(vec![100, 18, 0, 10, 0, 0]))]))),
        ),
    ]))
}

fn seaport_tooltip() -> StructValue {
    StructValue::Struct(props(vec![
        ("CodeName", Property::Str("Seaport".to_string())),
        ("MapId", Property::Name("DeadLandsHex".to_string())),
        ("RecentMapItemDetails", Property::Struct(StructValue::Struct(Properties::default()))),
    ]))
}

fn sample_save() -> Vec<u8> {
    let mut schemas = PropertySchemas::new();
    record_tooltip_schemas(&mut schemas, "PinnedMapToolTipsW");
    record_tooltip_schemas(&mut schemas, "PinnedMapToolTipsC");
    let root = props(vec![
        ("PinnedMapToolTipsW", struct_array(vec![town_base_tooltip()])),
        ("PinnedMapToolTipsC", struct_array(vec![seaport_tooltip()])),
    ]);
    write_save(root, schemas)
}

/// Read the bytes with uesave and hand the outcome to the library.
fn parse_save_bytes(data: &[u8]) -> Result<Vec<Stockpile>, FsSavError> {
    let read = SaveReader::new()
        .error_to_raw(true)
        .read(std::io::Cursor::new(data))
        .map_err(|e| e.to_string());
    parse_save_result(read)
}

fn codes(s: &Stockpile) -> Vec<(String, i32, bool)> {
    s.items.iter().map(|i| (i.code.clone(), i.quantity, i.crated)).collect()
}

#[test]
fn test_save_stockpiles_colonial_first() {
    let stockpiles = parse_save_bytes(&sample_save()).expect("save parses");
    assert_eq!(stockpiles.len(), 3);
    assert_eq!(stockpiles[0].faction, Faction::Colonial);
    assert_eq!(stockpiles[1].faction, Faction::Warden);
    assert_eq!(stockpiles[2].faction, Faction::Warden);
}

#[test]
fn test_save_public_stockpile() {
    let stockpiles = parse_save_bytes(&sample_save()).expect("save parses");
    let town = &stockpiles[1];
    assert_eq!(town.name, "");
    assert_eq!(town.stockpile_type, "TownBase3");
    assert_eq!(town.hex.as_deref(), Some("TerminusHex"));
    assert!(!town.is_reserve);
    assert_eq!(
        town.coords.map(|c| (c.x, c.y)),
        Some((FloatBits::Double(0.5f64.to_bits()), FloatBits::Double(0.25f64.to_bits())))
    );
    assert_eq!(town.timestamp, Some(1703635200));
    assert!(town.errors.is_none());
    // Each group sorted by quantity, largest first, ties in save order.
    assert_eq!(
        codes(town),
        vec![
            ("RifleAmmo".to_string(), 30, false),
            ("RifleC".to_string(), 5, false),
            ("Bandages".to_string(), 5, false),
            ("SoldierSupplies".to_string(), 2, true),
        ]
    );
    // The recent Values array is empty, so the initial one gives the tech.
    let tech = town.tech.expect("town base tech");
    assert_eq!(tech.provisional_garrison, Some(100));
    assert_eq!(tech.small_garrison, Some(18));
    assert_eq!(tech.industry, Some(10));
    assert_eq!(tech.fortifications, Some(0));
    assert_eq!(tech.radio_station, None);
}

#[test]
fn test_save_reserve_stockpile() {
    let stockpiles = parse_save_bytes(&sample_save()).expect("save parses");
    let reserve = &stockpiles[2];
    assert_eq!(reserve.name, "Res1");
    assert!(reserve.is_reserve);
    assert_eq!(reserve.stockpile_type, "TownBase3");
    assert_eq!(reserve.hex.as_deref(), Some("TerminusHex"));
    assert_eq!(reserve.timestamp, Some(1703635200));
    assert!(reserve.tech.is_none());
    assert_eq!(codes(reserve), vec![("Cloth".to_string(), 7, false)]);
}

#[test]
fn test_save_stockpile_without_timestamp() {
    let stockpiles = parse_save_bytes(&sample_save()).expect("save parses");
    let seaport = &stockpiles[0];
    assert_eq!(seaport.stockpile_type, "Seaport");
    assert_eq!(seaport.hex.as_deref(), Some("DeadLandsHex"));
    assert!(seaport.coords.is_none());
    assert!(seaport.items.is_empty());
    assert!(seaport.tech.is_none());
    assert_eq!(seaport.timestamp, None);
    assert_eq!(
        seaport.errors,
        Some(vec!["missing or invalid LastUpdated timestamp".to_string()])
    );
}

#[test]
fn test_save_without_tooltips_has_no_stockpiles() {
    let mut schemas = PropertySchemas::new();
    record(&mut schemas, "SomethingElse", other(PropertyType::IntProperty));
    let root = props(vec![("SomethingElse", Property::Int(3))]);
    let stockpiles = parse_save_bytes(&write_save(root, schemas)).expect("save parses");
    assert!(stockpiles.is_empty());
}

fn one_faction_save(prop_name: &str, tooltip: StructValue) -> Vec<u8> {
    let mut schemas = PropertySchemas::new();
    record_tooltip_schemas(&mut schemas, prop_name);
    let root = props(vec![(prop_name, struct_array(vec![tooltip]))]);
    write_save(root, schemas)
}

#[test]
fn test_save_factions_independent() {
    let all = parse_save_bytes(&sample_save()).expect("save parses");
    let colonial = parse_save_bytes(&one_faction_save("PinnedMapToolTipsC", seaport_tooltip()))
        .expect("save parses");
    let warden = parse_save_bytes(&one_faction_save("PinnedMapToolTipsW", town_base_tooltip()))
        .expect("save parses");
    let of = |f: Faction| all.iter().filter(|s| s.faction == f).cloned().collect::<Vec<_>>();
    assert_eq!(colonial, of(Faction::Colonial));
    assert_eq!(warden, of(Faction::Warden));
    assert_eq!(colonial.len() + warden.len(), all.len());
    assert_eq!(all[..colonial.len()].to_vec(), colonial);
}

#[test]
fn test_extract_stockpiles_of_a_read_save() {
    let save = SaveReader::new()
        .error_to_raw(true)
        .read(std::io::Cursor::new(sample_save()))
        .expect("save reads");
    let stockpiles = extract_stockpiles(&save);
    let names: Vec<(String, bool)> =
        stockpiles.iter().map(|s| (s.stockpile_type.clone(), s.is_reserve)).collect();
    assert_eq!(
        names,
        vec![
            ("Seaport".to_string(), false),
            ("TownBase3".to_string(), false),
            ("TownBase3".to_string(), true)
        ]
    );
}
