//! Data models of the stockpile schema, and the decoding of garrison tech.

use vstd::prelude::*;

use crate::save::FloatBits;
use crate::text::str_eq;
use vstd::string::StringExecFns;

verus! {

/// A single garrison/upgrade tech component (a value of the in-game
/// `ETechComponentID` enum). Shared identifiers mean the same component across
/// structures; only their position in a structure's `Values` array differs.
#[derive(Debug, Clone, Copy, PartialEq, Eq, Structural)]
pub enum TechComponent {
    ProvisionalGarrison,
    SmallGarrison,
    LargeGarrison,
    T1Garrison,
    T2Garrison,
    T3Garrison,
    ArtilleryGarrison,
    T1SupportBunkers,
    T3SupportBunkers,
    Deployment,
    AdvancedBunkers,
    RadioStation,
    ArtilleryShelter,
    Industry,
    OccupiedTown,
    Fortifications,
}

impl TechComponent {
    /// Position of the component's field in [`Tech`] (declaration order).
    pub open spec fn rank(self) -> int {
        match self {
            TechComponent::ProvisionalGarrison => 0,
            TechComponent::SmallGarrison => 1,
            TechComponent::LargeGarrison => 2,
            TechComponent::T1Garrison => 3,
            TechComponent::T2Garrison => 4,
            TechComponent::T3Garrison => 5,
            TechComponent::ArtilleryGarrison => 6,
            TechComponent::T1SupportBunkers => 7,
            TechComponent::T3SupportBunkers => 8,
            TechComponent::Deployment => 9,
            TechComponent::AdvancedBunkers => 10,
            TechComponent::RadioStation => 11,
            TechComponent::ArtilleryShelter => 12,
            TechComponent::Industry => 13,
            TechComponent::OccupiedTown => 14,
            TechComponent::Fortifications => 15,
        }
    }

    /// Record `value` as the build progress of this component in `tech`.
    pub fn assign(self, tech: &mut Tech, value: u8)
        ensures
            final(tech).component(self) == Some(value),
            forall|c: TechComponent| c != self ==> final(tech).component(c) == old(tech).component(c),
    {
        match self {
            TechComponent::ProvisionalGarrison => tech.provisional_garrison = Some(value),
            TechComponent::SmallGarrison => tech.small_garrison = Some(value),
            TechComponent::LargeGarrison => tech.large_garrison = Some(value),
            TechComponent::T1Garrison => tech.t1_garrison = Some(value),
            TechComponent::T2Garrison => tech.t2_garrison = Some(value),
            TechComponent::T3Garrison => tech.t3_garrison = Some(value),
            TechComponent::ArtilleryGarrison => tech.artillery_garrison = Some(value),
            TechComponent::T1SupportBunkers => tech.t1_support_bunkers = Some(value),
            TechComponent::T3SupportBunkers => tech.t3_support_bunkers = Some(value),
            TechComponent::Deployment => tech.deployment = Some(value),
            TechComponent::AdvancedBunkers => tech.advanced_bunkers = Some(value),
            TechComponent::RadioStation => tech.radio_station = Some(value),
            TechComponent::ArtilleryShelter => tech.artillery_shelter = Some(value),
            TechComponent::Industry => tech.industry = Some(value),
            TechComponent::OccupiedTown => tech.occupied_town = Some(value),
            TechComponent::Fortifications => tech.fortifications = Some(value),
        }
    }
}

/// Garrison/upgrade tech build progress (0-100 per slot) for a base structure.
/// Each field is a tech component; only the slots that exist for a given
/// structure are populated. Fields are declared in an order that keeps every
/// structure's slots in tech-tree order.
#[derive(Debug, Clone, Copy, PartialEq, Eq)]
pub struct Tech {
    pub provisional_garrison: Option<u8>,
    pub small_garrison: Option<u8>,
    pub large_garrison: Option<u8>,
    pub t1_garrison: Option<u8>,
    pub t2_garrison: Option<u8>,
    pub t3_garrison: Option<u8>,
    pub artillery_garrison: Option<u8>,
    pub t1_support_bunkers: Option<u8>,
    pub t3_support_bunkers: Option<u8>,
    pub deployment: Option<u8>,
    pub advanced_bunkers: Option<u8>,
    pub radio_station: Option<u8>,
    pub artillery_shelter: Option<u8>,
    pub industry: Option<u8>,
    pub occupied_town: Option<u8>,
    pub fortifications: Option<u8>,
}

impl Tech {
    /// The slot of `tech` that holds component `c`.
    pub open spec fn component(self, c: TechComponent) -> Option<u8> {
        match c {
            TechComponent::ProvisionalGarrison => self.provisional_garrison,
            TechComponent::SmallGarrison => self.small_garrison,
            TechComponent::LargeGarrison => self.large_garrison,
            TechComponent::T1Garrison => self.t1_garrison,
            TechComponent::T2Garrison => self.t2_garrison,
            TechComponent::T3Garrison => self.t3_garrison,
            TechComponent::ArtilleryGarrison => self.artillery_garrison,
            TechComponent::T1SupportBunkers => self.t1_support_bunkers,
            TechComponent::T3SupportBunkers => self.t3_support_bunkers,
            TechComponent::Deployment => self.deployment,
            TechComponent::AdvancedBunkers => self.advanced_bunkers,
            TechComponent::RadioStation => self.radio_station,
            TechComponent::ArtilleryShelter => self.artillery_shelter,
            TechComponent::Industry => self.industry,
            TechComponent::OccupiedTown => self.occupied_town,
            TechComponent::Fortifications => self.fortifications,
        }
    }
}

impl Default for Tech {
    /// A tech record with every slot unset.
    fn default() -> (r: Self)
        ensures
            forall|c: TechComponent| r.component(c) is None,
    {
        Tech {
            provisional_garrison: None,
            small_garrison: None,
            large_garrison: None,
            t1_garrison: None,
            t2_garrison: None,
            t3_garrison: None,
            artillery_garrison: None,
            t1_support_bunkers: None,
            t3_support_bunkers: None,
            deployment: None,
            advanced_bunkers: None,
            radio_station: None,
            artillery_shelter: None,
            industry: None,
            occupied_town: None,
            fortifications: None,
        }
    }
}

/// Ordered tech-tree garrison/upgrade slots for a structure, keyed by its
/// in-game CodeName and matching the positional `Values.Byte` array in the
/// save. Empty for structures (facilities, depots, ships) that have no tech,
/// and for any unrecognized CodeName.
pub open spec fn tech_layout(code_name: Seq<char>) -> Seq<TechComponent> {
    if code_name == "ForwardBase1"@ || code_name == "Keep"@ {
        seq![
            TechComponent::ProvisionalGarrison,
            TechComponent::SmallGarrison,
            TechComponent::LargeGarrison,
        ]
    } else if code_name == "BorderBase"@ {
        seq![TechComponent::ProvisionalGarrison]
    } else if code_name == "RelicBase1"@ {
        seq![
            TechComponent::ProvisionalGarrison,
            TechComponent::SmallGarrison,
            TechComponent::LargeGarrison,
            TechComponent::Fortifications,
        ]
    } else if code_name == "GarrisonStation"@ {
        seq![
            TechComponent::ProvisionalGarrison,
            TechComponent::SmallGarrison,
            TechComponent::LargeGarrison,
            TechComponent::RadioStation,
            TechComponent::ArtilleryShelter,
        ]
    } else if code_name == "TownBase1"@ || code_name == "TownBase2"@ || code_name == "TownBase3"@ {
        seq![
            TechComponent::ProvisionalGarrison,
            TechComponent::SmallGarrison,
            TechComponent::LargeGarrison,
            TechComponent::Industry,
            TechComponent::OccupiedTown,
            TechComponent::Fortifications,
        ]
    } else if code_name == "FortBaseT1"@ || code_name == "FortBaseT2"@ || code_name
        == "FortBaseT3"@ {
        seq![
            TechComponent::ProvisionalGarrison,
            TechComponent::SmallGarrison,
            TechComponent::LargeGarrison,
            TechComponent::T1Garrison,
            TechComponent::T2Garrison,
            TechComponent::T3Garrison,
            TechComponent::ArtilleryGarrison,
            TechComponent::T1SupportBunkers,
            TechComponent::T3SupportBunkers,
            TechComponent::Deployment,
            TechComponent::AdvancedBunkers,
        ]
    } else {
        seq![]
    }
}

/// The tech slots of the structure with the given CodeName, in save order.
pub fn tech_components(code_name: &str) -> (r: Vec<TechComponent>)
    ensures
        r@ == tech_layout(code_name@),
{
    if str_eq(code_name, "ForwardBase1") || str_eq(code_name, "Keep") {
        vec![
            TechComponent::ProvisionalGarrison,
            TechComponent::SmallGarrison,
            TechComponent::LargeGarrison,
        ]
    } else if str_eq(code_name, "BorderBase") {
        vec![TechComponent::ProvisionalGarrison]
    } else if str_eq(code_name, "RelicBase1") {
        vec![
            TechComponent::ProvisionalGarrison,
            TechComponent::SmallGarrison,
            TechComponent::LargeGarrison,
            TechComponent::Fortifications,
        ]
    } else if str_eq(code_name, "GarrisonStation") {
        vec![
            TechComponent::ProvisionalGarrison,
            TechComponent::SmallGarrison,
            TechComponent::LargeGarrison,
            TechComponent::RadioStation,
            TechComponent::ArtilleryShelter,
        ]
    } else if str_eq(code_name, "TownBase1") || str_eq(code_name, "TownBase2") || str_eq(
        code_name,
        "TownBase3",
    ) {
        vec![
            TechComponent::ProvisionalGarrison,
            TechComponent::SmallGarrison,
            TechComponent::LargeGarrison,
            TechComponent::Industry,
            TechComponent::OccupiedTown,
            TechComponent::Fortifications,
        ]
    } else if str_eq(code_name, "FortBaseT1") || str_eq(code_name, "FortBaseT2") || str_eq(
        code_name,
        "FortBaseT3",
    ) {
        vec![
            TechComponent::ProvisionalGarrison,
            TechComponent::SmallGarrison,
            TechComponent::LargeGarrison,
            TechComponent::T1Garrison,
            TechComponent::T2Garrison,
            TechComponent::T3Garrison,
            TechComponent::ArtilleryGarrison,
            TechComponent::T1SupportBunkers,
            TechComponent::T3SupportBunkers,
            TechComponent::Deployment,
            TechComponent::AdvancedBunkers,
        ]
    } else {
        Vec::new()
    }
}

/// Every structure's tech slots come in tech-tree (field declaration) order,
/// so no component appears twice in a layout.
pub proof fn lemma_layout_in_tree_order(code_name: Seq<char>)
    ensures
        forall|i: int, j: int|
            0 <= i < j < tech_layout(code_name).len() ==> #[trigger] tech_layout(code_name)[i].rank()
                < #[trigger] tech_layout(code_name)[j].rank(),
{
}

/// The eleven slots of a fort base of any tier.
pub open spec fn fort_base_slots() -> Seq<TechComponent> {
    seq![
        TechComponent::ProvisionalGarrison,
        TechComponent::SmallGarrison,
        TechComponent::LargeGarrison,
        TechComponent::T1Garrison,
        TechComponent::T2Garrison,
        TechComponent::T3Garrison,
        TechComponent::ArtilleryGarrison,
        TechComponent::T1SupportBunkers,
        TechComponent::T3SupportBunkers,
        TechComponent::Deployment,
        TechComponent::AdvancedBunkers,
    ]
}

/// The six slots of a town base of any tier.
pub open spec fn town_base_slots() -> Seq<TechComponent> {
    seq![
        TechComponent::ProvisionalGarrison,
        TechComponent::SmallGarrison,
        TechComponent::LargeGarrison,
        TechComponent::Industry,
        TechComponent::OccupiedTown,
        TechComponent::Fortifications,
    ]
}

/// The CodeNames of the structures that have garrison tech.
pub open spec fn has_tech(code_name: Seq<char>) -> bool {
    code_name == "ForwardBase1"@ || code_name == "Keep"@ || code_name == "BorderBase"@
        || code_name == "RelicBase1"@ || code_name == "GarrisonStation"@ || code_name
        == "TownBase1"@ || code_name == "TownBase2"@ || code_name == "TownBase3"@ || code_name
        == "FortBaseT1"@ || code_name == "FortBaseT2"@ || code_name == "FortBaseT3"@
}

/// The tech layout of each structure: forward bases and keeps have the three
/// garrisons; border bases the provisional garrison; relic bases the three
/// garrisons and fortifications; garrison stations the three garrisons, the
/// radio station and the artillery shelter; town bases of every tier their
/// six slots; fort bases of every tier their eleven slots; every other
/// structure none. So a structure with tech gets a tech record from any
/// non-empty `Values` array.
pub proof fn lemma_tech_layouts(code_name: Seq<char>, values: Seq<u8>)
    ensures
        tech_layout("ForwardBase1"@) == seq![
            TechComponent::ProvisionalGarrison,
            TechComponent::SmallGarrison,
            TechComponent::LargeGarrison,
        ],
        tech_layout("Keep"@) == seq![
            TechComponent::ProvisionalGarrison,
            TechComponent::SmallGarrison,
            TechComponent::LargeGarrison,
        ],
        tech_layout("BorderBase"@) == seq![TechComponent::ProvisionalGarrison],
        tech_layout("RelicBase1"@) == seq![
            TechComponent::ProvisionalGarrison,
            TechComponent::SmallGarrison,
            TechComponent::LargeGarrison,
            TechComponent::Fortifications,
        ],
        tech_layout("GarrisonStation"@) == seq![
            TechComponent::ProvisionalGarrison,
            TechComponent::SmallGarrison,
            TechComponent::LargeGarrison,
            TechComponent::RadioStation,
            TechComponent::ArtilleryShelter,
        ],
        tech_layout("TownBase1"@) == town_base_slots(),
        tech_layout("TownBase2"@) == town_base_slots(),
        tech_layout("TownBase3"@) == town_base_slots(),
        tech_layout("FortBaseT1"@) == fort_base_slots(),
        tech_layout("FortBaseT2"@) == fort_base_slots(),
        tech_layout("FortBaseT3"@) == fort_base_slots(),
        !has_tech(code_name) ==> tech_layout(code_name).len() == 0,
        has_tech(code_name) && values.len() > 0 ==> decoded_tech(code_name, values) is Some,
{
    reveal_strlit("ForwardBase1");
    reveal_strlit("Keep");
    reveal_strlit("BorderBase");
    reveal_strlit("RelicBase1");
    reveal_strlit("GarrisonStation");
    reveal_strlit("TownBase1");
    reveal_strlit("TownBase2");
    reveal_strlit("TownBase3");
    reveal_strlit("FortBaseT1");
    reveal_strlit("FortBaseT2");
    reveal_strlit("FortBaseT3");
    assert("BorderBase"@[0] != "RelicBase1"@[0]);
    assert("BorderBase"@[0] != "FortBaseT1"@[0]);
    assert("BorderBase"@[0] != "FortBaseT2"@[0]);
    assert("BorderBase"@[0] != "FortBaseT3"@[0]);
    assert("RelicBase1"@[0] != "FortBaseT1"@[0]);
    assert("RelicBase1"@[0] != "FortBaseT2"@[0]);
    assert("RelicBase1"@[0] != "FortBaseT3"@[0]);
    assert("TownBase1"@[8] != "TownBase2"@[8]);
    assert("TownBase1"@[8] != "TownBase3"@[8]);
    assert("TownBase2"@[8] != "TownBase3"@[8]);
    assert("FortBaseT1"@[9] != "FortBaseT2"@[9]);
    assert("FortBaseT1"@[9] != "FortBaseT3"@[9]);
    assert("FortBaseT2"@[9] != "FortBaseT3"@[9]);
    assert("BorderBase"@[0] != "TownBase1"@[0]);
    assert("ForwardBase1"@.len() != "FortBaseT1"@.len());
    assert("Keep"@.len() != "FortBaseT1"@.len());
    assert("GarrisonStation"@.len() != "FortBaseT1"@.len());
    assert("TownBase1"@.len() != "FortBaseT1"@.len());
}

/// The value a layout gives to component `c`: the value at the first
/// position of `c` in the layout, if the values reach that far.
pub open spec fn slot_value(layout: Seq<TechComponent>, values: Seq<u8>, c: TechComponent) -> Option<
    u8,
>
    decreases layout.len(),
{
    if layout.len() == 0 || values.len() == 0 {
        None
    } else if layout[0] == c {
        Some(values[0])
    } else {
        slot_value(layout.drop_first(), values.drop_first(), c)
    }
}

/// The tech that a save's `Values` array gives a structure with the given
/// CodeName: `None` when the structure has no tech layout or there are no
/// values; otherwise each slot of the layout holds its value.
pub open spec fn decoded_tech(code_name: Seq<char>, values: Seq<u8>) -> Option<Tech> {
    let l = tech_layout(code_name);
    if l.len() == 0 || values.len() == 0 {
        None
    } else {
        Some(
            Tech {
                provisional_garrison: slot_value(l, values, TechComponent::ProvisionalGarrison),
                small_garrison: slot_value(l, values, TechComponent::SmallGarrison),
                large_garrison: slot_value(l, values, TechComponent::LargeGarrison),
                t1_garrison: slot_value(l, values, TechComponent::T1Garrison),
                t2_garrison: slot_value(l, values, TechComponent::T2Garrison),
                t3_garrison: slot_value(l, values, TechComponent::T3Garrison),
                artillery_garrison: slot_value(l, values, TechComponent::ArtilleryGarrison),
                t1_support_bunkers: slot_value(l, values, TechComponent::T1SupportBunkers),
                t3_support_bunkers: slot_value(l, values, TechComponent::T3SupportBunkers),
                deployment: slot_value(l, values, TechComponent::Deployment),
                advanced_bunkers: slot_value(l, values, TechComponent::AdvancedBunkers),
                radio_station: slot_value(l, values, TechComponent::RadioStation),
                artillery_shelter: slot_value(l, values, TechComponent::ArtilleryShelter),
                industry: slot_value(l, values, TechComponent::Industry),
                occupied_town: slot_value(l, values, TechComponent::OccupiedTown),
                fortifications: slot_value(l, values, TechComponent::Fortifications),
            },
        )
    }
}

/// In a layout without repeats, slot `i` holds `values[i]`.
proof fn lemma_slot_value_at(layout: Seq<TechComponent>, values: Seq<u8>, i: int)
    requires
        0 <= i < layout.len(),
        i < values.len(),
        forall|a: int, b: int| 0 <= a < b < layout.len() ==> layout[a] != layout[b],
    ensures
        slot_value(layout, values, layout[i]) == Some(values[i]),
    decreases i,
{
    if i > 0 {
        assert(layout[0] != layout[i]);
        lemma_slot_value_at(layout.drop_first(), values.drop_first(), i - 1);
    }
}

/// A component outside the reach of the values has no value.
proof fn lemma_slot_value_absent(layout: Seq<TechComponent>, values: Seq<u8>, c: TechComponent)
    requires
        !layout.take(
            if layout.len() < values.len() {
                layout.len() as int
            } else {
                values.len() as int
            },
        ).contains(c),
    ensures
        slot_value(layout, values, c) is None,
    decreases layout.len(),
{
    if layout.len() > 0 && values.len() > 0 {
        let n = if layout.len() < values.len() {
            layout.len() as int
        } else {
            values.len() as int
        };
        assert(layout.take(n)[0] == layout[0]);
        let l2 = layout.drop_first();
        let v2 = values.drop_first();
        let n2 = if l2.len() < v2.len() {
            l2.len() as int
        } else {
            v2.len() as int
        };
        assert forall|k: int| 0 <= k < n2 implies l2.take(n2)[k] != c by {
            assert(l2.take(n2)[k] == layout.take(n)[k + 1]);
        }
        lemma_slot_value_absent(l2, v2, c);
    }
}

/// Decode a save `Values.Byte` array (build progress 0-100 per slot) into a
/// labeled [`Tech`] for the structure with the given in-game CodeName. Returns
/// `None` when the structure has no tech or the save carries no values.
/// Slot `i` of the structure's layout gets `values[i]`; values beyond the
/// layout, and slots beyond the values, are ignored.
pub fn parse_tech(code_name: &str, values: &[u8]) -> (r: Option<Tech>)
    ensures
        r == decoded_tech(code_name@, values@),
        r is None <==> (tech_layout(code_name@).len() == 0 || values@.len() == 0),
        r matches Some(t) ==> {
            let layout = tech_layout(code_name@);
            let n = if layout.len() < values@.len() {
                layout.len() as int
            } else {
                values@.len() as int
            };
            &&& forall|i: int| 0 <= i < n ==> t.component(#[trigger] layout[i]) == Some(values@[i])
            &&& forall|c: TechComponent| !layout.take(n).contains(c) ==> t.component(c) is None
        },
{
    let components = tech_components(code_name);
    if components.len() == 0 || values.len() == 0 {
        return None;
    }
    let ghost layout = tech_layout(code_name@);
    proof {
        lemma_layout_in_tree_order(code_name@);
    }
    let n = if components.len() < values.len() {
        components.len()
    } else {
        values.len()
    };
    let mut tech = Tech::default();
    let mut i: usize = 0;
    while i < n
        invariant
            components@ == layout,
            n <= layout.len(),
            n <= values@.len(),
            i <= n,
            forall|a: int, b: int|
                0 <= a < b < layout.len() ==> #[trigger] layout[a].rank() < #[trigger] layout[b].rank(),
            forall|j: int| 0 <= j < i ==> tech.component(#[trigger] layout[j]) == Some(values@[j]),
            forall|c: TechComponent| !layout.take(i as int).contains(c) ==> tech.component(c) is None,
        decreases n - i,
    {
        let c = components[i];
        c.assign(&mut tech, values[i]);
        proof {
            assert forall|j: int| 0 <= j < i + 1 implies tech.component(#[trigger] layout[j]) == Some(
                values@[j],
            ) by {
                if j < i {
                    assert(layout[j].rank() < layout[i as int].rank());
                }
            }
            assert forall|d: TechComponent| !layout.take(i + 1).contains(d) implies tech.component(
                d,
            ) is None by {
                if layout.take(i as int).contains(d) {
                    let k = choose|k: int| 0 <= k < i && layout.take(i as int)[k] == d;
                    assert(layout.take(i + 1)[k] == d);
                }
                assert(layout.take(i + 1)[i as int] == c);
            }
        }
        i = i + 1;
    }
    proof {
        assert forall|a: int, b: int| 0 <= a < b < layout.len() implies layout[a] != layout[b] by {
            assert(layout[a].rank() < layout[b].rank());
        }
        assert forall|c: TechComponent| #[trigger] slot_value(layout, values@, c) == tech.component(
            c,
        ) by {
            if layout.take(n as int).contains(c) {
                let k = choose|k: int| 0 <= k < n && layout.take(n as int)[k] == c;
                lemma_slot_value_at(layout, values@, k);
            } else {
                lemma_slot_value_absent(layout, values@, c);
            }
        }
    }
    Some(tech)
}

/// Faction that owns a stockpile, derived from which pinned-tooltips
/// property the data was read from.
#[derive(Debug, Clone, Copy, PartialEq, Eq, Hash, Structural)]
pub enum Faction {
    Warden,
    Colonial,
}

/// Normalized map coordinates for a stockpile location (each between 0 and 1),
/// kept as the IEEE-754 bits of the numbers read from the save.
#[derive(Debug, Clone, Copy, PartialEq, Eq, Structural)]
pub struct StockpileCoords {
    /// Normalized X coordinate on the map
    pub x: FloatBits,
    /// Normalized Y coordinate on the map
    pub y: FloatBits,
}

/// A single item in a stockpile.
#[derive(Debug, Clone, PartialEq)]
pub struct StockpileItem {
    /// Item code name
    pub code: String,
    /// Quantity of the item
    pub quantity: i32,
    /// Whether the item is crated
    pub crated: bool,
}

/// What a stockpile item holds.
pub struct ItemModel {
    pub code: Seq<char>,
    pub quantity: i32,
    pub crated: bool,
}

impl View for StockpileItem {
    type V = ItemModel;

    open spec fn view(&self) -> ItemModel {
        ItemModel { code: self.code@, quantity: self.quantity, crated: self.crated }
    }
}

impl StockpileItem {
    /// Create a new stockpile item from SAV data.
    pub fn new(code: String, quantity: i32, crated: bool) -> (r: Self)
        ensures
            r@ == (ItemModel { code: code@, quantity, crated }),
    {
        StockpileItem { code, quantity, crated }
    }
}

/// The views of a sequence of items.
pub open spec fn item_views(items: Seq<StockpileItem>) -> Seq<ItemModel> {
    items.map_values(|i: StockpileItem| i@)
}

/// The view of an optional string.
pub open spec fn opt_text(s: Option<String>) -> Option<Seq<char>> {
    match s {
        Some(t) => Some(t@),
        None => None,
    }
}

/// The views of a sequence of strings.
pub open spec fn texts(v: Seq<String>) -> Seq<Seq<char>> {
    v.map_values(|e: String| e@)
}

/// The views of an optional list of strings.
pub open spec fn opt_texts(o: Option<Vec<String>>) -> Option<Seq<Seq<char>>> {
    match o {
        Some(v) => Some(texts(v@)),
        None => None,
    }
}

/// A stockpile containing items.
#[derive(Debug, Clone, PartialEq)]
pub struct Stockpile {
    /// Name of the stockpile (empty for public stockpiles)
    pub name: String,
    /// Type of stockpile, as the in-game CodeName (e.g. "Seaport"). Kept as a
    /// free-form string so newly added in-game structure types remain valid
    /// rather than collapsing to "Undefined".
    pub stockpile_type: String,
    /// Faction that owns the stockpile
    pub faction: Faction,
    /// Hex region name
    pub hex: Option<String>,
    /// Map coordinates
    pub coords: Option<StockpileCoords>,
    /// Whether this is a reserve stockpile
    pub is_reserve: bool,
    /// List of items in the stockpile
    pub items: Vec<StockpileItem>,
    /// Garrison/upgrade tech build progress (bases only; None otherwise)
    pub tech: Option<Tech>,
    /// Last update, in whole seconds since the Unix epoch (UTC); None if
    /// absent or invalid in the save (see `errors`)
    pub timestamp: Option<i64>,
    /// Shard name (None for SAV-parsed stockpiles)
    pub shard: Option<String>,
    /// In-game timestamp (None for SAV-parsed stockpiles)
    pub ingame_timestamp: Option<String>,
    /// Resolution of screenshot (None for SAV-parsed stockpiles)
    pub resolution: Option<String>,
    /// Errors during processing
    pub errors: Option<Vec<String>>,
}

/// What a stockpile holds.
pub struct StockpileView {
    pub name: Seq<char>,
    pub stockpile_type: Seq<char>,
    pub faction: Faction,
    pub hex: Option<Seq<char>>,
    pub coords: Option<StockpileCoords>,
    pub is_reserve: bool,
    pub items: Seq<ItemModel>,
    pub tech: Option<Tech>,
    pub timestamp: Option<i64>,
    pub shard: Option<Seq<char>>,
    pub ingame_timestamp: Option<Seq<char>>,
    pub resolution: Option<Seq<char>>,
    pub errors: Option<Seq<Seq<char>>>,
}

impl View for Stockpile {
    type V = StockpileView;

    open spec fn view(&self) -> StockpileView {
        StockpileView {
            name: self.name@,
            stockpile_type: self.stockpile_type@,
            faction: self.faction,
            hex: opt_text(self.hex),
            coords: self.coords,
            is_reserve: self.is_reserve,
            items: item_views(self.items@),
            tech: self.tech,
            timestamp: self.timestamp,
            shard: opt_text(self.shard),
            ingame_timestamp: opt_text(self.ingame_timestamp),
            resolution: opt_text(self.resolution),
            errors: opt_texts(self.errors),
        }
    }
}

/// The type a stockpile key shows: the stockpile's type, or "Undefined" when it is empty.
pub open spec fn key_type(ty: Seq<char>) -> Seq<char> {
    if ty.len() == 0 {
        "Undefined"@
    } else {
        ty
    }
}

/// The key of a stockpile: its type, hex (empty when missing), coordinates
/// (`coords_text`, or `0,0` when it has none) and name, joined by colons.
pub open spec fn stockpile_key(s: StockpileView, coords_text: Seq<char>) -> Seq<char> {
    key_type(s.stockpile_type) + ":"@ + match s.hex {
        Some(h) => h,
        None => Seq::empty(),
    } + ":"@ + if s.coords is Some {
        coords_text
    } else {
        "0,0"@
    } + ":"@ + s.name
}

impl Stockpile {
    /// Generate a unique key for this stockpile (for change tracking), given
    /// its coordinates written as `x,y` with six decimals.
    pub fn to_key(&self, coords_text: &str) -> (r: String)
        ensures
            r@ == stockpile_key(self@, coords_text@),
    {
        let mut key = if self.stockpile_type.as_str().is_empty() {
            String::from_str("Undefined")
        } else {
            self.stockpile_type.clone()
        };
        key.append(":");
        match &self.hex {
            Some(h) => key.append(h.as_str()),
            None => {},
        }
        key.append(":");
        match &self.coords {
            Some(_) => key.append(coords_text),
            None => key.append("0,0"),
        }
        key.append(":");
        key.append(self.name.as_str());
        key
    }
}

/// The views of a sequence of stockpiles.
pub open spec fn stockpile_views(s: Seq<Stockpile>) -> Seq<StockpileView> {
    s.map_values(|p: Stockpile| p@)
}

/// Parser metadata.
#[derive(Debug, Clone)]
pub struct ParserInfo {
    /// Implementation type
    pub implementation: String,
    /// Parser version
    pub version: String,
}

impl Default for ParserInfo {
    /// The metadata of this parser: the Rust implementation, at this crate's version (0.1.0).
    fn default() -> (r: Self)
        ensures
            r.implementation@ == "rust"@,
            r.version@ == "0.1.0"@,
    {
        ParserInfo { implementation: String::from_str("rust"), version: String::from_str("0.1.0") }
    }
}

/// Get parser information.
pub fn info() -> (r: ParserInfo)
    ensures
        r.implementation@ == "rust"@,
        r.version@ == "0.1.0"@,
{
    ParserInfo::default()
}

} // verus!
