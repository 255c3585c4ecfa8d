//! Choosing which stockpiles to report.

use vstd::prelude::*;
use vstd::string::StringExecFns;

use crate::models::{opt_text, Faction, Stockpile, StockpileView};
use crate::text::{ascii_lowercase, eq_ignore_ascii_case, str_eq};

verus! {

/// Filter options for stockpiles (stable properties).
#[derive(Debug, Clone)]
pub struct FilterArgs {
    /// Only public stockpiles (non-reserve)
    pub public: bool,
    /// Only reserve stockpiles
    pub reserves: bool,
    /// Only stockpiles of this hex (e.g., TerminusHex)
    pub hex: Option<String>,
    /// Only stockpiles of this type (e.g., Seaport), ignoring ASCII case
    pub stockpile_type: Option<String>,
    /// Only stockpiles of this faction
    pub faction: Option<Faction>,
}

impl Default for FilterArgs {
    /// No filter at all.
    fn default() -> (r: Self)
        ensures
            !r.public && !r.reserves,
            r.hex is None && r.stockpile_type is None && r.faction is None,
    {
        FilterArgs { public: false, reserves: false, hex: None, stockpile_type: None, faction: None }
    }
}

/// Whether a stockpile passes filters given as plain values: not a reserve
/// with `public`, a reserve with `reserves`, of the faction and hex asked for,
/// of the type asked for (ignoring ASCII case), and, with `with_items`,
/// holding items.
pub open spec fn passes(
    public: bool,
    reserves: bool,
    faction: Option<Faction>,
    hex: Option<Seq<char>>,
    ty: Option<Seq<char>>,
    s: StockpileView,
    with_items: bool,
) -> bool {
    &&& !(public && s.is_reserve)
    &&& !(reserves && !s.is_reserve)
    &&& (faction matches Some(x) ==> s.faction == x)
    &&& (hex matches Some(h) ==> s.hex == Some(h))
    &&& (ty matches Some(t) ==> ascii_lowercase(s.stockpile_type) == ascii_lowercase(t))
    &&& !(with_items && s.items.len() == 0)
}

/// Whether a stockpile passes the filters (and, with `with_items`, has items).
pub open spec fn keeps(f: FilterArgs, s: StockpileView, with_items: bool) -> bool {
    passes(
        f.public,
        f.reserves,
        f.faction,
        opt_text(f.hex),
        opt_text(f.stockpile_type),
        s,
        with_items,
    )
}

/// The stockpiles of `s` that pass the filters, in order.
pub open spec fn filtered(s: Seq<Stockpile>, f: FilterArgs, with_items: bool) -> Seq<Stockpile> {
    s.filter(|p: Stockpile| keeps(f, p@, with_items))
}

/// Filtering a filtered sequence again changes nothing.
proof fn lemma_filter_twice<A>(s: Seq<A>, p: spec_fn(A) -> bool)
    ensures
        s.filter(p).filter(p) == s.filter(p),
    decreases s.len(),
{
    reveal_with_fuel(Seq::<_>::filter, 1);
    if s.len() > 0 {
        lemma_filter_twice(s.drop_last(), p);
        let t = s.drop_last().filter(p);
        if p(s.last()) {
            assert(t.push(s.last()).drop_last() =~= t);
        }
    }
}

/// The filters keep exactly the stockpiles that pass them (public ones only
/// with `public`, reserve ones only with `reserves`, those of the hex, type
/// and faction asked for, those with items with `with_items`), in their
/// order; filtering the result again changes nothing.
pub proof fn lemma_apply_filters(s: Seq<Stockpile>, f: FilterArgs, with_items: bool)
    ensures
        forall|k: int|
            0 <= k < filtered(s, f, with_items).len() ==> keeps(
                f,
                (#[trigger] filtered(s, f, with_items)[k])@,
                with_items,
            ),
        forall|i: int|
            0 <= i < s.len() && keeps(f, s[i]@, with_items) ==> #[trigger] filtered(
                s,
                f,
                with_items,
            ).contains(s[i]),
        filtered(s, f, with_items).len() <= s.len(),
        filtered(filtered(s, f, with_items), f, with_items) == filtered(s, f, with_items),
{
    broadcast use vstd::seq_lib::group_filter_ensures;

    let p = |x: Stockpile| keeps(f, x@, with_items);
    assert forall|k: int| 0 <= k < filtered(s, f, with_items).len() implies keeps(
        f,
        (#[trigger] filtered(s, f, with_items)[k])@,
        with_items,
    ) by {
        s.lemma_filter_pred(p, k);
    }
    lemma_filter_twice(s, p);
}

/// What each filter asks of a stockpile, said field by field: with `public`
/// it is no reserve; with `reserves` it is one; with a faction it is of that
/// faction; with a hex it has that hex; with a type its type equals it up to
/// ASCII case; with `with_items` it holds items. The filters keep exactly the
/// stockpiles that meet all of these, in order.
pub proof fn lemma_filter_fields(s: Seq<Stockpile>, f: FilterArgs, with_items: bool)
    ensures
        forall|k: int|
            0 <= k < filtered(s, f, with_items).len() ==> {
                let v = (#[trigger] filtered(s, f, with_items)[k])@;
                &&& f.public ==> !v.is_reserve
                &&& f.reserves ==> v.is_reserve
                &&& f.faction matches Some(x) ==> v.faction == x
                &&& f.hex matches Some(h) ==> v.hex == Some(h@)
                &&& f.stockpile_type matches Some(t) ==> ascii_lowercase(v.stockpile_type)
                    == ascii_lowercase(t@)
                &&& with_items ==> v.items.len() > 0
            },
        forall|i: int|
            0 <= i < s.len() ==> ({
                let v = (#[trigger] s[i])@;
                &&& !f.public || !v.is_reserve
                &&& !f.reserves || v.is_reserve
                &&& (f.faction matches Some(x) ==> v.faction == x)
                &&& (f.hex matches Some(h) ==> v.hex == Some(h@))
                &&& (f.stockpile_type matches Some(t) ==> ascii_lowercase(v.stockpile_type)
                    == ascii_lowercase(t@))
                &&& !with_items || v.items.len() > 0
            } ==> filtered(s, f, with_items).contains(s[i])),
{
    lemma_apply_filters(s, f, with_items);
}

/// Whether one stockpile passes the filters.
pub fn keep_stockpile(s: &Stockpile, filters: &FilterArgs, with_items: bool) -> (r: bool)
    ensures
        r == keeps(*filters, s@, with_items),
{
    // Public/reserve filter
    if filters.public && s.is_reserve {
        return false;
    }
    if filters.reserves && !s.is_reserve {
        return false;
    }
    // Faction filter
    if let Some(faction) = filters.faction {
        if s.faction != faction {
            return false;
        }
    }
    // Hex filter
    if let Some(hex) = &filters.hex {
        match &s.hex {
            Some(h) => {
                if !str_eq(h.as_str(), hex.as_str()) {
                    return false;
                }
            },
            None => {
                return false;
            },
        }
    }
    // Type filter
    if let Some(type_filter) = &filters.stockpile_type {
        if !eq_ignore_ascii_case(s.stockpile_type.as_str(), type_filter.as_str()) {
            return false;
        }
    }
    // With items filter
    if with_items && s.items.len() == 0 {
        return false;
    }
    true
}

/// Apply filters to a list of stockpiles, keeping their order.
pub fn apply_filters(stockpiles: Vec<Stockpile>, filters: &FilterArgs, with_items: bool) -> (r: Vec<
    Stockpile,
>)
    ensures
        r@ == filtered(stockpiles@, *filters, with_items),
{
    let ghost input = stockpiles@;
    let ghost pred = |p: Stockpile| keeps(*filters, p@, with_items);
    let mut rest = stockpiles;
    let mut kept: Vec<Stockpile> = Vec::new();
    let ghost mut done: int = 0;
    assert(input.take(0) =~= Seq::<Stockpile>::empty());
    proof {
        reveal_with_fuel(Seq::<_>::filter, 1);
    }
    while rest.len() > 0
        invariant
            0 <= done <= input.len(),
            rest@ =~= input.skip(done),
            kept@ == input.take(done).filter(pred),
            pred == (|p: Stockpile| keeps(*filters, p@, with_items)),
        decreases rest.len(),
    {
        let ghost rest_before = rest@;
        let s = rest.remove(0);
        assert(s == input[done]);
        let keep = keep_stockpile(&s, filters, with_items);
        proof {
            reveal_with_fuel(Seq::<_>::filter, 1);
            assert(input.take(done + 1).drop_last() =~= input.take(done));
            assert(input.take(done + 1).last() == s);
        }
        if keep {
            kept.push(s);
        }
        proof {
            assert(input.skip(done).drop_first() =~= input.skip(done + 1));
            done = done + 1;
        }
    }
    assert(input.take(done) =~= input);
    kept
}

/// ASCII lower case of a string (`str::to_ascii_lowercase`): `A`-`Z` become
/// `a`-`z`, every other character is kept.
#[verifier::external_body]
fn to_ascii_lowercase(s: &str) -> (r: String)
    ensures
        r@ == ascii_lowercase(s@),
{
    s.to_ascii_lowercase()
}

/// The error text for a `--faction` value that names no faction.
pub open spec fn faction_error(lowered: Seq<char>) -> Seq<char> {
    "invalid faction '"@ + lowered + "' (expected C/Colonial or W/Warden)"@
}

/// Parse a `--faction` value, accepting C/Colonial and W/Warden in any case.
pub fn parse_faction(s: &str) -> (r: Result<Faction, String>)
    ensures
        ({
            let l = ascii_lowercase(s@);
            if l == "c"@ || l == "colonial"@ {
                r == Ok::<Faction, String>(Faction::Colonial)
            } else if l == "w"@ || l == "warden"@ {
                r == Ok::<Faction, String>(Faction::Warden)
            } else {
                r matches Err(e) && e@ == faction_error(l)
            }
        }),
{
    let lowered = to_ascii_lowercase(s);
    if str_eq(lowered.as_str(), "c") || str_eq(lowered.as_str(), "colonial") {
        Ok(Faction::Colonial)
    } else if str_eq(lowered.as_str(), "w") || str_eq(lowered.as_str(), "warden") {
        Ok(Faction::Warden)
    } else {
        let mut e = String::from_str("invalid faction '");
        e.append(lowered.as_str());
        e.append("' (expected C/Colonial or W/Warden)");
        Err(e)
    }
}

} // verus!
