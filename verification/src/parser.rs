//! Reading stockpiles out of a save: property lookups, timestamps, items.

use vstd::prelude::*;
use vstd::string::StringExecFns;

use crate::error::FsSavError;
use crate::models::{
    decoded_tech, item_views, opt_text, opt_texts, parse_tech, stockpile_views, Faction, ItemModel,
    Stockpile, StockpileCoords, StockpileItem, StockpileView, Tech,
};
use crate::save::{
    save_root, save_root_entries, ArrayKind, ArrayModel, ArrayRef, Entries, FloatBits, PropKind, PropValue,
    PropertyList, StructKind, StructList, StructModel, StructRef,
};
use crate::text::{last_piece, last_split_piece, str_eq};

verus! {

// ---------------------------------------------------------------------------
// Property lookups
// ---------------------------------------------------------------------------

/// The value picked from the first property named `name` from which `pick`
/// picks something (as `iter().find_map` over the list gives it).
pub open spec fn find_entry<A>(
    entries: Entries,
    name: Seq<char>,
    pick: spec_fn(PropValue) -> Option<A>,
) -> Option<A>
    decreases entries.len(),
{
    if entries.len() == 0 {
        None
    } else if entries[0].0 == name && pick(entries[0].1) is Some {
        pick(entries[0].1)
    } else {
        find_entry(entries.drop_first(), name, pick)
    }
}

proof fn lemma_find_entry_start<A>(
    entries: Entries,
    name: Seq<char>,
    pick: spec_fn(PropValue) -> Option<A>,
)
    ensures
        find_entry(entries, name, pick) == find_entry(entries.skip(0), name, pick),
{
    assert(entries.skip(0) =~= entries);
}

proof fn lemma_find_entry_step<A>(
    entries: Entries,
    name: Seq<char>,
    pick: spec_fn(PropValue) -> Option<A>,
    i: int,
)
    requires
        0 <= i < entries.len(),
        !(entries[i].0 == name && pick(entries[i].1) is Some),
    ensures
        find_entry(entries.skip(i), name, pick) == find_entry(entries.skip(i + 1), name, pick),
{
    assert(entries.skip(i).drop_first() =~= entries.skip(i + 1));
}

proof fn lemma_find_entry_end<A>(
    entries: Entries,
    name: Seq<char>,
    pick: spec_fn(PropValue) -> Option<A>,
)
    ensures
        find_entry(entries.skip(entries.len() as int), name, pick) is None,
{
    assert(entries.skip(entries.len() as int) =~= Seq::<(Seq<char>, PropValue)>::empty());
}

/// Picks the text of a string property.
pub open spec fn text_picker() -> spec_fn(PropValue) -> Option<Seq<char>> {
    |v: PropValue|
        match v {
            PropValue::Text(s) => Some(s),
            _ => None,
        }
}

/// Picks an integer property, cast to `i32`.
pub open spec fn int32_picker() -> spec_fn(PropValue) -> Option<i32> {
    |v: PropValue|
        match v {
            PropValue::Int(i) => Some(i.to_i32_spec()),
            _ => None,
        }
}

/// Picks a floating-point property.
pub open spec fn float_picker() -> spec_fn(PropValue) -> Option<FloatBits> {
    |v: PropValue|
        match v {
            PropValue::Float(f) => Some(f),
            _ => None,
        }
}

/// Picks a struct property.
pub open spec fn struct_picker() -> spec_fn(PropValue) -> Option<StructModel> {
    |v: PropValue|
        match v {
            PropValue::Struct(s) => Some(s),
            _ => None,
        }
}

/// Picks an array property.
pub open spec fn array_picker() -> spec_fn(PropValue) -> Option<ArrayModel> {
    |v: PropValue|
        match v {
            PropValue::Array(a) => Some(a),
            _ => None,
        }
}

/// Picks an array-of-structs property.
pub open spec fn struct_array_picker() -> spec_fn(PropValue) -> Option<Seq<StructModel>> {
    |v: PropValue|
        match v {
            PropValue::Array(ArrayModel::Structs(s)) => Some(s),
            _ => None,
        }
}

/// The first string property named `name`.
pub open spec fn string_prop(entries: Entries, name: Seq<char>) -> Option<Seq<char>> {
    find_entry(entries, name, text_picker())
}

/// The first integer property named `name`, cast to `i32`.
pub open spec fn int32_prop(entries: Entries, name: Seq<char>) -> Option<i32> {
    find_entry(entries, name, int32_picker())
}

/// The first floating-point property named `name`.
pub open spec fn float_prop(entries: Entries, name: Seq<char>) -> Option<FloatBits> {
    find_entry(entries, name, float_picker())
}

/// The first struct property named `name`.
pub open spec fn struct_prop(entries: Entries, name: Seq<char>) -> Option<StructModel> {
    find_entry(entries, name, struct_picker())
}

/// The first array property named `name`.
pub open spec fn array_prop(entries: Entries, name: Seq<char>) -> Option<ArrayModel> {
    find_entry(entries, name, array_picker())
}

/// The first array-of-structs property named `name`.
pub open spec fn struct_array_prop(entries: Entries, name: Seq<char>) -> Option<Seq<StructModel>> {
    find_entry(entries, name, struct_array_picker())
}

/// The bytes of the first array property named `name`, if it is a byte array.
pub open spec fn byte_array_prop(entries: Entries, name: Seq<char>) -> Option<Seq<u8>> {
    match array_prop(entries, name) {
        Some(ArrayModel::Bytes(b)) => Some(b),
        _ => None,
    }
}

/// The ticks of the first struct property named `name`, if it is a `DateTime`
/// (reinterpreted as `i64`).
pub open spec fn datetime_ticks_prop(entries: Entries, name: Seq<char>) -> Option<i64> {
    match struct_prop(entries, name) {
        Some(StructModel::DateTime(t)) => Some(t as i64),
        _ => None,
    }
}

/// The view of an optional struct reference.
pub open spec fn struct_ref_view(r: Option<StructRef>) -> Option<StructModel> {
    match r {
        Some(s) => Some(s@),
        None => None,
    }
}

/// The view of an optional array reference.
pub open spec fn array_ref_view(r: Option<ArrayRef>) -> Option<ArrayModel> {
    match r {
        Some(a) => Some(a@),
        None => None,
    }
}

/// The view of an optional list of structs.
pub open spec fn struct_list_view(r: Option<StructList>) -> Option<Seq<StructModel>> {
    match r {
        Some(l) => Some(l@),
        None => None,
    }
}

/// The view of an optional byte slice.
pub open spec fn bytes_view(r: Option<&[u8]>) -> Option<Seq<u8>> {
    match r {
        Some(b) => Some(b@),
        None => None,
    }
}

/// The first string property (`Str`, `Name` or `Enum`) named `name`.
fn get_string_prop(props: &PropertyList, name: &str) -> (r: Option<String>)
    ensures
        opt_text(r) == string_prop(props@, name@),
{
    let n = props.len();
    let mut i: usize = 0;
    proof {
        lemma_find_entry_start(props@, name@, text_picker());
    }
    while i < n
        invariant
            n == props@.len(),
            i <= n,
            string_prop(props@, name@) == find_entry(props@.skip(i as int), name@, text_picker()),
        decreases n - i,
    {
        let (key, prop) = props.entry(i);
        if str_eq(key, name) {
            match prop.kind() {
                PropKind::Text(s) => {
                    return Some(String::from_str(s));
                },
                _ => {},
            }
        }
        proof {
            lemma_find_entry_step(props@, name@, text_picker(), i as int);
        }
        i = i + 1;
    }
    proof {
        lemma_find_entry_end(props@, name@, text_picker());
    }
    None
}

/// The first integer property named `name` (Foxhole stores integer fields
/// with varying property types, so any integer variant is accepted), cast to `i32`.
fn get_int32_prop(props: &PropertyList, name: &str) -> (r: Option<i32>)
    ensures
        r == int32_prop(props@, name@),
{
    let n = props.len();
    let mut i: usize = 0;
    proof {
        lemma_find_entry_start(props@, name@, int32_picker());
    }
    while i < n
        invariant
            n == props@.len(),
            i <= n,
            int32_prop(props@, name@) == find_entry(props@.skip(i as int), name@, int32_picker()),
        decreases n - i,
    {
        let (key, prop) = props.entry(i);
        if str_eq(key, name) {
            match prop.int_value() {
                Some(v) => {
                    return Some(v.to_i32());
                },
                None => {},
            }
        }
        proof {
            lemma_find_entry_step(props@, name@, int32_picker(), i as int);
        }
        i = i + 1;
    }
    proof {
        lemma_find_entry_end(props@, name@, int32_picker());
    }
    None
}

/// The first floating-point property (`Float` or `Double`) named `name`.
fn get_float_prop(props: &PropertyList, name: &str) -> (r: Option<FloatBits>)
    ensures
        r == float_prop(props@, name@),
{
    let n = props.len();
    let mut i: usize = 0;
    proof {
        lemma_find_entry_start(props@, name@, float_picker());
    }
    while i < n
        invariant
            n == props@.len(),
            i <= n,
            float_prop(props@, name@) == find_entry(props@.skip(i as int), name@, float_picker()),
        decreases n - i,
    {
        let (key, prop) = props.entry(i);
        if str_eq(key, name) {
            match prop.kind() {
                PropKind::Float(f) => {
                    return Some(f);
                },
                _ => {},
            }
        }
        proof {
            lemma_find_entry_step(props@, name@, float_picker(), i as int);
        }
        i = i + 1;
    }
    proof {
        lemma_find_entry_end(props@, name@, float_picker());
    }
    None
}

/// The first struct property named `name`.
fn get_struct_prop<'a>(props: &PropertyList<'a>, name: &str) -> (r: Option<StructRef<'a>>)
    ensures
        struct_ref_view(r) == struct_prop(props@, name@),
{
    let n = props.len();
    let mut i: usize = 0;
    proof {
        lemma_find_entry_start(props@, name@, struct_picker());
    }
    while i < n
        invariant
            n == props@.len(),
            i <= n,
            struct_prop(props@, name@) == find_entry(props@.skip(i as int), name@, struct_picker()),
        decreases n - i,
    {
        let (key, prop) = props.entry(i);
        if str_eq(key, name) {
            match prop.kind() {
                PropKind::Struct(s) => {
                    return Some(s);
                },
                _ => {},
            }
        }
        proof {
            lemma_find_entry_step(props@, name@, struct_picker(), i as int);
        }
        i = i + 1;
    }
    proof {
        lemma_find_entry_end(props@, name@, struct_picker());
    }
    None
}

/// The first array property named `name`.
fn get_array_prop<'a>(props: &PropertyList<'a>, name: &str) -> (r: Option<ArrayRef<'a>>)
    ensures
        array_ref_view(r) == array_prop(props@, name@),
{
    let n = props.len();
    let mut i: usize = 0;
    proof {
        lemma_find_entry_start(props@, name@, array_picker());
    }
    while i < n
        invariant
            n == props@.len(),
            i <= n,
            array_prop(props@, name@) == find_entry(props@.skip(i as int), name@, array_picker()),
        decreases n - i,
    {
        let (key, prop) = props.entry(i);
        if str_eq(key, name) {
            match prop.kind() {
                PropKind::Array(a) => {
                    return Some(a);
                },
                _ => {},
            }
        }
        proof {
            lemma_find_entry_step(props@, name@, array_picker(), i as int);
        }
        i = i + 1;
    }
    proof {
        lemma_find_entry_end(props@, name@, array_picker());
    }
    None
}

/// The structs of the first array-of-structs property named `name`.
fn get_struct_array_prop<'a>(props: &PropertyList<'a>, name: &str) -> (r: Option<
    StructList<'a>,
>)
    ensures
        struct_list_view(r) == struct_array_prop(props@, name@),
{
    let n = props.len();
    let mut i: usize = 0;
    proof {
        lemma_find_entry_start(props@, name@, struct_array_picker());
    }
    while i < n
        invariant
            n == props@.len(),
            i <= n,
            struct_array_prop(props@, name@) == find_entry(
                props@.skip(i as int),
                name@,
                struct_array_picker(),
            ),
        decreases n - i,
    {
        let (key, prop) = props.entry(i);
        if str_eq(key, name) {
            match prop.kind() {
                PropKind::Array(a) => {
                    match a.kind() {
                        ArrayKind::Structs(l) => {
                            return Some(l);
                        },
                        _ => {},
                    }
                },
                _ => {},
            }
        }
        proof {
            lemma_find_entry_step(props@, name@, struct_array_picker(), i as int);
        }
        i = i + 1;
    }
    proof {
        lemma_find_entry_end(props@, name@, struct_array_picker());
    }
    None
}

/// The bytes of the first array property named `name`, if it is a byte array.
fn get_byte_array_prop<'a>(props: &PropertyList<'a>, name: &str) -> (r: Option<&'a [u8]>)
    ensures
        bytes_view(r) == byte_array_prop(props@, name@),
{
    match get_array_prop(props, name) {
        Some(a) => match a.kind() {
            ArrayKind::Bytes(b) => Some(b),
            _ => None,
        },
        None => None,
    }
}

/// Unreal Engine ticks from a DateTime struct property (e.g. `LastUpdated`),
/// reinterpreted as `i64`.
fn get_datetime_ticks_prop(props: &PropertyList, name: &str) -> (r: Option<i64>)
    ensures
        r == datetime_ticks_prop(props@, name@),
{
    match get_struct_prop(props, name) {
        Some(s) => match s.kind() {
            StructKind::DateTime(t) => Some(t as i64),
            _ => None,
        },
        None => None,
    }
}

// ---------------------------------------------------------------------------
// Timestamps
// ---------------------------------------------------------------------------

/// Unreal Engine ticks (100-nanosecond intervals since 0001-01-01) at the Unix epoch.
pub const UNIX_EPOCH_TICKS: i64 = 621355968000000000;

/// Unreal Engine ticks in one second.
pub const TICKS_PER_SECOND: i64 = 10000000;

/// Seconds since the Unix epoch of chrono's earliest UTC time (-262143-01-01T00:00:00Z).
pub const EARLIEST_UTC_SECONDS: i64 = -8334601228800;

/// Seconds since the Unix epoch of chrono's latest UTC time (+262142-12-31T23:59:59Z).
pub const LATEST_UTC_SECONDS: i64 = 8210266876799;

/// Whole seconds since the Unix epoch of the given Unreal Engine ticks, or
/// `None` for missing (zero) or out-of-range ticks. Seconds are truncated
/// toward zero, as Rust's integer division does.
pub open spec fn ue_timestamp(ticks: i64) -> Option<i64> {
    let unix_ticks = ticks - UNIX_EPOCH_TICKS;
    let secs = if unix_ticks >= 0 {
        unix_ticks / (TICKS_PER_SECOND as int)
    } else {
        -((-unix_ticks) / (TICKS_PER_SECOND as int))
    };
    if ticks == 0 || unix_ticks < i64::MIN {
        None
    } else if EARLIEST_UTC_SECONDS <= secs <= LATEST_UTC_SECONDS {
        Some(secs as i64)
    } else {
        None
    }
}

/// Unreal Engine ticks count 100 ns since 0001-01-01: a tick count other than
/// zero gives the whole seconds `s` since the Unix epoch that it lies in,
/// truncated toward the epoch (so `s` seconds cover the ticks from
/// `621355968000000000 + s * 10^7` on, before the epoch up to it), unless it
/// lies so far before the epoch that the difference overflows; zero ticks
/// mean a missing time.
pub proof fn lemma_ue_timestamp_seconds(ticks: i64)
    ensures
        ticks == 0 ==> ue_timestamp(ticks) is None,
        ticks - 621355968000000000 < i64::MIN ==> ue_timestamp(ticks) is None,
        ticks != 0 && ticks >= 621355968000000000 ==> (ue_timestamp(ticks) matches Some(s) && s
            * 10000000 <= ticks - 621355968000000000 < s * 10000000 + 10000000),
        ticks != 0 && i64::MIN <= ticks - 621355968000000000 < 0 ==> (ue_timestamp(ticks) matches Some(
            s,
        ) && s * 10000000 - 10000000 < ticks - 621355968000000000 <= s * 10000000),
{
}

/// chrono's `TimeZone::timestamp_opt` on `Utc`, for whole seconds. Claims,
/// from chrono's source (`DateTime::from_timestamp`), that it gives a single
/// time exactly when `secs` lies between chrono's earliest and latest UTC times.
#[verifier::external_body]
fn utc_timestamp_representable(secs: i64) -> (r: bool)
    ensures
        r == (EARLIEST_UTC_SECONDS <= secs <= LATEST_UTC_SECONDS),
{
    match chrono::TimeZone::timestamp_opt(&chrono::Utc, secs, 0) {
        chrono::MappedLocalTime::Single(_) => true,
        chrono::MappedLocalTime::Ambiguous(_, _) => false,
        chrono::MappedLocalTime::None => false,
    }
}

/// Convert UE ticks to whole seconds since the Unix epoch. Returns None for
/// missing (zero) or out-of-range ticks so callers can surface the failure
/// rather than substituting a fabricated "now".
pub fn parse_ue_timestamp(ticks: i64) -> (r: Option<i64>)
    ensures
        r == ue_timestamp(ticks),
{
    if ticks == 0 {
        return None;
    }
    let unix_ticks = match ticks.checked_sub(UNIX_EPOCH_TICKS) {
        Some(t) => t,
        None => {
            return None;
        },
    };
    let secs = unix_ticks / TICKS_PER_SECOND;
    if utc_timestamp_representable(secs) {
        Some(secs)
    } else {
        None
    }
}

// ---------------------------------------------------------------------------
// Items
// ---------------------------------------------------------------------------

/// Whether the items' quantities never increase along the sequence.
pub open spec fn quantity_descending(s: Seq<ItemModel>) -> bool {
    forall|i: int, j: int| 0 <= i < j < s.len() ==> #[trigger] s[i].quantity >= #[trigger] s[j].quantity
}

/// How many items of `s` have a quantity of at least `q`.
pub open spec fn count_at_least(s: Seq<ItemModel>, q: i32) -> nat
    decreases s.len(),
{
    if s.len() == 0 {
        0
    } else {
        count_at_least(s.drop_last(), q) + if s.last().quantity >= q {
            1nat
        } else {
            0nat
        }
    }
}

/// `x` inserted into `sorted` after every item whose quantity is at least its own.
pub open spec fn insert_by_quantity(sorted: Seq<ItemModel>, x: ItemModel) -> Seq<ItemModel> {
    sorted.insert(count_at_least(sorted, x.quantity) as int, x)
}

/// The items sorted by quantity, largest first, items of equal quantity
/// keeping their order (the order of a stable sort on the reversed quantity).
pub open spec fn sort_by_quantity(s: Seq<ItemModel>) -> Seq<ItemModel>
    decreases s.len(),
{
    if s.len() == 0 {
        s
    } else {
        insert_by_quantity(sort_by_quantity(s.drop_last()), s.last())
    }
}

/// In an item sequence sorted by descending quantity, the items of quantity
/// at least `q` are exactly the first `count_at_least` ones.
proof fn lemma_count_at_least_splits(s: Seq<ItemModel>, q: i32)
    requires
        quantity_descending(s),
    ensures
        count_at_least(s, q) <= s.len(),
        forall|i: int| 0 <= i < count_at_least(s, q) ==> #[trigger] s[i].quantity >= q,
        forall|i: int| count_at_least(s, q) <= i < s.len() ==> #[trigger] s[i].quantity < q,
    decreases s.len(),
{
    if s.len() > 0 {
        let t = s.drop_last();
        assert(quantity_descending(t)) by {
            assert forall|i: int, j: int| 0 <= i < j < t.len() implies #[trigger] t[i].quantity
                >= #[trigger] t[j].quantity by {
                assert(t[i] == s[i] && t[j] == s[j]);
            }
        }
        lemma_count_at_least_splits(t, q);
        let c = count_at_least(t, q) as int;
        if s.last().quantity >= q {
            if c < t.len() {
                assert(t[c] == s[c]);
                assert(s[c].quantity >= s[s.len() - 1].quantity);
                assert(t[c].quantity < q);
            }
            assert(c == t.len());
            assert forall|i: int| 0 <= i < count_at_least(s, q) implies #[trigger] s[i].quantity
                >= q by {
                if i < s.len() - 1 {
                    assert(s[i] == t[i]);
                }
            }
        } else {
            assert forall|i: int| 0 <= i < count_at_least(s, q) implies #[trigger] s[i].quantity
                >= q by {
                assert(s[i] == t[i]);
            }
            assert forall|i: int| count_at_least(s, q) <= i < s.len() implies #[trigger] s[i].quantity
                < q by {
                if i < s.len() - 1 {
                    assert(s[i] == t[i]);
                }
            }
        }
    }
}

/// A sorted item sequence's items with quantity at least `q` are counted by
/// their position.
proof fn lemma_count_at_least_position(s: Seq<ItemModel>, q: i32, k: int)
    requires
        quantity_descending(s),
        0 <= k <= s.len(),
        forall|i: int| 0 <= i < k ==> #[trigger] s[i].quantity >= q,
        k < s.len() ==> s[k].quantity < q,
    ensures
        count_at_least(s, q) == k,
{
    lemma_count_at_least_splits(s, q);
    let c = count_at_least(s, q) as int;
    if c < k {
        assert(s[c].quantity < q);
    } else if c > k {
        assert(s[k].quantity >= q);
    }
}

/// Sorting by quantity gives a sequence in descending order of quantity that
/// holds the same items, each as many times.
pub proof fn lemma_sort_by_quantity(s: Seq<ItemModel>)
    ensures
        quantity_descending(sort_by_quantity(s)),
        sort_by_quantity(s).to_multiset() =~= s.to_multiset(),
        sort_by_quantity(s).len() == s.len(),
    decreases s.len(),
{
    broadcast use vstd::seq_lib::group_to_multiset_ensures;

    if s.len() > 0 {
        let t = sort_by_quantity(s.drop_last());
        let x = s.last();
        lemma_sort_by_quantity(s.drop_last());
        lemma_count_at_least_splits(t, x.quantity);
        let k = count_at_least(t, x.quantity) as int;
        let r = t.insert(k, x);
        assert forall|i: int, j: int| 0 <= i < j < r.len() implies #[trigger] r[i].quantity
            >= #[trigger] r[j].quantity by {
            if j < k {
                assert(r[i] == t[i] && r[j] == t[j]);
            } else if j == k {
                assert(r[i] == t[i]);
            } else if i < k {
                assert(r[i] == t[i] && r[j] == t[j - 1]);
            } else if i == k {
                assert(r[j] == t[j - 1]);
            } else {
                assert(r[i] == t[i - 1] && r[j] == t[j - 1]);
            }
        }
        assert(s =~= s.drop_last().push(x));
    }
}

/// The items of `s` whose quantity is `q`, in order.
pub open spec fn with_quantity(s: Seq<ItemModel>, q: i32) -> Seq<ItemModel> {
    s.filter(|x: ItemModel| x.quantity == q)
}

/// Filtering a sequence none of whose elements passes gives nothing.
proof fn lemma_filter_none<A>(s: Seq<A>, p: spec_fn(A) -> bool)
    requires
        forall|i: int| 0 <= i < s.len() ==> !p(#[trigger] s[i]),
    ensures
        s.filter(p) =~= Seq::<A>::empty(),
    decreases s.len(),
{
    reveal_with_fuel(Seq::<_>::filter, 1);
    if s.len() > 0 {
        lemma_filter_none(s.drop_last(), p);
        assert(!p(s[s.len() - 1]));
    }
}

/// Sorting by quantity is stable: the items of any one quantity come out in
/// the order they came in.
pub proof fn lemma_sort_by_quantity_stable(s: Seq<ItemModel>, q: i32)
    ensures
        with_quantity(sort_by_quantity(s), q) == with_quantity(s, q),
    decreases s.len(),
{
    broadcast use vstd::seq_lib::group_seq_lib_default;

    reveal_with_fuel(Seq::<_>::filter, 1);
    let p = |x: ItemModel| x.quantity == q;
    if s.len() > 0 {
        let t = sort_by_quantity(s.drop_last());
        let x = s.last();
        lemma_sort_by_quantity_stable(s.drop_last(), q);
        lemma_sort_by_quantity(s.drop_last());
        lemma_count_at_least_splits(t, x.quantity);
        let k = count_at_least(t, x.quantity) as int;
        let front = t.take(k);
        let back = t.skip(k);
        assert(t.insert(k, x) =~= front + seq![x] + back);
        assert(t =~= front + back);
        assert(s =~= s.drop_last().push(x));
        assert(seq![x].filter(p) =~= if p(x) { seq![x] } else { Seq::<ItemModel>::empty() }) by {
            reveal_with_fuel(Seq::<_>::filter, 2);
            assert(seq![x].drop_last() =~= Seq::<ItemModel>::empty());
        }
        if x.quantity == q {
            lemma_filter_none(back, p);
            assert(t.filter(p) =~= front.filter(p) + back.filter(p));
            assert((front + seq![x] + back).filter(p) =~= (front + seq![x]).filter(p) + back.filter(p));
            assert((front + seq![x]).filter(p) =~= front.filter(p) + seq![x].filter(p));
        } else {
            assert((front + seq![x] + back).filter(p) =~= (front + seq![x]).filter(p) + back.filter(p));
            assert((front + seq![x]).filter(p) =~= front.filter(p) + seq![x].filter(p));
            assert(t.filter(p) =~= front.filter(p) + back.filter(p));
        }
    }
}

/// Sort items by quantity, largest first; items of equal quantity keep their
/// order (insertion sort).
pub fn sort_by_quantity_desc(items: Vec<StockpileItem>) -> (r: Vec<StockpileItem>)
    ensures
        item_views(r@) == sort_by_quantity(item_views(items@)),
{
    let ghost input = item_views(items@);
    let mut rest = items;
    let mut sorted: Vec<StockpileItem> = Vec::new();
    let ghost mut done: int = 0;
    assert(input.take(0) =~= Seq::<ItemModel>::empty());
    while rest.len() > 0
        invariant
            0 <= done <= input.len(),
            item_views(rest@) =~= input.skip(done),
            item_views(sorted@) == sort_by_quantity(input.take(done)),
        decreases rest.len(),
    {
        proof {
            lemma_sort_by_quantity(input.take(done));
        }
        let ghost rest_before = rest@;
        assert(item_views(rest_before).len() == rest_before.len());
        assert(item_views(rest_before)[0] == rest_before[0]@);
        let x = rest.remove(0);
        assert(x@ == input[done]);
        let ghost xv = x@;
        let mut k: usize = 0;
        while k < sorted.len() && sorted[k].quantity >= x.quantity
            invariant
                k <= sorted.len(),
                forall|i: int| 0 <= i < k ==> #[trigger] item_views(sorted@)[i].quantity >= xv.quantity,
                xv == x@,
            decreases sorted.len() - k,
        {
            k = k + 1;
        }
        proof {
            lemma_count_at_least_position(item_views(sorted@), xv.quantity, k as int);
        }
        let ghost before = sorted@;
        sorted.insert(k, x);
        proof {
            assert(item_views(sorted@) =~= item_views(before).insert(k as int, xv));
            assert(input.take(done + 1).drop_last() =~= input.take(done));
            assert(input.take(done + 1).last() == xv);
            assert(rest@ =~= rest_before.drop_first());
            assert(item_views(rest@) =~= item_views(rest_before).drop_first());
            assert(input.skip(done).drop_first() =~= input.skip(done + 1));
            done = done + 1;
        }
    }
    assert(input.take(done) =~= input);
    sorted
}

/// The stockpile item a struct of an item array stands for (items whose code
/// or quantity is missing get an empty code or a zero quantity).
pub open spec fn item_of(s: StructModel, crated: bool) -> Option<ItemModel> {
    match s {
        StructModel::Props(p) => Some(
            ItemModel {
                code: match string_prop(p, "CodeName"@) {
                    Some(c) => c,
                    None => Seq::empty(),
                },
                quantity: match int32_prop(p, "Quantity"@) {
                    Some(q) => q,
                    None => 0,
                },
                crated,
            },
        ),
        _ => None,
    }
}

/// Picks the item a struct stands for.
pub open spec fn item_picker(crated: bool) -> spec_fn(StructModel) -> Option<ItemModel> {
    |s: StructModel| item_of(s, crated)
}

/// The items of the array property `name`, sorted by quantity, largest first.
pub open spec fn item_group(props: Entries, name: Seq<char>, crated: bool) -> Seq<ItemModel> {
    match array_prop(props, name) {
        Some(ArrayModel::Structs(structs)) => sort_by_quantity(
            structs.filter_map(item_picker(crated)),
        ),
        _ => Seq::empty(),
    }
}

/// The items of a `StockpileInfo` struct: loose items, crated items, vehicles,
/// crated vehicles, structures, crated structures, each group sorted by
/// quantity, largest first.
pub open spec fn stockpile_items(info: StructModel) -> Seq<ItemModel> {
    match info {
        StructModel::Props(p) => item_group(p, "Items"@, false) + item_group(p, "ItemCrates"@, true)
            + item_group(p, "Vehicles"@, false) + item_group(p, "VehicleCrates"@, true)
            + item_group(p, "Structures"@, false) + item_group(p, "StructureCrates"@, true),
        _ => Seq::empty(),
    }
}

/// Each item group comes sorted by quantity, largest first, and all of its
/// items carry the group's crated flag.
pub proof fn lemma_item_group(props: Entries, name: Seq<char>, crated: bool)
    ensures
        quantity_descending(item_group(props, name, crated)),
        forall|k: int|
            0 <= k < item_group(props, name, crated).len() ==> (#[trigger] item_group(
                props,
                name,
                crated,
            )[k]).crated == crated,
{
    match array_prop(props, name) {
        Some(ArrayModel::Structs(structs)) => {
            let picked = structs.filter_map(item_picker(crated));
            lemma_sort_by_quantity(picked);
            lemma_filter_map_all(structs, item_picker(crated), |i: ItemModel| i.crated == crated);
            let sorted = sort_by_quantity(picked);
            assert forall|k: int| 0 <= k < sorted.len() implies (#[trigger] sorted[k]).crated
                == crated by {
                assert(sorted.contains(sorted[k]));
                vstd::seq_lib::to_multiset_contains(sorted, sorted[k]);
                vstd::seq_lib::to_multiset_contains(picked, sorted[k]);
                let j = choose|j: int| 0 <= j < picked.len() && picked[j] == sorted[k];
                assert(picked[j].crated == crated);
            }
        },
        _ => {},
    }
}

/// Picking items from structs finds as many whatever crated flag it gives them.
proof fn lemma_picked_len(structs: Seq<StructModel>)
    ensures
        structs.filter_map(item_picker(true)).len() == structs.filter_map(item_picker(false)).len(),
    decreases structs.len(),
{
    if structs.len() > 0 {
        lemma_picked_len(structs.drop_last());
    }
}

/// The number of items of the array property `name` of a `StockpileInfo`.
pub open spec fn group_len(props: Entries, name: Seq<char>) -> nat {
    item_group(props, name, false).len()
}

/// The crated flags of a sequence of items.
pub open spec fn crated_flags(s: Seq<ItemModel>) -> Seq<bool> {
    s.map_values(|x: ItemModel| x.crated)
}

/// `n` copies of a flag.
pub open spec fn flags(n: nat, b: bool) -> Seq<bool> {
    Seq::new(n, |i: int| b)
}

/// A group's items all carry its flag.
proof fn lemma_group_flags(props: Entries, name: Seq<char>, crated: bool)
    ensures
        crated_flags(item_group(props, name, crated)) == flags(group_len(props, name), crated),
{
    lemma_item_group(props, name, crated);
    match array_prop(props, name) {
        Some(ArrayModel::Structs(structs)) => {
            lemma_picked_len(structs);
            lemma_sort_by_quantity(structs.filter_map(item_picker(true)));
            lemma_sort_by_quantity(structs.filter_map(item_picker(false)));
        },
        _ => {},
    }
    assert(crated_flags(item_group(props, name, crated)) =~= flags(group_len(props, name), crated));
}

/// The items of a `StockpileInfo` come as its `Items`, `ItemCrates`,
/// `Vehicles`, `VehicleCrates`, `Structures` and `StructureCrates` arrays, in
/// that order: every item read from `ItemCrates`, `VehicleCrates` or
/// `StructureCrates` is crated, and every item read from `Items`, `Vehicles`
/// or `Structures` is not.
pub proof fn lemma_crated_by_array(p: Entries)
    ensures
        crated_flags(stockpile_items(StructModel::Props(p))) == flags(group_len(p, "Items"@), false)
            + flags(group_len(p, "ItemCrates"@), true) + flags(group_len(p, "Vehicles"@), false)
            + flags(group_len(p, "VehicleCrates"@), true) + flags(
            group_len(p, "Structures"@),
            false,
        ) + flags(group_len(p, "StructureCrates"@), true),
{
    let g1 = item_group(p, "Items"@, false);
    let g2 = item_group(p, "ItemCrates"@, true);
    let g3 = item_group(p, "Vehicles"@, false);
    let g4 = item_group(p, "VehicleCrates"@, true);
    let g5 = item_group(p, "Structures"@, false);
    let g6 = item_group(p, "StructureCrates"@, true);
    lemma_group_flags(p, "Items"@, false);
    lemma_group_flags(p, "ItemCrates"@, true);
    lemma_group_flags(p, "Vehicles"@, false);
    lemma_group_flags(p, "VehicleCrates"@, true);
    lemma_group_flags(p, "Structures"@, false);
    lemma_group_flags(p, "StructureCrates"@, true);
    let f = |x: ItemModel| x.crated;
    assert((g1 + g2).map_values(f) =~= g1.map_values(f) + g2.map_values(f));
    assert((g1 + g2 + g3).map_values(f) =~= (g1 + g2).map_values(f) + g3.map_values(f));
    assert((g1 + g2 + g3 + g4).map_values(f) =~= (g1 + g2 + g3).map_values(f) + g4.map_values(f));
    assert((g1 + g2 + g3 + g4 + g5).map_values(f) =~= (g1 + g2 + g3 + g4).map_values(f)
        + g5.map_values(f));
    assert((g1 + g2 + g3 + g4 + g5 + g6).map_values(f) =~= (g1 + g2 + g3 + g4 + g5).map_values(f)
        + g6.map_values(f));
}

/// Parse one item array of a `StockpileInfo` struct, sorted by quantity descending.
fn parse_item_group(props: &PropertyList, name: &str, crated: bool) -> (r: Vec<StockpileItem>)
    ensures
        item_views(r@) == item_group(props@, name@, crated),
{
    let list = match get_array_prop(props, name) {
        Some(a) => match a.kind() {
            ArrayKind::Structs(l) => l,
            _ => {
                return Vec::new();
            },
        },
        None => {
            return Vec::new();
        },
    };
    let ghost structs = list@;
    let n = list.len();
    let mut group: Vec<StockpileItem> = Vec::new();
    let mut i: usize = 0;
    while i < n
        invariant
            n == structs.len(),
            structs == list@,
            i <= n,
            item_views(group@) =~= structs.take(i as int).filter_map(item_picker(crated)),
        decreases n - i,
    {
        proof {
            structs.lemma_filter_map_take_succ(item_picker(crated), i as int);
        }
        let s = list.get(i);
        match s.kind() {
            StructKind::Props(item_props) => {
                let code = match get_string_prop(&item_props, "CodeName") {
                    Some(c) => c,
                    None => String::new(),
                };
                let quantity = match get_int32_prop(&item_props, "Quantity") {
                    Some(q) => q,
                    None => 0,
                };
                group.push(StockpileItem::new(code, quantity, crated));
            },
            _ => {},
        }
        i = i + 1;
    }
    assert(structs.take(n as int) =~= structs);
    sort_by_quantity_desc(group)
}

/// Parse stockpile items from a `StockpileInfo` struct.
fn parse_stockpile_items(value: &StructRef) -> (r: Vec<StockpileItem>)
    ensures
        item_views(r@) == stockpile_items(value@),
{
    let mut items: Vec<StockpileItem> = Vec::new();
    match value.kind() {
        StructKind::Props(props) => {
            let ghost p = props@;
            let mut g = parse_item_group(&props, "Items", false);
            items.append(&mut g);
            let mut g = parse_item_group(&props, "ItemCrates", true);
            items.append(&mut g);
            let mut g = parse_item_group(&props, "Vehicles", false);
            items.append(&mut g);
            let mut g = parse_item_group(&props, "VehicleCrates", true);
            items.append(&mut g);
            let mut g = parse_item_group(&props, "Structures", false);
            items.append(&mut g);
            let mut g = parse_item_group(&props, "StructureCrates", true);
            items.append(&mut g);
            proof {
                assert(item_views(items@) =~= item_group(p, "Items"@, false) + item_group(
                    p,
                    "ItemCrates"@,
                    true,
                ) + item_group(p, "Vehicles"@, false) + item_group(p, "VehicleCrates"@, true)
                    + item_group(p, "Structures"@, false) + item_group(p, "StructureCrates"@, true));
            }
        },
        _ => {},
    }
    items
}

// ---------------------------------------------------------------------------
// Tooltips
// ---------------------------------------------------------------------------

/// The stockpile type of a tooltip: its raw in-game CodeName, or "Undefined"
/// when the CodeName is missing or empty.
pub open spec fn stockpile_type_of(props: Entries) -> Seq<char> {
    let code = match string_prop(props, "CodeName"@) {
        Some(c) => c,
        None => Seq::empty(),
    };
    if code.len() == 0 {
        "Undefined"@
    } else {
        code
    }
}

/// The hex of a tooltip: the last `::`-separated piece of its `MapId`
/// ("EWorldConquestMapId::TerminusHex" gives "TerminusHex").
pub open spec fn hex_of(props: Entries) -> Option<Seq<char>> {
    match string_prop(props, "MapId"@) {
        Some(s) => Some(last_piece(s)),
        None => None,
    }
}

/// A coordinate, or zero when it is missing.
pub open spec fn float_or_zero(f: Option<FloatBits>) -> FloatBits {
    match f {
        Some(b) => b,
        None => FloatBits::Double(0),
    }
}

/// The coordinates of a tooltip, from its `NormalizedMapCoords` struct: a
/// `Vector2D`, or a struct with `x` and `y` properties (zero when missing).
pub open spec fn coords_of(props: Entries) -> Option<StockpileCoords> {
    match struct_prop(props, "NormalizedMapCoords"@) {
        Some(StructModel::Vector2D(x, y)) => Some(
            StockpileCoords { x: FloatBits::Double(x), y: FloatBits::Double(y) },
        ),
        Some(StructModel::Props(c)) => Some(
            StockpileCoords {
                x: float_or_zero(float_prop(c, "x"@)),
                y: float_or_zero(float_prop(c, "y"@)),
            },
        ),
        _ => None,
    }
}

/// The last-update time of a tooltip, from its `LastUpdated` DateTime struct.
pub open spec fn timestamp_of(props: Entries) -> Option<i64> {
    match datetime_ticks_prop(props, "LastUpdated"@) {
        Some(t) => ue_timestamp(t),
        None => None,
    }
}

/// The errors of a stockpile whose timestamp is `ts`: one, when it is missing.
pub open spec fn timestamp_errors(ts: Option<i64>) -> Option<Seq<Seq<char>>> {
    match ts {
        Some(_) => None,
        None => Some(seq!["missing or invalid LastUpdated timestamp"@]),
    }
}

/// The tech `Values` of a tooltip's initial details.
pub open spec fn initial_values(props: Entries) -> Option<Seq<u8>> {
    match struct_prop(props, "InitalMapItemDetails"@) {
        Some(StructModel::Props(p)) => byte_array_prop(p, "Values"@),
        _ => None,
    }
}

/// The tech `Values` of a tooltip: those of its recent details when there
/// are any, else those of its initial details.
pub open spec fn tech_values(props: Entries, details: Entries) -> Option<Seq<u8>> {
    match byte_array_prop(details, "Values"@) {
        Some(v) => if v.len() > 0 {
            Some(v)
        } else {
            initial_values(props)
        },
        None => initial_values(props),
    }
}

/// The items of an optional `StockpileInfo` struct.
pub open spec fn items_of(info: Option<StructModel>) -> Seq<ItemModel> {
    match info {
        Some(i) => stockpile_items(i),
        None => Seq::empty(),
    }
}

/// The reserve stockpile a struct of `ReserveStockpileInfoList` stands for:
/// named by its `StockpileName`, with its own items and no tech; everything
/// else is that of the tooltip's public stockpile `main`.
pub open spec fn reserve_of(r: StructModel, main: StockpileView) -> Option<StockpileView> {
    match r {
        StructModel::Props(rp) => Some(
            StockpileView {
                name: match string_prop(rp, "StockpileName"@) {
                    Some(n) => n,
                    None => Seq::empty(),
                },
                stockpile_type: main.stockpile_type,
                faction: main.faction,
                hex: main.hex,
                coords: main.coords,
                is_reserve: true,
                items: items_of(struct_prop(rp, "StockpileInfo"@)),
                tech: None,
                timestamp: main.timestamp,
                shard: main.shard,
                ingame_timestamp: main.ingame_timestamp,
                resolution: main.resolution,
                errors: main.errors,
            },
        ),
        _ => None,
    }
}

/// Picks the reserve stockpile a struct stands for.
pub open spec fn reserve_picker(main: StockpileView) -> spec_fn(StructModel) -> Option<
    StockpileView,
> {
    |r: StructModel| reserve_of(r, main)
}

/// The public stockpile of a tooltip whose recent details are `details`.
pub open spec fn public_stockpile(props: Entries, details: Entries, faction: Faction) -> StockpileView {
    let ty = stockpile_type_of(props);
    let ts = timestamp_of(props);
    StockpileView {
        name: Seq::empty(),
        stockpile_type: ty,
        faction,
        hex: hex_of(props),
        coords: coords_of(props),
        is_reserve: false,
        items: items_of(struct_prop(details, "StockpileInfo"@)),
        tech: match tech_values(props, details) {
            Some(v) => decoded_tech(ty, v),
            None => None,
        },
        timestamp: ts,
        shard: None,
        ingame_timestamp: None,
        resolution: None,
        errors: timestamp_errors(ts),
    }
}

/// The stockpiles of one pinned tooltip: none unless it has a
/// `RecentMapItemDetails` struct; else its public stockpile, then one reserve
/// stockpile per struct of `ReserveStockpileInfoList`, in order.
pub open spec fn tooltip_stockpiles(props: Entries, faction: Faction) -> Seq<StockpileView> {
    match struct_prop(props, "RecentMapItemDetails"@) {
        Some(StructModel::Props(d)) => {
            let main = public_stockpile(props, d, faction);
            seq![main] + match array_prop(d, "ReserveStockpileInfoList"@) {
                Some(ArrayModel::Structs(rs)) => rs.filter_map(reserve_picker(main)),
                _ => Seq::empty(),
            }
        },
        _ => Seq::empty(),
    }
}

/// A copy of an optional string.
fn clone_opt_string(o: &Option<String>) -> (r: Option<String>)
    ensures
        opt_text(r) == opt_text(*o),
{
    match o {
        Some(s) => Some(s.clone()),
        None => None,
    }
}

/// The errors of a stockpile whose timestamp is `ts`.
fn make_timestamp_errors(ts: Option<i64>) -> (r: Option<Vec<String>>)
    ensures
        opt_texts(r) == timestamp_errors(ts),
{
    match ts {
        Some(_) => None,
        None => {
            let v = vec![String::from_str("missing or invalid LastUpdated timestamp")];
            proof {
                assert(opt_texts(Some(v)) =~= timestamp_errors(ts));
            }
            Some(v)
        },
    }
}

/// The coordinates of a tooltip.
fn parse_coords(props: &PropertyList) -> (r: Option<StockpileCoords>)
    ensures
        r == coords_of(props@),
{
    match get_struct_prop(props, "NormalizedMapCoords") {
        Some(sv) => match sv.kind() {
            StructKind::Vector2D(x, y) => Some(
                StockpileCoords { x: FloatBits::Double(x), y: FloatBits::Double(y) },
            ),
            StructKind::Props(c) => {
                let x = match get_float_prop(&c, "x") {
                    Some(f) => f,
                    None => FloatBits::Double(0),
                };
                let y = match get_float_prop(&c, "y") {
                    Some(f) => f,
                    None => FloatBits::Double(0),
                };
                Some(StockpileCoords { x, y })
            },
            _ => None,
        },
        None => None,
    }
}

/// The tech `Values` of a tooltip's initial details.
fn get_initial_values<'a>(props: &PropertyList<'a>) -> (r: Option<&'a [u8]>)
    ensures
        bytes_view(r) == initial_values(props@),
{
    match get_struct_prop(props, "InitalMapItemDetails") {
        Some(sv) => match sv.kind() {
            StructKind::Props(p) => get_byte_array_prop(&p, "Values"),
            _ => None,
        },
        None => None,
    }
}

/// The items of an optional `StockpileInfo` struct.
fn parse_optional_items(info: Option<StructRef>) -> (r: Vec<StockpileItem>)
    ensures
        item_views(r@) == items_of(struct_ref_view(info)),
{
    match info {
        Some(i) => parse_stockpile_items(&i),
        None => Vec::new(),
    }
}

/// Parse a single tooltip into stockpiles (main + reserves).
fn parse_tooltip(props: &PropertyList, faction: Faction) -> (r: Vec<Stockpile>)
    ensures
        stockpile_views(r@) == tooltip_stockpiles(props@, faction),
{
    let mut result: Vec<Stockpile> = Vec::new();
    let detail_props = match get_struct_prop(props, "RecentMapItemDetails") {
        Some(d) => match d.kind() {
            StructKind::Props(p) => p,
            _ => {
                return result;
            },
        },
        None => {
            return result;
        },
    };

    // Keep the raw in-game CodeName as the type; only a missing CodeName falls back.
    let code_name = match get_string_prop(props, "CodeName") {
        Some(c) => c,
        None => String::new(),
    };
    let stockpile_type = if code_name.as_str().is_empty() {
        String::from_str("Undefined")
    } else {
        code_name
    };
    let hex = match get_string_prop(props, "MapId") {
        Some(s) => Some(last_split_piece(s.as_str())),
        None => None,
    };
    let coords = parse_coords(props);
    let timestamp = match get_datetime_ticks_prop(props, "LastUpdated") {
        Some(t) => parse_ue_timestamp(t),
        None => None,
    };

    let items = parse_optional_items(get_struct_prop(&detail_props, "StockpileInfo"));
    // Prefer the recent snapshot of the tech values, but fall back to the
    // initial details since the recent array is often empty.
    let values = match get_byte_array_prop(&detail_props, "Values") {
        Some(v) => if v.len() > 0 {
            Some(v)
        } else {
            get_initial_values(props)
        },
        None => get_initial_values(props),
    };
    let tech: Option<Tech> = match values {
        Some(v) => parse_tech(stockpile_type.as_str(), v),
        None => None,
    };

    result.push(
        Stockpile {
            name: String::new(),
            stockpile_type: stockpile_type.clone(),
            faction,
            hex: clone_opt_string(&hex),
            coords,
            is_reserve: false,
            items,
            tech,
            timestamp,
            shard: None,
            ingame_timestamp: None,
            resolution: None,
            errors: make_timestamp_errors(timestamp),
        },
    );
    let ghost main = public_stockpile(props@, detail_props@, faction);
    assert(result@[0]@ == main);
    assert(stockpile_views(result@) =~= seq![main]);

    let list = match get_array_prop(&detail_props, "ReserveStockpileInfoList") {
        Some(a) => match a.kind() {
            ArrayKind::Structs(l) => l,
            _ => {
                assert(seq![main] + Seq::<StockpileView>::empty() =~= seq![main]);
                return result;
            },
        },
        None => {
            assert(seq![main] + Seq::<StockpileView>::empty() =~= seq![main]);
            return result;
        },
    };
    let ghost reserves = list@;
    let n = list.len();
    let mut i: usize = 0;
    while i < n
        invariant
            n == reserves.len(),
            reserves == list@,
            i <= n,
            stockpile_views(result@) =~= seq![main] + reserves.take(i as int).filter_map(
                reserve_picker(main),
            ),
            stockpile_type@ == main.stockpile_type,
            opt_text(hex) == main.hex,
            coords == main.coords,
            timestamp == main.timestamp,
            main.faction == faction,
            main.shard is None,
            main.ingame_timestamp is None,
            main.resolution is None,
            main.errors == timestamp_errors(timestamp),
        decreases n - i,
    {
        proof {
            reserves.lemma_filter_map_take_succ(reserve_picker(main), i as int);
        }
        let reserve = list.get(i);
        match reserve.kind() {
            StructKind::Props(reserve_props) => {
                let name = match get_string_prop(&reserve_props, "StockpileName") {
                    Some(n) => n,
                    None => String::new(),
                };
                let reserve_items = parse_optional_items(
                    get_struct_prop(&reserve_props, "StockpileInfo"),
                );
                let ghost before = result@;
                result.push(
                    Stockpile {
                        name,
                        stockpile_type: stockpile_type.clone(),
                        faction,
                        hex: clone_opt_string(&hex),
                        coords,
                        is_reserve: true,
                        items: reserve_items,
                        tech: None,
                        timestamp,
                        shard: None,
                        ingame_timestamp: None,
                        resolution: None,
                        errors: make_timestamp_errors(timestamp),
                    },
                );
                proof {
                    assert(stockpile_views(result@) =~= stockpile_views(before).push(
                        result@[result@.len() - 1]@,
                    ));
                }
            },
            _ => {},
        }
        i = i + 1;
    }
    assert(reserves.take(n as int) =~= reserves);
    result
}

/// The public stockpile of a tooltip takes its tech from the `Values` bytes
/// of its recent details (`RecentMapItemDetails`) whenever that array is
/// there and not empty, whatever the initial details hold; only when it is
/// missing or empty does it take them from the initial details
/// (`InitalMapItemDetails`), and with neither it has no tech.
pub proof fn lemma_tech_prefers_recent_values(props: Entries, faction: Faction)
    ensures
        struct_prop(props, "RecentMapItemDetails"@) matches Some(StructModel::Props(d)) ==> ({
            let main = tooltip_stockpiles(props, faction)[0];
            let ty = stockpile_type_of(props);
            let recent = match array_prop(d, "Values"@) {
                Some(ArrayModel::Bytes(v)) => Some(v),
                _ => None,
            };
            &&& tooltip_stockpiles(props, faction).len() >= 1
            &&& (recent matches Some(v) ==> (v.len() > 0 ==> main.tech == decoded_tech(ty, v)))
            &&& ((recent is None || recent->0.len() == 0) ==> main.tech == match struct_prop(props, "InitalMapItemDetails"@) {
                Some(StructModel::Props(i)) => match array_prop(i, "Values"@) {
                    Some(ArrayModel::Bytes(w)) => decoded_tech(ty, w),
                    _ => None,
                },
                _ => None,
            })
        }),
{
    match struct_prop(props, "RecentMapItemDetails"@) {
        Some(StructModel::Props(d)) => {
            let main = public_stockpile(props, d, faction);
            let rest = match array_prop(d, "ReserveStockpileInfoList"@) {
                Some(ArrayModel::Structs(rs)) => rs.filter_map(reserve_picker(main)),
                _ => Seq::empty(),
            };
            assert((seq![main] + rest)[0] == main);
        },
        _ => {},
    }
}

/// The name and items of the reserve stockpile that a struct of
/// `ReserveStockpileInfoList` stands for: its `StockpileName` (empty when
/// missing) and the items of its `StockpileInfo`.
pub open spec fn reserve_entry(r: StructModel) -> Option<(Seq<char>, Seq<ItemModel>)> {
    match r {
        StructModel::Props(rp) => Some(
            (
                match string_prop(rp, "StockpileName"@) {
                    Some(n) => n,
                    None => Seq::empty(),
                },
                match struct_prop(rp, "StockpileInfo"@) {
                    Some(i) => stockpile_items(i),
                    None => Seq::empty(),
                },
            ),
        ),
        _ => None,
    }
}

/// The name and items of a stockpile.
pub open spec fn name_and_items(v: StockpileView) -> (Seq<char>, Seq<ItemModel>) {
    (v.name, v.items)
}

/// The reserves picked from a list of structs have the names and items of
/// the structs that stand for them, in order.
proof fn lemma_reserve_entries(rs: Seq<StructModel>, main: StockpileView)
    ensures
        rs.filter_map(reserve_picker(main)).map_values(|v: StockpileView| name_and_items(v))
            == rs.filter_map(|r: StructModel| reserve_entry(r)),
    decreases rs.len(),
{
    if rs.len() > 0 {
        lemma_reserve_entries(rs.drop_last(), main);
        let a = rs.drop_last().filter_map(reserve_picker(main));
        let f = |v: StockpileView| name_and_items(v);
        match reserve_of(rs.last(), main) {
            Some(v) => {
                assert((a + seq![v]).map_values(f) =~= a.map_values(f) + seq![f(v)]);
            },
            None => {},
        }
        assert(rs.filter_map(reserve_picker(main)).map_values(f) =~= rs.filter_map(
            |r: StructModel| reserve_entry(r),
        ));
    }
}

/// What a tooltip's stockpiles hold, said from its properties: none without
/// a `RecentMapItemDetails` struct. Otherwise, first the public stockpile:
/// unnamed, no reserve, of the tooltip's faction; its type is the
/// `CodeName` string, or "Undefined" when that is missing or empty; its hex
/// is the last `::`-piece of `MapId`; its coordinates are the two doubles of
/// a `NormalizedMapCoords` vector, or the `x` and `y` numbers of such a
/// struct (zero when missing); its timestamp comes from the ticks of the
/// `LastUpdated` date; its items are those of the details' `StockpileInfo`.
/// Then one reserve per struct of the details' `ReserveStockpileInfoList`,
/// in order, with that struct's `StockpileName` and items.
pub proof fn lemma_tooltip_fields(props: Entries, faction: Faction)
    ensures
        !(struct_prop(props, "RecentMapItemDetails"@) matches Some(StructModel::Props(_)))
            ==> tooltip_stockpiles(props, faction).len() == 0,
        struct_prop(props, "RecentMapItemDetails"@) matches Some(StructModel::Props(d)) ==> ({
            let r = tooltip_stockpiles(props, faction);
            let main = r[0];
            &&& r.len() >= 1
            &&& main.name.len() == 0 && !main.is_reserve && main.faction == faction
            &&& main.stockpile_type == match string_prop(props, "CodeName"@) {
                Some(c) => if c.len() > 0 {
                    c
                } else {
                    "Undefined"@
                },
                None => "Undefined"@,
            }
            &&& main.hex == match string_prop(props, "MapId"@) {
                Some(m) => Some(last_piece(m)),
                None => None,
            }
            &&& main.coords == match struct_prop(props, "NormalizedMapCoords"@) {
                Some(StructModel::Vector2D(x, y)) => Some(
                    StockpileCoords { x: FloatBits::Double(x), y: FloatBits::Double(y) },
                ),
                Some(StructModel::Props(c)) => Some(
                    StockpileCoords {
                        x: match float_prop(c, "x"@) {
                            Some(b) => b,
                            None => FloatBits::Double(0),
                        },
                        y: match float_prop(c, "y"@) {
                            Some(b) => b,
                            None => FloatBits::Double(0),
                        },
                    },
                ),
                _ => None,
            }
            &&& main.timestamp == match struct_prop(props, "LastUpdated"@) {
                Some(StructModel::DateTime(t)) => ue_timestamp(t as i64),
                _ => None,
            }
            &&& main.items == match struct_prop(d, "StockpileInfo"@) {
                Some(i) => stockpile_items(i),
                None => Seq::empty(),
            }
            &&& r.skip(1).map_values(|v: StockpileView| name_and_items(v)) == match array_prop(
                d,
                "ReserveStockpileInfoList"@,
            ) {
                Some(ArrayModel::Structs(rs)) => rs.filter_map(|x: StructModel| reserve_entry(x)),
                _ => Seq::empty(),
            }
        }),
{
    match struct_prop(props, "RecentMapItemDetails"@) {
        Some(StructModel::Props(d)) => {
            let main = public_stockpile(props, d, faction);
            let rest = match array_prop(d, "ReserveStockpileInfoList"@) {
                Some(ArrayModel::Structs(rs)) => rs.filter_map(reserve_picker(main)),
                _ => Seq::empty(),
            };
            let r = seq![main] + rest;
            assert(r[0] == main);
            assert(r.skip(1) =~= rest);
            match array_prop(d, "ReserveStockpileInfoList"@) {
                Some(ArrayModel::Structs(rs)) => lemma_reserve_entries(rs, main),
                _ => {
                    assert(rest.map_values(|v: StockpileView| name_and_items(v)) =~= Seq::<
                        (Seq<char>, Seq<ItemModel>),
                    >::empty());
                },
            }
        },
        _ => {},
    }
}

/// Every element of `s.filter_map(f)` is something `f` picks from an element of `s`.
proof fn lemma_filter_map_all<A, B>(s: Seq<A>, f: spec_fn(A) -> Option<B>, p: spec_fn(B) -> bool)
    requires
        forall|x: A| #[trigger] f(x) is Some ==> p(f(x)->Some_0),
    ensures
        forall|k: int| 0 <= k < s.filter_map(f).len() ==> p(#[trigger] s.filter_map(f)[k]),
    decreases s.len(),
{
    if s.len() > 0 {
        lemma_filter_map_all(s.drop_last(), f, p);
        let rest = s.drop_last().filter_map(f);
        assert forall|k: int| 0 <= k < s.filter_map(f).len() implies p(
            #[trigger] s.filter_map(f)[k],
        ) by {
            if k < rest.len() {
                assert(s.filter_map(f)[k] == rest[k]);
            } else {
                assert(f(s.last()) is Some);
            }
        }
    }
}

/// What every stockpile of a tooltip shares: the tooltip's faction, its type
/// (the raw CodeName, "Undefined" only when it is missing or empty), hex,
/// coordinates and timestamp; a missing or invalid timestamp comes with an
/// error and a valid one with none; no screenshot fields. The first stockpile
/// is the public one (unnamed, not a reserve); every other one is a reserve
/// stockpile, without tech.
pub proof fn lemma_tooltip_stockpiles(props: Entries, faction: Faction)
    ensures
        ({
            let r = tooltip_stockpiles(props, faction);
            &&& forall|k: int|
                #![trigger r[k]]
                0 <= k < r.len() ==> {
                    &&& r[k].faction == faction
                    &&& r[k].stockpile_type == stockpile_type_of(props)
                    &&& r[k].stockpile_type.len() > 0
                    &&& r[k].hex == hex_of(props)
                    &&& r[k].coords == coords_of(props)
                    &&& r[k].timestamp == timestamp_of(props)
                    &&& (r[k].errors is Some <==> r[k].timestamp is None)
                    &&& r[k].shard is None && r[k].ingame_timestamp is None
                        && r[k].resolution is None
                    &&& r[k].is_reserve == (k > 0)
                    &&& k > 0 ==> r[k].tech is None
                }
            &&& r.len() > 0 ==> r[0].name.len() == 0
        }),
{
    match struct_prop(props, "RecentMapItemDetails"@) {
        Some(StructModel::Props(d)) => {
            let main = public_stockpile(props, d, faction);
            reveal_strlit("Undefined");
            let shares = |v: StockpileView|
                {
                    &&& v.faction == faction
                    &&& v.stockpile_type == stockpile_type_of(props)
                    &&& v.hex == hex_of(props)
                    &&& v.coords == coords_of(props)
                    &&& v.timestamp == timestamp_of(props)
                    &&& v.errors == timestamp_errors(timestamp_of(props))
                    &&& v.shard is None && v.ingame_timestamp is None && v.resolution is None
                    &&& v.is_reserve
                    &&& v.tech is None
                };
            let rest = match array_prop(d, "ReserveStockpileInfoList"@) {
                Some(ArrayModel::Structs(rs)) => rs.filter_map(reserve_picker(main)),
                _ => Seq::empty(),
            };
            match array_prop(d, "ReserveStockpileInfoList"@) {
                Some(ArrayModel::Structs(rs)) => {
                    lemma_filter_map_all(rs, reserve_picker(main), shares);
                },
                _ => {},
            }
            let r = seq![main] + rest;
            assert forall|k: int| 0 < k < r.len() implies shares(#[trigger] r[k]) by {
                assert(r[k] == rest[k - 1]);
            }
        },
        _ => {},
    }
}

// ---------------------------------------------------------------------------
// Whole saves
// ---------------------------------------------------------------------------

/// The stockpiles of a sequence of pinned tooltips, in order (tooltips that
/// are not plain structs give none).
pub open spec fn tooltips_stockpiles(tooltips: Seq<StructModel>, faction: Faction) -> Seq<
    StockpileView,
>
    decreases tooltips.len(),
{
    if tooltips.len() == 0 {
        Seq::empty()
    } else {
        tooltips_stockpiles(tooltips.drop_last(), faction) + match tooltips.last() {
            StructModel::Props(p) => tooltip_stockpiles(p, faction),
            _ => Seq::empty(),
        }
    }
}

/// The stockpiles of one faction's pinned tooltips (property `prop_name`).
pub open spec fn faction_stockpiles(root: Entries, prop_name: Seq<char>, faction: Faction) -> Seq<
    StockpileView,
> {
    match struct_array_prop(root, prop_name) {
        Some(tooltips) => tooltips_stockpiles(tooltips, faction),
        None => Seq::empty(),
    }
}

/// The stockpiles of a save: those of the Colonial pinned tooltips
/// (`PinnedMapToolTipsC`), then those of the Warden ones (`PinnedMapToolTipsW`).
pub open spec fn save_stockpiles(root: Entries) -> Seq<StockpileView> {
    faction_stockpiles(root, "PinnedMapToolTipsC"@, Faction::Colonial) + faction_stockpiles(
        root,
        "PinnedMapToolTipsW"@,
        Faction::Warden,
    )
}

/// Every stockpile of a sequence of tooltips belongs to the given faction.
proof fn lemma_tooltips_faction(tooltips: Seq<StructModel>, faction: Faction)
    ensures
        forall|k: int|
            0 <= k < tooltips_stockpiles(tooltips, faction).len() ==> (
            #[trigger] tooltips_stockpiles(tooltips, faction)[k]).faction == faction,
    decreases tooltips.len(),
{
    if tooltips.len() > 0 {
        lemma_tooltips_faction(tooltips.drop_last(), faction);
        let a = tooltips_stockpiles(tooltips.drop_last(), faction);
        let b = match tooltips.last() {
            StructModel::Props(p) => tooltip_stockpiles(p, faction),
            _ => Seq::empty(),
        };
        match tooltips.last() {
            StructModel::Props(p) => lemma_tooltip_stockpiles(p, faction),
            _ => {},
        }
        assert forall|k: int| 0 <= k < (a + b).len() implies (#[trigger] (a + b)[k]).faction
            == faction by {
            if k >= a.len() {
                assert((a + b)[k] == b[k - a.len()]);
            }
        }
    }
}

/// A save's stockpiles are those of its Colonial tooltips, all Colonial,
/// followed by those of its Warden tooltips, all Warden.
pub proof fn lemma_save_factions(root: Entries)
    ensures
        ({
            let c = faction_stockpiles(root, "PinnedMapToolTipsC"@, Faction::Colonial);
            let r = save_stockpiles(root);
            &&& forall|k: int| 0 <= k < c.len() ==> (#[trigger] r[k]).faction == Faction::Colonial
            &&& forall|k: int| c.len() <= k < r.len() ==> (#[trigger] r[k]).faction == Faction::Warden
        }),
{
    let c = faction_stockpiles(root, "PinnedMapToolTipsC"@, Faction::Colonial);
    let w = faction_stockpiles(root, "PinnedMapToolTipsW"@, Faction::Warden);
    match struct_array_prop(root, "PinnedMapToolTipsC"@) {
        Some(t) => lemma_tooltips_faction(t, Faction::Colonial),
        None => {},
    }
    match struct_array_prop(root, "PinnedMapToolTipsW"@) {
        Some(t) => lemma_tooltips_faction(t, Faction::Warden),
        None => {},
    }
    assert forall|k: int| 0 <= k < c.len() implies (#[trigger] (c + w)[k]).faction
        == Faction::Colonial by {
        assert((c + w)[k] == c[k]);
    }
    assert forall|k: int| c.len() <= k < (c + w).len() implies (#[trigger] (c + w)[k]).faction
        == Faction::Warden by {
        assert((c + w)[k] == w[k - c.len()]);
    }
}

/// A property list with every property named `name` taken out, the others in order.
pub open spec fn without_prop(entries: Entries, name: Seq<char>) -> Entries
    decreases entries.len(),
{
    if entries.len() == 0 {
        entries
    } else if entries[0].0 == name {
        without_prop(entries.drop_first(), name)
    } else {
        seq![entries[0]] + without_prop(entries.drop_first(), name)
    }
}

/// Taking out the properties named `gone` hides them from a lookup and
/// leaves every lookup of another name as it was.
proof fn lemma_find_without<A>(
    entries: Entries,
    gone: Seq<char>,
    name: Seq<char>,
    pick: spec_fn(PropValue) -> Option<A>,
)
    ensures
        find_entry(without_prop(entries, gone), name, pick) == if gone == name {
            None
        } else {
            find_entry(entries, name, pick)
        },
    decreases entries.len(),
{
    if entries.len() > 0 {
        lemma_find_without(entries.drop_first(), gone, name, pick);
        if entries[0].0 != gone {
            let rest = without_prop(entries.drop_first(), gone);
            let w = seq![entries[0]] + rest;
            assert(w[0] == entries[0]);
            assert(w.drop_first() =~= rest);
        }
    }
}

/// Every element passes a filter that keeps them all; none passes one that keeps none.
proof fn lemma_filter_all<A>(s: Seq<A>, p: spec_fn(A) -> bool)
    requires
        forall|i: int| 0 <= i < s.len() ==> p(#[trigger] s[i]),
    ensures
        s.filter(p) == s,
    decreases s.len(),
{
    reveal_with_fuel(Seq::<_>::filter, 1);
    if s.len() > 0 {
        lemma_filter_all(s.drop_last(), p);
        assert(p(s[s.len() - 1]));
        assert(s.drop_last().push(s.last()) =~= s);
    }
}

/// The stockpiles of a faction, among those of a save.
pub open spec fn of_faction(s: Seq<StockpileView>, faction: Faction) -> Seq<StockpileView> {
    s.filter(|v: StockpileView| v.faction == faction)
}

/// Each faction's stockpiles are read from its own pinned-tooltips property
/// alone: a save without `PinnedMapToolTipsW` gives exactly the Colonial
/// stockpiles of the whole save, which are its first ones, and a save without
/// `PinnedMapToolTipsC` gives exactly its Warden stockpiles, which are its
/// last ones.
pub proof fn lemma_factions_independent(root: Entries)
    ensures
        ({
            let all = save_stockpiles(root);
            let colonial = save_stockpiles(without_prop(root, "PinnedMapToolTipsW"@));
            let warden = save_stockpiles(without_prop(root, "PinnedMapToolTipsC"@));
            &&& colonial == of_faction(all, Faction::Colonial)
            &&& warden == of_faction(all, Faction::Warden)
            &&& all == colonial + warden
        }),
{
    broadcast use vstd::seq_lib::group_filter_ensures;

    let c_name = "PinnedMapToolTipsC"@;
    let w_name = "PinnedMapToolTipsW"@;
    reveal_strlit("PinnedMapToolTipsC");
    reveal_strlit("PinnedMapToolTipsW");
    assert(c_name[17] != w_name[17]);
    let c = faction_stockpiles(root, c_name, Faction::Colonial);
    let w = faction_stockpiles(root, w_name, Faction::Warden);
    let no_w = without_prop(root, w_name);
    let no_c = without_prop(root, c_name);
    lemma_find_without(root, w_name, c_name, struct_array_picker());
    lemma_find_without(root, w_name, w_name, struct_array_picker());
    lemma_find_without(root, c_name, c_name, struct_array_picker());
    lemma_find_without(root, c_name, w_name, struct_array_picker());
    assert(save_stockpiles(no_w) =~= c);
    assert(save_stockpiles(no_c) =~= w);
    match struct_array_prop(root, c_name) {
        Some(t) => lemma_tooltips_faction(t, Faction::Colonial),
        None => {},
    }
    match struct_array_prop(root, w_name) {
        Some(t) => lemma_tooltips_faction(t, Faction::Warden),
        None => {},
    }
    let is_c = |v: StockpileView| v.faction == Faction::Colonial;
    let is_w = |v: StockpileView| v.faction == Faction::Warden;
    assert((c + w).filter(is_c) =~= c.filter(is_c) + w.filter(is_c)) by {
        Seq::filter_distributes_over_add(c, w, is_c);
    }
    assert((c + w).filter(is_w) =~= c.filter(is_w) + w.filter(is_w)) by {
        Seq::filter_distributes_over_add(c, w, is_w);
    }
    lemma_filter_all(c, is_c);
    lemma_filter_all(w, is_w);
    lemma_filter_none(w, is_c);
    lemma_filter_none(c, is_w);
}

/// Extract one faction's stockpiles from the root properties of a save.
fn extract_faction(root: &PropertyList, prop_name: &str, faction: Faction) -> (r: Vec<Stockpile>)
    ensures
        stockpile_views(r@) == faction_stockpiles(root@, prop_name@, faction),
{
    let mut stockpiles: Vec<Stockpile> = Vec::new();
    let tooltips = match get_struct_array_prop(root, prop_name) {
        Some(t) => t,
        None => {
            return stockpiles;
        },
    };
    let ghost ts = tooltips@;
    let n = tooltips.len();
    let mut i: usize = 0;
    while i < n
        invariant
            n == ts.len(),
            ts == tooltips@,
            i <= n,
            stockpile_views(stockpiles@) =~= tooltips_stockpiles(ts.take(i as int), faction),
        decreases n - i,
    {
        let tooltip = tooltips.get(i);
        let ghost before = stockpiles@;
        match tooltip.kind() {
            StructKind::Props(props) => {
                let mut parsed = parse_tooltip(&props, faction);
                let ghost added = parsed@;
                stockpiles.append(&mut parsed);
                proof {
                    assert(stockpiles@ =~= before + added);
                    assert(stockpile_views(before + added) =~= stockpile_views(before)
                        + stockpile_views(added));
                }
            },
            _ => {},
        }
        proof {
            assert(ts.take(i + 1).drop_last() =~= ts.take(i as int));
            assert(ts.take(i + 1).last() == ts[i as int]);
        }
        i = i + 1;
    }
    assert(ts.take(n as int) =~= ts);
    stockpiles
}

/// Extract stockpiles from the root properties of a save. Pinned tooltips
/// are stored per faction (`PinnedMapToolTipsC` for Colonial,
/// `PinnedMapToolTipsW` for Warden); a save may contain either or both.
fn extract_root_stockpiles(root: &PropertyList) -> (r: Vec<Stockpile>)
    ensures
        stockpile_views(r@) == save_stockpiles(root@),
{
    let mut stockpiles = extract_faction(root, "PinnedMapToolTipsC", Faction::Colonial);
    let mut wardens = extract_faction(root, "PinnedMapToolTipsW", Faction::Warden);
    let ghost a = stockpiles@;
    let ghost b = wardens@;
    stockpiles.append(&mut wardens);
    assert(stockpiles@ =~= a + b);
    assert(stockpile_views(a + b) =~= stockpile_views(a) + stockpile_views(b));
    stockpiles
}

/// Extract stockpiles from a save read by `uesave`: those of the Colonial
/// pinned tooltips, then those of the Warden ones.
pub fn extract_stockpiles(save: &uesave::Save) -> (r: Vec<Stockpile>)
    ensures
        stockpile_views(r@) == save_stockpiles(save_root_entries(*save)),
{
    let root = save_root(save);
    extract_root_stockpiles(&root)
}

/// The stockpiles of a save file, given what `uesave` made of its bytes: the
/// save, or the text of its parse error, which becomes a `ParseError`.
pub fn parse_save_result(read: Result<uesave::Save, String>) -> (r: Result<
    Vec<Stockpile>,
    FsSavError,
>)
    ensures
        match read {
            Ok(save) => r matches Ok(s) && stockpile_views(s@) == save_stockpiles(
                save_root_entries(save),
            ),
            Err(m) => r matches Err(FsSavError::ParseError(e)) && e@ == m@,
        },
{
    match read {
        Ok(save) => Ok(extract_stockpiles(&save)),
        Err(e) => Err(FsSavError::ParseError(e)),
    }
}

} // verus!
