//! What a watcher reports when the save changes.

use vstd::prelude::*;

use crate::models::{item_views, opt_text, ItemModel, StockpileItem};
use crate::text::str_eq;

verus! {

/// Which changes of a stockpile count when only changes are reported.
#[derive(Debug, Clone, Copy, PartialEq, Eq, Structural)]
pub enum DiffMode {
    /// Any field (the stockpiles' serialized forms differ)
    Any,
    /// Only the items
    Items,
}

/// What the watcher remembers of a stockpile between two reads of the save:
/// its key (see the stockpile's `to_key`), its serialized form (if it could
/// be serialized) and its items.
#[derive(Debug)]
pub struct TrackedStockpile {
    pub key: String,
    pub json: Option<String>,
    pub items: Vec<StockpileItem>,
}

/// What a tracked stockpile holds.
pub struct TrackedView {
    pub key: Seq<char>,
    pub json: Option<Seq<char>>,
    pub items: Seq<ItemModel>,
}

impl View for TrackedStockpile {
    type V = TrackedView;

    open spec fn view(&self) -> TrackedView {
        TrackedView { key: self.key@, json: opt_text(self.json), items: item_views(self.items@) }
    }
}

/// The views of a sequence of tracked stockpiles.
pub open spec fn tracked_views(s: Seq<TrackedStockpile>) -> Seq<TrackedView> {
    s.map_values(|t: TrackedStockpile| t@)
}

/// The index of the last stockpile of `prev` with the given key: the one a
/// map filled from `prev` in order keeps for that key.
pub open spec fn last_with_key(prev: Seq<TrackedView>, key: Seq<char>) -> Option<int>
    decreases prev.len(),
{
    if prev.len() == 0 {
        None
    } else if prev.last().key == key {
        Some(prev.len() - 1)
    } else {
        last_with_key(prev.drop_last(), key)
    }
}

/// Whether a stockpile counts as changed against the previous read: it is
/// new (no previous stockpile has its key), or it differs from the previous
/// stockpile with its key in what `mode` compares.
pub open spec fn is_changed(prev: Seq<TrackedView>, cur: TrackedView, mode: DiffMode) -> bool {
    match last_with_key(prev, cur.key) {
        None => true,
        Some(i) => match mode {
            DiffMode::Any => prev[i].json != cur.json,
            DiffMode::Items => prev[i].items != cur.items,
        },
    }
}

/// The last stockpile with a key is found, if any has it.
proof fn lemma_last_with_key(prev: Seq<TrackedView>, key: Seq<char>)
    ensures
        last_with_key(prev, key) is None <==> forall|j: int| 0 <= j < prev.len() ==> prev[j].key != key,
        last_with_key(prev, key) matches Some(i) ==> 0 <= i < prev.len() && prev[i].key == key && (
        forall|j: int| i < j < prev.len() ==> prev[j].key != key),
    decreases prev.len(),
{
    if prev.len() > 0 {
        lemma_last_with_key(prev.drop_last(), key);
        if prev.last().key != key {
            assert forall|j: int| 0 <= j < prev.len() - 1 implies prev[j].key == prev.drop_last()[j].key by {}
        }
    }
}

/// A stockpile whose key no previous stockpile has is always reported; and
/// when nothing changed between two reads (the same stockpiles, with distinct
/// keys), none is reported.
pub proof fn lemma_changes(prev: Seq<TrackedView>, cur: TrackedView, mode: DiffMode)
    ensures
        (forall|j: int| 0 <= j < prev.len() ==> prev[j].key != cur.key) ==> is_changed(
            prev,
            cur,
            mode,
        ),
        (forall|a: int, b: int| 0 <= a < b < prev.len() ==> prev[a].key != prev[b].key) ==> (
        forall|i: int| 0 <= i < prev.len() ==> !is_changed(prev, #[trigger] prev[i], mode)),
{
    lemma_last_with_key(prev, cur.key);
    if forall|a: int, b: int| 0 <= a < b < prev.len() ==> prev[a].key != prev[b].key {
        assert forall|i: int| 0 <= i < prev.len() implies !is_changed(prev, #[trigger] prev[i], mode) by {
            lemma_last_with_key(prev, prev[i].key);
            let k = last_with_key(prev, prev[i].key)->Some_0;
            if k != i {
                if k < i {
                    assert(prev[i].key != prev[i].key);
                } else {
                    assert(prev[i].key != prev[k].key);
                }
            }
        }
    }
}

/// How a stockpile is compared with the previous read: against the last
/// previous stockpile `prev[j]` with its key, it counts as changed with
/// `Items` exactly when the two item sequences (code, quantity and crated
/// flag of every item, in order) differ, and with `Any` exactly when the two
/// serialized forms differ; with no previous stockpile of its key it always
/// counts as changed.
pub proof fn lemma_change_rule(prev: Seq<TrackedView>, cur: TrackedView, j: int)
    requires
        0 <= j < prev.len(),
        prev[j].key == cur.key,
        forall|k: int| j < k < prev.len() ==> prev[k].key != cur.key,
    ensures
        is_changed(prev, cur, DiffMode::Items) <==> prev[j].items != cur.items,
        is_changed(prev, cur, DiffMode::Any) <==> prev[j].json != cur.json,
{
    lemma_last_with_key(prev, cur.key);
    let i = last_with_key(prev, cur.key)->Some_0;
    if i < j {
        assert(prev[j].key == cur.key);
    } else if i > j {
        assert(prev[i].key != cur.key);
    }
}

/// The index of the last stockpile of `previous` with the given key.
fn find_last_with_key(previous: &Vec<TrackedStockpile>, key: &String) -> (r: Option<usize>)
    ensures
        match r {
            Some(i) => last_with_key(tracked_views(previous@), key@) == Some(i as int),
            None => last_with_key(tracked_views(previous@), key@) is None,
        },
        r matches Some(i) ==> i < previous@.len(),
{
    let ghost prev = tracked_views(previous@);
    let mut i = previous.len();
    assert(prev.take(i as int) =~= prev);
    while i > 0
        invariant
            i <= previous.len(),
            prev == tracked_views(previous@),
            last_with_key(prev, key@) == last_with_key(prev.take(i as int), key@),
        decreases i,
    {
        let ghost t = prev.take(i as int);
        assert(t.drop_last() =~= prev.take(i - 1));
        assert(t.last() == previous@[i - 1]@);
        if str_eq(previous[i - 1].key.as_str(), key.as_str()) {
            return Some(i - 1);
        }
        i = i - 1;
    }
    None
}

/// Whether two item lists hold the same items in the same order.
pub fn items_equal(a: &Vec<StockpileItem>, b: &Vec<StockpileItem>) -> (r: bool)
    ensures
        r == (item_views(a@) == item_views(b@)),
{
    if a.len() != b.len() {
        proof {
            assert(item_views(a@).len() != item_views(b@).len());
        }
        return false;
    }
    let mut i: usize = 0;
    while i < a.len()
        invariant
            a.len() == b.len(),
            i <= a.len(),
            forall|j: int| 0 <= j < i ==> #[trigger] item_views(a@)[j] == item_views(b@)[j],
        decreases a.len() - i,
    {
        if !str_eq(a[i].code.as_str(), b[i].code.as_str()) || a[i].quantity != b[i].quantity
            || a[i].crated != b[i].crated {
            proof {
                assert(item_views(a@)[i as int] != item_views(b@)[i as int]);
            }
            return false;
        }
        i = i + 1;
    }
    assert(item_views(a@) =~= item_views(b@));
    true
}

/// Whether two optional texts are equal.
fn opt_string_equal(a: &Option<String>, b: &Option<String>) -> (r: bool)
    ensures
        r == (opt_text(*a) == opt_text(*b)),
{
    match (a, b) {
        (Some(x), Some(y)) => str_eq(x.as_str(), y.as_str()),
        (None, None) => true,
        _ => false,
    }
}

/// For each stockpile of the current read, whether it changed since the
/// previous read (the stockpiles that are new, or that differ from the last
/// previous stockpile with their key in what `mode` compares).
pub fn changed_stockpiles(
    previous: &Vec<TrackedStockpile>,
    current: &Vec<TrackedStockpile>,
    mode: DiffMode,
) -> (r: Vec<bool>)
    ensures
        r@.len() == current@.len(),
        forall|i: int|
            0 <= i < current@.len() ==> r@[i] == is_changed(
                tracked_views(previous@),
                current@[i]@,
                mode,
            ),
{
    let ghost prev = tracked_views(previous@);
    let mut flags: Vec<bool> = Vec::new();
    let mut i: usize = 0;
    while i < current.len()
        invariant
            i <= current.len(),
            prev == tracked_views(previous@),
            flags@.len() == i,
            forall|j: int| 0 <= j < i ==> flags@[j] == is_changed(prev, current@[j]@, mode),
        decreases current.len() - i,
    {
        let cur = &current[i];
        let changed = match find_last_with_key(previous, &cur.key) {
            None => true,
            Some(k) => {
                assert(prev[k as int] == previous@[k as int]@);
                match mode {
                    DiffMode::Any => !opt_string_equal(&previous[k].json, &cur.json),
                    DiffMode::Items => !items_equal(&previous[k].items, &cur.items),
                }
            },
        };
        flags.push(changed);
        i = i + 1;
    }
    flags
}

/// The positions in `cur` of the stockpiles that changed since `prev`, in order.
pub open spec fn changed_indices(prev: Seq<TrackedView>, cur: Seq<TrackedView>, mode: DiffMode) -> Seq<
    int,
>
    decreases cur.len(),
{
    if cur.len() == 0 {
        Seq::empty()
    } else {
        changed_indices(prev, cur.drop_last(), mode) + if is_changed(prev, cur.last(), mode) {
            seq![cur.len() - 1]
        } else {
            Seq::<int>::empty()
        }
    }
}

/// The changed positions are those, in increasing order, of the stockpiles
/// that changed.
proof fn lemma_changed_indices(prev: Seq<TrackedView>, cur: Seq<TrackedView>, mode: DiffMode)
    ensures
        forall|k: int|
            #[trigger] changed_indices(prev, cur, mode).contains(k) <==> (0 <= k < cur.len()
                && is_changed(prev, cur[k], mode)),
        forall|a: int, b: int|
            0 <= a < b < changed_indices(prev, cur, mode).len() ==> #[trigger] changed_indices(
                prev,
                cur,
                mode,
            )[a] < #[trigger] changed_indices(prev, cur, mode)[b],
        forall|a: int|
            0 <= a < changed_indices(prev, cur, mode).len() ==> 0 <= #[trigger] changed_indices(
                prev,
                cur,
                mode,
            )[a] < cur.len(),
    decreases cur.len(),
{
    if cur.len() > 0 {
        let front = cur.drop_last();
        lemma_changed_indices(prev, front, mode);
        let a = changed_indices(prev, front, mode);
        let last = cur.len() - 1;
        let tail = if is_changed(prev, cur.last(), mode) {
            seq![last]
        } else {
            Seq::<int>::empty()
        };
        let all = a + tail;
        assert(changed_indices(prev, cur, mode) == all);
        assert forall|k: int| #[trigger] all.contains(k) <==> (0 <= k < cur.len() && is_changed(
            prev,
            cur[k],
            mode,
        )) by {
            if all.contains(k) {
                let j = choose|j: int| 0 <= j < all.len() && all[j] == k;
                if j < a.len() {
                    assert(a.contains(k));
                    assert(front[k] == cur[k]);
                } else {
                    assert(tail[j - a.len()] == k);
                }
            }
            if 0 <= k < cur.len() && is_changed(prev, cur[k], mode) {
                if k < last {
                    assert(front[k] == cur[k]);
                    assert(a.contains(k));
                    let j = choose|j: int| 0 <= j < a.len() && a[j] == k;
                    assert(all[j] == k);
                } else {
                    assert(all[a.len() as int] == k);
                }
            }
        }
    }
}

/// The positions of a list of `n` stockpiles.
pub open spec fn all_indices(n: nat) -> Seq<int> {
    Seq::new(n, |i: int| i)
}

/// The positions as integers.
pub open spec fn positions(v: Seq<usize>) -> Seq<int> {
    v.map_values(|i: usize| i as int)
}

/// The watch command, when it diffs, prints exactly the stockpiles that
/// changed, in order: any whose key no previous stockpile had among them; and
/// a read that repeats the previous one (stockpiles with distinct keys)
/// prints none.
pub proof fn lemma_watch_report(prev: Seq<TrackedView>, cur: Seq<TrackedView>, mode: DiffMode)
    ensures
        forall|k: int|
            #[trigger] changed_indices(prev, cur, mode).contains(k) <==> (0 <= k < cur.len()
                && is_changed(prev, cur[k], mode)),
        forall|k: int|
            0 <= k < cur.len() && (forall|j: int| 0 <= j < prev.len() ==> prev[j].key != cur[k].key)
                ==> #[trigger] changed_indices(prev, cur, mode).contains(k),
        (forall|a: int, b: int| 0 <= a < b < prev.len() ==> prev[a].key != prev[b].key)
            ==> changed_indices(prev, prev, mode).len() == 0,
{
    lemma_changed_indices(prev, cur, mode);
    lemma_changed_indices(prev, prev, mode);
    assert forall|k: int|
        0 <= k < cur.len() && (forall|j: int| 0 <= j < prev.len() ==> prev[j].key != cur[k].key)
        implies #[trigger] changed_indices(prev, cur, mode).contains(k) by {
        lemma_changes(prev, cur[k], mode);
    }
    if forall|a: int, b: int| 0 <= a < b < prev.len() ==> prev[a].key != prev[b].key {
        let idx = changed_indices(prev, prev, mode);
        if idx.len() > 0 {
            lemma_changes(prev, prev[0], mode);
            let k = idx[0];
            assert(idx.contains(k));
            assert(!is_changed(prev, prev[k], mode));
        }
    }
}

/// Which stockpiles of a fresh read the watch command prints: all of them
/// when it does not diff (`mode` is `None`); else those that changed since
/// the previous read, or nothing (`None`) when none did.
pub fn watch_report(
    previous: &Vec<TrackedStockpile>,
    current: &Vec<TrackedStockpile>,
    mode: Option<DiffMode>,
) -> (r: Option<Vec<usize>>)
    ensures
        mode is None ==> (r matches Some(v) && positions(v@) == all_indices(current@.len())),
        mode matches Some(m) ==> {
            let idx = changed_indices(tracked_views(previous@), tracked_views(current@), m);
            &&& r is None <==> idx.len() == 0
            &&& r matches Some(v) ==> positions(v@) == idx
        },
{
    let mut picked: Vec<usize> = Vec::new();
    let ghost prev = tracked_views(previous@);
    let ghost cur = tracked_views(current@);
    match mode {
        None => {
            let mut i: usize = 0;
            while i < current.len()
                invariant
                    i <= current.len(),
                    positions(picked@) =~= all_indices(i as nat),
                decreases current.len() - i,
            {
                let ghost before = picked@;
                picked.push(i);
                assert(positions(picked@) =~= positions(before).push(i as int));
                i = i + 1;
            }
            Some(picked)
        },
        Some(m) => {
            let flags = changed_stockpiles(previous, current, m);
            let mut i: usize = 0;
            assert(cur.take(0) =~= Seq::<TrackedView>::empty());
            while i < current.len()
                invariant
                    i <= current.len(),
                    flags@.len() == current@.len(),
                    cur == tracked_views(current@),
                    prev == tracked_views(previous@),
                    forall|j: int| 0 <= j < current@.len() ==> flags@[j] == is_changed(prev, #[trigger] current@[j]@, m),
                    positions(picked@) =~= changed_indices(prev, cur.take(i as int), m),
                decreases current.len() - i,
            {
                proof {
                    assert(cur.take(i + 1).drop_last() =~= cur.take(i as int));
                    assert(cur.take(i + 1).last() == current@[i as int]@);
                }
                let ghost before = picked@;
                if flags[i] {
                    picked.push(i);
                    assert(positions(picked@) =~= positions(before).push(i as int));
                }
                i = i + 1;
            }
            assert(cur.take(current.len() as int) =~= cur);
            if picked.len() == 0 {
                None
            } else {
                Some(picked)
            }
        },
    }
}

/// Whether a watcher reports a freshly parsed save, given its serialized form
/// (if it could be serialized) and the form last seen: always, unless only
/// changes are reported; then only when the form differs from the last one,
/// which it replaces.
pub fn should_emit(emit_only_changes: bool, last: &mut Option<String>, current: Option<String>) -> (r:
    bool)
    ensures
        !emit_only_changes ==> r && opt_text(*final(last)) == opt_text(*old(last)),
        emit_only_changes ==> r == (opt_text(current) != opt_text(*old(last))) && opt_text(
            *final(last),
        ) == opt_text(current),
{
    if emit_only_changes {
        let changed = !opt_string_equal(&current, last);
        *last = current;
        changed
    } else {
        true
    }
}

} // verus!
