use std::collections::{BTreeMap, HashMap, HashSet};

use vstd::prelude::*;

use crate::counting::{
    lemma_filter_agreeing, lemma_filter_mapped_len, lemma_filter_none, lemma_filter_twice,
    lemma_injective_map_same_multiset, lemma_occurrences_add, lemma_occurrences_split,
    lemma_same_occurrences_same_multiset, occurrences,
};
use crate::ids::{ComicId, ItemId};

verus! {

/// An item's first and last appearance and its number of appearances.
#[derive(Copy, Clone, Debug, PartialEq, Eq, Structural)]
pub struct ItemFirstLastCount {
    pub id: u16,
    pub first: Option<u16>,
    pub last: Option<u16>,
    pub count: i64,
}

/// Where to go from a comic: the first, previous, next and last comic of
/// some kind.
#[derive(Copy, Clone, Debug, PartialEq, Eq, Default, Structural)]
pub struct NavigationData {
    pub first: Option<ComicId>,
    pub previous: Option<ComicId>,
    pub next: Option<ComicId>,
    pub last: Option<ComicId>,
}

/// An item with its navigation data, before its name, kind and color are
/// filled in.
#[derive(Copy, Clone, Debug, PartialEq, Eq, Structural)]
pub struct UnhydratedItemNavigationData {
    pub id: ItemId,
    pub navigation_data: NavigationData,
    pub count: i64,
}

/// The raw result of a navigation query.
#[derive(Copy, Clone, Debug, PartialEq, Eq, Structural)]
pub struct NavigationResult {
    pub first: Option<u16>,
    pub last: Option<u16>,
    pub previous: Option<u16>,
    pub next: Option<u16>,
}

/// How the list of all items is ordered.
#[derive(Clone, Copy, Debug, PartialEq, Eq, Structural)]
pub enum ItemNavigationDataSorting {
    ByCount,
    ByLastAppearance,
}

/// The previous appearance of each item before a comic, and the items in
/// the order of those appearances, most recent first.
#[derive(Clone, Debug)]
pub struct PreviousAppearances {
    pub appearances: BTreeMap<u16, u16>,
    pub order: Vec<ItemId>,
}

/// A raw comic number as an identifier.
pub open spec fn comic_opt(c: Option<u16>) -> Option<ComicId> {
    match c {
        Some(v) => Some(ComicId(v)),
        None => None,
    }
}

fn comic_opt_exec(c: Option<u16>) -> (r: Option<ComicId>)
    ensures
        r == comic_opt(c),
{
    match c {
        Some(v) => Some(ComicId(v)),
        None => None,
    }
}

/// The navigation data of a raw navigation result.
pub open spec fn navigation_of(nav: NavigationResult) -> NavigationData {
    NavigationData {
        first: comic_opt(nav.first),
        previous: comic_opt(nav.previous),
        next: comic_opt(nav.next),
        last: comic_opt(nav.last),
    }
}

/// Turns a raw navigation result into navigation data.
pub fn nav_result_to_navigation_data(nav: &NavigationResult) -> (r: NavigationData)
    ensures
        r == navigation_of(*nav),
{
    NavigationData {
        first: comic_opt_exec(nav.first),
        previous: comic_opt_exec(nav.previous),
        next: comic_opt_exec(nav.next),
        last: comic_opt_exec(nav.last),
    }
}

/// The comic stored under `id` in a map, if any.
pub open spec fn lookup(m: Map<u16, u16>, id: u16) -> Option<u16> {
    if m.contains_key(id) {
        Some(m[id])
    } else {
        None
    }
}

/// The navigation entry of one item: first and last from its counts,
/// previous and next from the two maps.
pub open spec fn unhydrated_of(
    flc: ItemFirstLastCount,
    previous: Map<u16, u16>,
    next: Map<u16, u16>,
) -> UnhydratedItemNavigationData {
    UnhydratedItemNavigationData {
        id: ItemId(flc.id),
        navigation_data: NavigationData {
            first: comic_opt(flc.first),
            previous: comic_opt(lookup(previous, flc.id)),
            next: comic_opt(lookup(next, flc.id)),
            last: comic_opt(flc.last),
        },
        count: flc.count,
    }
}

fn lookup_exec(m: &BTreeMap<u16, u16>, id: u16) -> (r: Option<u16>)
    ensures
        r == lookup(m@, id),
{
    broadcast use vstd::std_specs::btree::group_btree_axioms, vstd::laws_cmp::group_laws_cmp;

    match m.get(&id) {
        Some(v) => Some(*v),
        None => None,
    }
}

/// Whether a navigation entry reports the given counts row: the row's item
/// id and count, the row's first and last appearance as comics, and the
/// comics stored for the row's id in the previous and next maps (none when
/// absent).
pub open spec fn entry_reports_row(
    e: UnhydratedItemNavigationData,
    row: ItemFirstLastCount,
    previous: Map<u16, u16>,
    next: Map<u16, u16>,
) -> bool {
    &&& e.id == ItemId(row.id)
    &&& e.count == row.count
    &&& (match row.first {
        Some(c) => e.navigation_data.first == Some(ComicId(c)),
        None => e.navigation_data.first is None,
    })
    &&& (match row.last {
        Some(c) => e.navigation_data.last == Some(ComicId(c)),
        None => e.navigation_data.last is None,
    })
    &&& (if previous.contains_key(row.id) {
        e.navigation_data.previous == Some(ComicId(previous[row.id]))
    } else {
        e.navigation_data.previous is None
    })
    &&& (if next.contains_key(row.id) {
        e.navigation_data.next == Some(ComicId(next[row.id]))
    } else {
        e.navigation_data.next is None
    })
}

/// The navigation entries of the given items, in the given order.
pub fn item_navigation_entries(
    flcs: &[ItemFirstLastCount],
    previous: &BTreeMap<u16, u16>,
    next: &BTreeMap<u16, u16>,
) -> (r: Vec<UnhydratedItemNavigationData>)
    ensures
        r@ == flcs@.map_values(|f: ItemFirstLastCount| unhydrated_of(f, previous@, next@)),
        r@.len() == flcs@.len(),
        forall|i: int|
            0 <= i < flcs@.len() ==> entry_reports_row(#[trigger] r@[i], flcs@[i], previous@, next@),
{
    let mut r: Vec<UnhydratedItemNavigationData> = Vec::new();
    let n = flcs.len();
    let mut i: usize = 0;
    while i < n
        invariant
            n == flcs@.len(),
            i <= n,
            r@ == flcs@.take(i as int).map_values(
                |f: ItemFirstLastCount| unhydrated_of(f, previous@, next@),
            ),
        decreases n - i,
    {
        let flc = flcs[i];
        let entry = UnhydratedItemNavigationData {
            id: ItemId(flc.id),
            navigation_data: NavigationData {
                first: comic_opt_exec(flc.first),
                previous: comic_opt_exec(lookup_exec(previous, flc.id)),
                next: comic_opt_exec(lookup_exec(next, flc.id)),
                last: comic_opt_exec(flc.last),
            },
            count: flc.count,
        };
        r.push(entry);
        assert(flcs@.take(i as int + 1) =~= flcs@.take(i as int).push(flc));
        assert(r@ =~= flcs@.take(i as int + 1).map_values(
            |f: ItemFirstLastCount| unhydrated_of(f, previous@, next@),
        ));
        i = i + 1;
    }
    assert(flcs@.take(n as int) =~= flcs@);
    r
}

/// The counts of each item id, the later of two rows with the same id
/// winning.
pub open spec fn id_map(flcs: Seq<ItemFirstLastCount>) -> Map<u16, ItemFirstLastCount>
    decreases flcs.len(),
{
    if flcs.len() == 0 {
        Map::empty()
    } else {
        id_map(flcs.drop_last()).insert(flcs.last().id, flcs.last())
    }
}

/// Whether the item id occurs in the appearance order.
pub open spec fn in_order(order: Seq<ItemId>, id: u16) -> bool {
    exists|t: int| 0 <= t < order.len() && order[t].0 == id
}

/// The rows not named by the appearance order, in their original order.
pub open spec fn not_in_order(order: Seq<ItemId>) -> spec_fn(ItemFirstLastCount) -> bool {
    |f: ItemFirstLastCount| !in_order(order, f.id)
}

/// The items of `flcs` ordered by last appearance: first the items named by
/// `order`, in that order, then the remaining items in their original order;
/// each position holds the counts of its item id.
pub open spec fn ordered_by_last_appearance(
    flcs: Seq<ItemFirstLastCount>,
    order: Seq<ItemId>,
) -> Seq<ItemFirstLastCount> {
    order.map_values(|i: ItemId| id_map(flcs)[i.0]) + flcs.filter(not_in_order(order)).map_values(
        |f: ItemFirstLastCount| id_map(flcs)[f.id],
    )
}

/// Every row's id is a key of the id map.
pub proof fn lemma_id_map_contains(flcs: Seq<ItemFirstLastCount>, t: int)
    requires
        0 <= t < flcs.len(),
    ensures
        id_map(flcs).contains_key(flcs[t].id),
    decreases flcs.len(),
{
    if t < flcs.len() - 1 {
        lemma_id_map_contains(flcs.drop_last(), t);
    }
}

/// Orders `first_last_counts` by last appearance: items in
/// `last_appearance_order` come first (preserving that order), followed by
/// any remaining items not in `last_appearance_order`. Every id of the order
/// must be the id of one of the counts.
pub fn order_by_last_appearance(
    first_last_counts: &[ItemFirstLastCount],
    last_appearance_order: &[ItemId],
) -> (r: Vec<ItemFirstLastCount>)
    requires
        forall|t: int|
            0 <= t < last_appearance_order@.len() ==> id_map(first_last_counts@).contains_key(
                #[trigger] last_appearance_order@[t].0,
            ),
    ensures
        r@ == ordered_by_last_appearance(first_last_counts@, last_appearance_order@),
{
    broadcast use vstd::std_specs::hash::group_hash_axioms;

    let ghost flcs = first_last_counts@;
    let ghost order = last_appearance_order@;
    let mut flc_map: HashMap<u16, ItemFirstLastCount> = HashMap::new();
    let n = first_last_counts.len();
    let mut i: usize = 0;
    while i < n
        invariant
            n == flcs.len(),
            flcs == first_last_counts@,
            i <= n,
            flc_map@ == id_map(flcs.take(i as int)),
        decreases n - i,
    {
        let flc = first_last_counts[i];
        flc_map.insert(flc.id, flc);
        assert(flcs.take(i as int + 1).drop_last() =~= flcs.take(i as int));
        i = i + 1;
    }
    assert(flcs.take(n as int) =~= flcs);
    let mut seen: HashSet<u16> = HashSet::new();
    let m = last_appearance_order.len();
    let mut j: usize = 0;
    while j < m
        invariant
            m == order.len(),
            order == last_appearance_order@,
            j <= m,
            forall|id: u16| #[trigger] seen@.contains(id) <==> exists|t: int| 0 <= t < j && order[t].0 == id,
        decreases m - j,
    {
        let id = *last_appearance_order[j].as_inner();
        seen.insert(id);
        assert forall|x: u16| #[trigger] seen@.contains(x) <==> exists|t: int| 0 <= t < j + 1 && order[t].0 == x by {
            if x == id {
                assert(order[j as int].0 == x);
            }
        }
        j = j + 1;
    }
    let mut r: Vec<ItemFirstLastCount> = Vec::new();
    let mut k: usize = 0;
    while k < m
        invariant
            m == order.len(),
            order == last_appearance_order@,
            k <= m,
            flc_map@ == id_map(flcs),
            forall|t: int| 0 <= t < order.len() ==> id_map(flcs).contains_key(#[trigger] order[t].0),
            r@ == order.take(k as int).map_values(|i: ItemId| id_map(flcs)[i.0]),
        decreases m - k,
    {
        let id = *last_appearance_order[k].as_inner();
        assert(id_map(flcs).contains_key(order[k as int].0));
        let flc = *flc_map.get(&id).unwrap();
        r.push(flc);
        assert(order.take(k as int + 1) =~= order.take(k as int).push(order[k as int]));
        assert(r@ =~= order.take(k as int + 1).map_values(|i: ItemId| id_map(flcs)[i.0]));
        k = k + 1;
    }
    assert(order.take(m as int) =~= order);
    let ghost head = r@;
    let ghost pred = not_in_order(order);
    let mut q: usize = 0;
    while q < n
        invariant
            n == flcs.len(),
            flcs == first_last_counts@,
            q <= n,
            flc_map@ == id_map(flcs),
            pred == not_in_order(order),
            forall|id: u16| #[trigger] seen@.contains(id) <==> in_order(order, id),
            r@ == head + flcs.take(q as int).filter(pred).map_values(
                |f: ItemFirstLastCount| id_map(flcs)[f.id],
            ),
        decreases n - q,
    {
        let flc = first_last_counts[q];
        proof {
            crate::storylines::lemma_filter_take_step(flcs, pred, q as int);
        }
        if !seen.contains(&flc.id) {
            proof {
                lemma_id_map_contains(flcs, q as int);
            }
            let found = *flc_map.get(&flc.id).unwrap();
            r.push(found);
            assert(r@ =~= head + flcs.take(q as int + 1).filter(pred).map_values(
                |f: ItemFirstLastCount| id_map(flcs)[f.id],
            ));
        }
        q = q + 1;
    }
    assert(flcs.take(n as int) =~= flcs);
    r
}

/// Whether no two rows share an item id.
pub open spec fn distinct_item_ids(flcs: Seq<ItemFirstLastCount>) -> bool {
    forall|i: int, j: int| 0 <= i < j < flcs.len() ==> flcs[i].id != flcs[j].id
}

/// Whether no item is named twice by the appearance order.
pub open spec fn distinct_order(order: Seq<ItemId>) -> bool {
    forall|i: int, j: int| 0 <= i < j < order.len() ==> order[i].0 != order[j].0
}

/// The rows named by the appearance order.
pub open spec fn named_in_order(order: Seq<ItemId>) -> spec_fn(ItemFirstLastCount) -> bool {
    |f: ItemFirstLastCount| in_order(order, f.id)
}

/// A filter and its complement share out the elements.
proof fn lemma_filter_split_len<A>(s: Seq<A>, p: spec_fn(A) -> bool, q: spec_fn(A) -> bool)
    requires
        forall|x: A| #[trigger] q(x) == !p(x),
    ensures
        s.filter(p).len() + s.filter(q).len() == s.len(),
    decreases s.len(),
{
    reveal(Seq::filter);
    if s.len() > 0 {
        lemma_filter_split_len(s.drop_last(), p, q);
    }
}

/// Filtering keeps a sequence free of duplicates.
proof fn lemma_filter_no_duplicates<A>(s: Seq<A>, p: spec_fn(A) -> bool)
    requires
        s.no_duplicates(),
    ensures
        s.filter(p).no_duplicates(),
    decreases s.len(),
{
    broadcast use vstd::seq_lib::group_seq_properties;

    reveal(Seq::filter);
    if s.len() > 0 {
        let init = s.drop_last();
        assert(init.no_duplicates()) by {
            assert forall|i: int, j: int| 0 <= i < init.len() && 0 <= j < init.len() && i != j implies init[i]
                != init[j] by {
                assert(init[i] == s[i] && init[j] == s[j]);
            }
        }
        lemma_filter_no_duplicates(init, p);
        if p(s.last()) {
            let f = init.filter(p);
            assert(!f.contains(s.last())) by {
                if f.contains(s.last()) {
                    init.lemma_filter_contains_rev(p, s.last());
                    let k = choose|k: int| 0 <= k < init.len() && init[k] == s.last();
                    assert(s[k] == s[s.len() - 1]);
                }
            }
            assert forall|i: int, j: int|
                0 <= i < f.push(s.last()).len() && 0 <= j < f.push(s.last()).len() && i != j implies f.push(
                s.last(),
            )[i] != f.push(s.last())[j] by {
                if i < f.len() && j < f.len() {
                } else if i < f.len() {
                    assert(f.contains(f[i]));
                } else {
                    assert(f.contains(f[j]));
                }
            }
        }
    }
}

/// With distinct ids, the id map gives back each row under its own id; every
/// key of the map is the id of some row.
pub proof fn lemma_id_map_rows(flcs: Seq<ItemFirstLastCount>)
    ensures
        distinct_item_ids(flcs) ==> forall|t: int|
            0 <= t < flcs.len() ==> id_map(flcs)[#[trigger] flcs[t].id] == flcs[t],
        forall|k: u16|
            #[trigger] id_map(flcs).contains_key(k) ==> exists|t: int|
                0 <= t < flcs.len() && flcs[t].id == k,
    decreases flcs.len(),
{
    if flcs.len() > 0 {
        let init = flcs.drop_last();
        lemma_id_map_rows(init);
        if distinct_item_ids(flcs) {
            assert(distinct_item_ids(init)) by {
                assert forall|i: int, j: int| 0 <= i < j < init.len() implies init[i].id
                    != init[j].id by {
                    assert(init[i] == flcs[i] && init[j] == flcs[j]);
                }
            }
            assert forall|t: int| 0 <= t < flcs.len() implies id_map(
                flcs,
            )[#[trigger] flcs[t].id] == flcs[t] by {
                if t < flcs.len() - 1 {
                    assert(init[t] == flcs[t]);
                    assert(flcs[t].id != flcs[flcs.len() - 1].id);
                }
            }
        }
        assert forall|k: u16| #[trigger] id_map(flcs).contains_key(k) implies exists|t: int|
            0 <= t < flcs.len() && flcs[t].id == k by {
            if id_map(init).contains_key(k) {
                let t = choose|t: int| 0 <= t < init.len() && init[t].id == k;
                assert(flcs[t] == init[t]);
            } else {
                assert(flcs[flcs.len() - 1] == flcs.last());
            }
        }
    }
}

/// Ordering by last appearance is a permutation when item ids are distinct
/// and the appearance order names distinct items among them: every item is
/// listed exactly once, and nothing else is listed.
pub proof fn lemma_order_by_last_appearance_permutes(
    flcs: Seq<ItemFirstLastCount>,
    order: Seq<ItemId>,
)
    requires
        distinct_item_ids(flcs),
        distinct_order(order),
        forall|t: int| 0 <= t < order.len() ==> id_map(flcs).contains_key(#[trigger] order[t].0),
    ensures
        ordered_by_last_appearance(flcs, order).len() == flcs.len(),
        ordered_by_last_appearance(flcs, order).no_duplicates(),
        forall|t: int|
            0 <= t < flcs.len() ==> ordered_by_last_appearance(flcs, order).contains(
                #[trigger] flcs[t],
            ),
        forall|x: ItemFirstLastCount|
            ordered_by_last_appearance(flcs, order).contains(x) ==> #[trigger] flcs.contains(x),
{
    broadcast use vstd::seq_lib::group_seq_properties;

    lemma_id_map_rows(flcs);
    let m = id_map(flcs);
    let p = not_in_order(order);
    let q = named_in_order(order);
    let head = order.map_values(|i: ItemId| m[i.0]);
    let kept = flcs.filter(p);
    let tail = kept.map_values(|f: ItemFirstLastCount| m[f.id]);
    let all = ordered_by_last_appearance(flcs, order);
    assert(all == head + tail);
    // Rows are distinct, so are the kept ones.
    assert(flcs.no_duplicates()) by {
        assert forall|i: int, j: int| 0 <= i < flcs.len() && 0 <= j < flcs.len() && i != j implies flcs[i]
            != flcs[j] by {
            if i < j {
                assert(flcs[i].id != flcs[j].id);
            } else {
                assert(flcs[j].id != flcs[i].id);
            }
        }
    }
    lemma_filter_no_duplicates(flcs, p);
    // Each head entry is the row of its id.
    assert forall|i: int| 0 <= i < head.len() implies flcs.contains(#[trigger] head[i])
        && head[i].id == order[i].0 by {
        let t = choose|t: int| 0 <= t < flcs.len() && flcs[t].id == order[i].0;
        assert(m[flcs[t].id] == flcs[t]);
    }
    // Each kept row maps to itself.
    assert forall|i: int| 0 <= i < kept.len() implies #[trigger] tail[i] == kept[i] && p(kept[i])
        && flcs.contains(kept[i]) by {
        flcs.lemma_filter_pred(p, i);
        assert(kept.contains(kept[i]));
        flcs.lemma_filter_contains_rev(p, kept[i]);
        let t = choose|t: int| 0 <= t < flcs.len() && flcs[t] == kept[i];
        assert(m[flcs[t].id] == flcs[t]);
    }
    assert(tail =~= kept);
    // No duplicates: the head's ids are distinct, the tail's rows are
    // distinct, and no row is in both.
    assert(head.no_duplicates()) by {
        assert forall|i: int, j: int| 0 <= i < head.len() && 0 <= j < head.len() && i != j implies head[i]
            != head[j] by {
            if i < j {
                assert(order[i].0 != order[j].0);
            } else {
                assert(order[j].0 != order[i].0);
            }
        }
    }
    assert forall|x: ItemFirstLastCount| head.contains(x) implies !tail.contains(x) by {
        let i = choose|i: int| 0 <= i < head.len() && head[i] == x;
        if tail.contains(x) {
            let k = choose|k: int| 0 <= k < tail.len() && tail[k] == x;
            assert(p(kept[k]));
            assert(in_order(order, x.id));
        }
    }
    vstd::seq_lib::lemma_no_dup_in_concat(head, tail);
    // Every row is listed.
    assert forall|t: int| 0 <= t < flcs.len() implies all.contains(#[trigger] flcs[t]) by {
        if in_order(order, flcs[t].id) {
            let i = choose|i: int| 0 <= i < order.len() && order[i].0 == flcs[t].id;
            assert(head[i] == m[flcs[t].id]);
            assert(all[i] == head[i]);
        } else {
            flcs.lemma_filter_contains(p, t);
            let k = choose|k: int| 0 <= k < kept.len() && kept[k] == flcs[t];
            assert(all[head.len() + k] == tail[k]);
        }
    }
    assert forall|x: ItemFirstLastCount| all.contains(x) implies #[trigger] flcs.contains(x) by {
        let i = choose|i: int| 0 <= i < all.len() && all[i] == x;
        if i < head.len() {
            assert(head[i] == x);
        } else {
            assert(tail[i - head.len()] == x);
        }
    }
    // Counting: the rows named by the order are exactly as many as the order.
    assert forall|x: ItemFirstLastCount| #[trigger] p(x) == !q(x) by {}
    lemma_filter_split_len(flcs, q, p);
    let named = flcs.filter(q);
    lemma_filter_no_duplicates(flcs, q);
    let named_ids = named.map_values(|f: ItemFirstLastCount| f.id);
    let order_ids = order.map_values(|i: ItemId| i.0);
    assert(named_ids.no_duplicates()) by {
        assert forall|i: int, j: int|
            0 <= i < named_ids.len() && 0 <= j < named_ids.len() && i != j implies named_ids[i]
            != named_ids[j] by {
            assert(named.contains(named[i]) && named.contains(named[j]));
            flcs.lemma_filter_contains_rev(q, named[i]);
            flcs.lemma_filter_contains_rev(q, named[j]);
            let a = choose|a: int| 0 <= a < flcs.len() && flcs[a] == named[i];
            let b = choose|b: int| 0 <= b < flcs.len() && flcs[b] == named[j];
            if a < b {
                assert(flcs[a].id != flcs[b].id);
            } else if b < a {
                assert(flcs[b].id != flcs[a].id);
            }
        }
    }
    assert(order_ids.no_duplicates()) by {
        assert forall|i: int, j: int|
            0 <= i < order_ids.len() && 0 <= j < order_ids.len() && i != j implies order_ids[i]
            != order_ids[j] by {
            if i < j {
                assert(order[i].0 != order[j].0);
            } else {
                assert(order[j].0 != order[i].0);
            }
        }
    }
    assert(named_ids.to_set() =~= order_ids.to_set()) by {
        assert forall|k: u16| named_ids.to_set().contains(k) implies order_ids.to_set().contains(k) by {
            let i = choose|i: int| 0 <= i < named_ids.len() && named_ids[i] == k;
            flcs.lemma_filter_pred(q, i);
            let t = choose|t: int| 0 <= t < order.len() && order[t].0 == named[i].id;
            assert(order_ids[t] == k);
        }
        assert forall|k: u16| order_ids.to_set().contains(k) implies named_ids.to_set().contains(k) by {
            let i = choose|i: int| 0 <= i < order_ids.len() && order_ids[i] == k;
            let t = choose|t: int| 0 <= t < flcs.len() && flcs[t].id == order[i].0;
            assert(q(flcs[t]));
            flcs.lemma_filter_contains(q, t);
            let j = choose|j: int| 0 <= j < named.len() && named[j] == flcs[t];
            assert(named_ids[j] == k);
        }
    }
    named_ids.unique_seq_to_set();
    order_ids.unique_seq_to_set();
}

/// The navigation entries of all items, in count order (the order of the
/// rows) or by last appearance.
pub open spec fn all_item_navigation_spec(
    flcs: Seq<ItemFirstLastCount>,
    previous: PreviousAppearances,
    next: Map<u16, u16>,
    sorting: ItemNavigationDataSorting,
) -> Seq<UnhydratedItemNavigationData> {
    let rows = match sorting {
        ItemNavigationDataSorting::ByCount => flcs,
        ItemNavigationDataSorting::ByLastAppearance => ordered_by_last_appearance(
            flcs,
            previous.order@,
        ),
    };
    rows.map_values(|f: ItemFirstLastCount| unhydrated_of(f, previous.appearances@, next))
}

/// Every value of the id map is one of the rows.
proof fn lemma_id_map_value_is_row(flcs: Seq<ItemFirstLastCount>, id: u16)
    requires
        id_map(flcs).contains_key(id),
    ensures
        exists|j: int| 0 <= j < flcs.len() && flcs[j] == id_map(flcs)[id],
    decreases flcs.len(),
{
    if flcs.last().id == id {
        assert(flcs[flcs.len() - 1] == id_map(flcs)[id]);
    } else {
        lemma_id_map_value_is_row(flcs.drop_last(), id);
        let j = choose|j: int|
            0 <= j < flcs.drop_last().len() && flcs.drop_last()[j] == id_map(flcs.drop_last())[id];
        assert(flcs[j] == id_map(flcs)[id]);
    }
}

/// Law: sorted by count, the navigation data lists one entry per counts row,
/// in the rows' order, and each entry reports its row: the item's id and
/// count, its first and last appearance, and the previous and next comics
/// stored for it.
pub proof fn lemma_entries_by_count_report_their_rows(
    flcs: Seq<ItemFirstLastCount>,
    previous: PreviousAppearances,
    next: Map<u16, u16>,
)
    ensures
        all_item_navigation_spec(flcs, previous, next, ItemNavigationDataSorting::ByCount).len()
            == flcs.len(),
        forall|i: int|
            0 <= i < flcs.len() ==> entry_reports_row(
                #[trigger] all_item_navigation_spec(
                    flcs,
                    previous,
                    next,
                    ItemNavigationDataSorting::ByCount,
                )[i],
                flcs[i],
                previous.appearances@,
                next,
            ),
{
}

/// The navigation data sorted by last appearance.
pub open spec fn by_last_appearance(
    flcs: Seq<ItemFirstLastCount>,
    previous: PreviousAppearances,
    next: Map<u16, u16>,
) -> Seq<UnhydratedItemNavigationData> {
    all_item_navigation_spec(flcs, previous, next, ItemNavigationDataSorting::ByLastAppearance)
}

/// Whether a navigation entry reports one of the rows.
pub open spec fn reports_some_row(
    e: UnhydratedItemNavigationData,
    flcs: Seq<ItemFirstLastCount>,
    previous: Map<u16, u16>,
    next: Map<u16, u16>,
) -> bool {
    exists|j: int| 0 <= j < flcs.len() && #[trigger] entry_reports_row(e, flcs[j], previous, next)
}

/// Law: sorted by last appearance, the navigation data lists first the
/// items of the appearance order, in that order, then only items the order
/// does not name; every entry reports one of the counts rows (its id, count,
/// first and last appearance, previous and next comic). This holds when
/// every item of the appearance order has a row.
pub proof fn lemma_entries_by_last_appearance_report_rows(
    flcs: Seq<ItemFirstLastCount>,
    previous: PreviousAppearances,
    next: Map<u16, u16>,
)
    requires
        forall|t: int|
            0 <= t < previous.order@.len() ==> id_map(flcs).contains_key(
                #[trigger] previous.order@[t].0,
            ),
    ensures
        forall|i: int|
            0 <= i < by_last_appearance(flcs, previous, next).len() ==> reports_some_row(
                #[trigger] by_last_appearance(flcs, previous, next)[i],
                flcs,
                previous.appearances@,
                next,
            ),
        previous.order@.len() <= by_last_appearance(flcs, previous, next).len(),
        forall|i: int|
            0 <= i < previous.order@.len() ==> (#[trigger] by_last_appearance(
                flcs,
                previous,
                next,
            )[i]).id == previous.order@[i],
        forall|i: int|
            previous.order@.len() <= i < by_last_appearance(flcs, previous, next).len()
                ==> !in_order(
                previous.order@,
                (#[trigger] by_last_appearance(flcs, previous, next)[i]).id.0,
            ),
{
    let order = previous.order@;
    let m = id_map(flcs);
    let rest = flcs.filter(not_in_order(order));
    let o = ordered_by_last_appearance(flcs, order);
    let entries = all_item_navigation_spec(
        flcs,
        previous,
        next,
        ItemNavigationDataSorting::ByLastAppearance,
    );
    assert forall|i: int| 0 <= i < entries.len() implies reports_some_row(
        #[trigger] entries[i],
        flcs,
        previous.appearances@,
        next,
    ) by {
        assert(entries[i] == unhydrated_of(o[i], previous.appearances@, next));
        if i < order.len() {
            assert(o[i] == m[order[i].0]);
            lemma_id_map_key(flcs, order[i].0);
            lemma_id_map_value_is_row(flcs, order[i].0);
            let j = choose|j: int| 0 <= j < flcs.len() && flcs[j] == m[order[i].0];
            assert(entry_reports_row(entries[i], flcs[j], previous.appearances@, next));
        } else {
            let k = i - order.len();
            assert(o[i] == m[rest[k].id]);
            assert(rest.contains(rest[k]));
            flcs.lemma_filter_contains_rev(not_in_order(order), rest[k]);
            let t = choose|t: int| 0 <= t < flcs.len() && flcs[t] == rest[k];
            lemma_id_map_contains(flcs, t);
            lemma_id_map_key(flcs, rest[k].id);
            lemma_id_map_value_is_row(flcs, rest[k].id);
            let j = choose|j: int| 0 <= j < flcs.len() && flcs[j] == m[rest[k].id];
            assert(entry_reports_row(entries[i], flcs[j], previous.appearances@, next));
        }
    }
    assert forall|i: int| 0 <= i < order.len() implies (#[trigger] entries[i]).id == order[i] by {
        assert(o[i] == m[order[i].0]);
        lemma_id_map_key(flcs, order[i].0);
    }
    assert forall|i: int| order.len() <= i < entries.len() implies !in_order(
        order,
        (#[trigger] entries[i]).id.0,
    ) by {
        let k = i - order.len();
        assert(o[i] == m[rest[k].id]);
        assert(rest.contains(rest[k]));
        flcs.lemma_filter_pred(not_in_order(order), k);
        flcs.lemma_filter_contains_rev(not_in_order(order), rest[k]);
        let t = choose|t: int| 0 <= t < flcs.len() && flcs[t] == rest[k];
        lemma_id_map_contains(flcs, t);
        lemma_id_map_key(flcs, rest[k].id);
    }
}

/// Whether rows that share an item id are the same row.
pub open spec fn same_id_rows_agree(flcs: Seq<ItemFirstLastCount>) -> bool {
    forall|i: int, j: int|
        0 <= i < flcs.len() && 0 <= j < flcs.len() && #[trigger] flcs[i].id == #[trigger] flcs[j].id
            ==> flcs[i] == flcs[j]
}

/// How many rows carry the item id.
pub open spec fn rows_with_id(flcs: Seq<ItemFirstLastCount>, id: u16) -> nat {
    flcs.filter(|f: ItemFirstLastCount| f.id == id).len()
}

/// How many times the appearance order names the item id.
pub open spec fn times_named(order: Seq<ItemId>, id: u16) -> nat {
    order.filter(|i: ItemId| i.0 == id).len()
}

/// Whether every item that the appearance order names is named as many
/// times as rows carry its id.
pub open spec fn named_as_often_as_listed(
    flcs: Seq<ItemFirstLastCount>,
    order: Seq<ItemId>,
) -> bool {
    forall|id: u16| in_order(order, id) ==> #[trigger] times_named(order, id) == rows_with_id(flcs, id)
}

/// The id map holds each id under its own key.
proof fn lemma_id_map_key(flcs: Seq<ItemFirstLastCount>, id: u16)
    requires
        id_map(flcs).contains_key(id),
    ensures
        id_map(flcs)[id].id == id,
    decreases flcs.len(),
{
    if flcs.len() > 0 && flcs.last().id != id {
        lemma_id_map_key(flcs.drop_last(), id);
    }
}

/// When rows with the same id agree, the id map gives back every row.
proof fn lemma_id_map_row(flcs: Seq<ItemFirstLastCount>, t: int)
    requires
        same_id_rows_agree(flcs),
        0 <= t < flcs.len(),
    ensures
        id_map(flcs)[flcs[t].id] == flcs[t],
    decreases flcs.len(),
{
    let last = flcs.len() - 1;
    if flcs[t].id == flcs[last].id {
        assert(flcs[t] == flcs[last]);
    } else {
        let prefix = flcs.drop_last();
        assert(same_id_rows_agree(prefix)) by {
            assert forall|i: int, j: int|
                0 <= i < prefix.len() && 0 <= j < prefix.len() && #[trigger] prefix[i].id
                    == #[trigger] prefix[j].id implies prefix[i] == prefix[j] by {
                assert(flcs[i].id == flcs[j].id);
            }
        }
        lemma_id_map_row(prefix, t);
        assert(prefix[t] == flcs[t]);
    }
}

/// Ordering by last appearance lists the same rows as often as the input
/// does, when rows with the same id agree and the order names each of its
/// items as often as rows carry it.
proof fn lemma_ordering_keeps_rows(flcs: Seq<ItemFirstLastCount>, order: Seq<ItemId>)
    requires
        same_id_rows_agree(flcs),
        named_as_often_as_listed(flcs, order),
        forall|t: int| 0 <= t < order.len() ==> id_map(flcs).contains_key(#[trigger] order[t].0),
    ensures
        flcs.to_multiset() == ordered_by_last_appearance(flcs, order).to_multiset(),
{
    let m = id_map(flcs);
    let io = named_in_order(order);
    let nio = not_in_order(order);
    let rest = flcs.filter(nio);
    let a1 = order.map_values(|i: ItemId| m[i.0]);
    let o = ordered_by_last_appearance(flcs, order);
    assert(rest.map_values(|f: ItemFirstLastCount| m[f.id]) =~= rest) by {
        assert forall|k: int| 0 <= k < rest.len() implies m[#[trigger] rest[k].id] == rest[k] by {
            assert(rest.contains(rest[k]));
            flcs.lemma_filter_contains_rev(nio, rest[k]);
            assert(flcs.contains(rest[k]));
            let t = choose|t: int| 0 <= t < flcs.len() && flcs[t] == rest[k];
            lemma_id_map_row(flcs, t);
        }
    }
    assert(o =~= a1 + rest);
    lemma_filter_agreeing(flcs, |x: ItemFirstLastCount| !io(x), nio);
    assert forall|v: ItemFirstLastCount| #[trigger]
        occurrences(flcs, v) == occurrences(o, v) by {
        let eqv = |y: ItemFirstLastCount| y == v;
        lemma_occurrences_add(a1, rest, v);
        lemma_occurrences_split(flcs, io, v);
        let picks_v = |i: ItemId| eqv(m[i.0]);
        lemma_filter_mapped_len(order, |i: ItemId| m[i.0], eqv, picks_v);
        lemma_filter_twice(flcs, io, eqv);
        let named = m.contains_key(v.id) && m[v.id] == v && in_order(order, v.id);
        if named {
            assert forall|t: int| 0 <= t < order.len() implies eqv(m[#[trigger] order[t].0]) == (
            order[t].0 == v.id) by {
                lemma_id_map_key(flcs, order[t].0);
            }
            lemma_filter_agreeing(order, picks_v, |i: ItemId| i.0 == v.id);
            assert forall|t: int| 0 <= t < flcs.len() implies (io(#[trigger] flcs[t]) && eqv(
                flcs[t],
            )) == (flcs[t].id == v.id) by {
                lemma_id_map_row(flcs, t);
            }
            lemma_filter_agreeing(
                flcs,
                |x: ItemFirstLastCount| io(x) && eqv(x),
                |f: ItemFirstLastCount| f.id == v.id,
            );
            assert(times_named(order, v.id) == rows_with_id(flcs, v.id));
        } else {
            assert forall|t: int| 0 <= t < order.len() implies !eqv(m[#[trigger] order[t].0]) by {
                lemma_id_map_key(flcs, order[t].0);
                if eqv(m[order[t].0]) {
                    assert(in_order(order, v.id));
                }
            }
            lemma_filter_none(order, picks_v);
            assert forall|t: int| 0 <= t < flcs.len() implies !(io(#[trigger] flcs[t]) && eqv(
                flcs[t],
            )) by {
                lemma_id_map_contains(flcs, t);
                lemma_id_map_row(flcs, t);
            }
            lemma_filter_none(flcs, |x: ItemFirstLastCount| io(x) && eqv(x));
        }
    }
    lemma_same_occurrences_same_multiset(flcs, o);
}

/// Law: the two sortings list the same entries, each as often: the entries
/// by last appearance are a reordering of the entries by count. This holds
/// when rows that share an item id are the same row and the appearance order
/// names each of its items as often as rows carry it (so when ids are
/// distinct and the order names distinct items).
pub proof fn lemma_sortings_list_the_same_entries(
    flcs: Seq<ItemFirstLastCount>,
    previous: PreviousAppearances,
    next: Map<u16, u16>,
)
    requires
        same_id_rows_agree(flcs),
        named_as_often_as_listed(flcs, previous.order@),
        forall|t: int|
            0 <= t < previous.order@.len() ==> id_map(flcs).contains_key(
                #[trigger] previous.order@[t].0,
            ),
    ensures
        all_item_navigation_spec(flcs, previous, next, ItemNavigationDataSorting::ByCount).to_multiset()
            == all_item_navigation_spec(
            flcs,
            previous,
            next,
            ItemNavigationDataSorting::ByLastAppearance,
        ).to_multiset(),
{
    let order = previous.order@;
    lemma_ordering_keeps_rows(flcs, order);
    let o = ordered_by_last_appearance(flcs, order);
    let h = |f: ItemFirstLastCount| unhydrated_of(f, previous.appearances@, next);
    assert forall|x: ItemFirstLastCount, y: ItemFirstLastCount| #[trigger] h(x) == #[trigger] h(y)
        implies x == y by {
        assert(h(x).navigation_data.first == h(y).navigation_data.first);
        assert(h(x).navigation_data.last == h(y).navigation_data.last);
        assert(x.first == y.first);
        assert(x.last == y.last);
    }
    lemma_injective_map_same_multiset(flcs, o, h);
    assert(all_item_navigation_spec(flcs, previous, next, ItemNavigationDataSorting::ByCount)
        =~= flcs.map_values(h));
    assert(all_item_navigation_spec(flcs, previous, next, ItemNavigationDataSorting::ByLastAppearance)
        =~= o.map_values(h));
}

/// Builds the navigation entries of all items from the per-item counts and
/// the previous/next appearance maps, sorted as asked. When sorting by last
/// appearance, every item of the appearance order must have counts.
pub fn all_item_navigation_data(
    first_last_counts: &[ItemFirstLastCount],
    previous: &PreviousAppearances,
    next: &BTreeMap<u16, u16>,
    sorting: ItemNavigationDataSorting,
) -> (r: Vec<UnhydratedItemNavigationData>)
    requires
        sorting == ItemNavigationDataSorting::ByLastAppearance ==> forall|t: int|
            0 <= t < previous.order@.len() ==> id_map(first_last_counts@).contains_key(
                #[trigger] previous.order@[t].0,
            ),
    ensures
        r@ == all_item_navigation_spec(first_last_counts@, *previous, next@, sorting),
{
    match sorting {
        ItemNavigationDataSorting::ByCount => item_navigation_entries(
            first_last_counts,
            &previous.appearances,
            next,
        ),
        ItemNavigationDataSorting::ByLastAppearance => {
            let ordered = order_by_last_appearance(first_last_counts, previous.order.as_slice());
            item_navigation_entries(ordered.as_slice(), &previous.appearances, next)
        },
    }
}

/// Whether an id is among the given ones.
pub open spec fn id_in(ids: Seq<u16>, id: u16) -> bool {
    exists|t: int| 0 <= t < ids.len() && ids[t] == id
}

fn contains_u16(ids: &[u16], id: u16) -> (r: bool)
    ensures
        r == id_in(ids@, id),
{
    let n = ids.len();
    let mut i: usize = 0;
    while i < n
        invariant
            n == ids@.len(),
            i <= n,
            forall|t: int| 0 <= t < i ==> ids@[t] != id,
        decreases n - i,
    {
        if ids[i] == id {
            return true;
        }
        i = i + 1;
    }
    false
}

/// The entries whose item occurs in the comic.
pub open spec fn entry_in_comic(ids: Seq<u16>) -> spec_fn(UnhydratedItemNavigationData) -> bool {
    |e: UnhydratedItemNavigationData| id_in(ids, e.id.0)
}

/// The entries whose item does not occur in the comic.
pub open spec fn entry_not_in_comic(ids: Seq<u16>) -> spec_fn(UnhydratedItemNavigationData) -> bool {
    |e: UnhydratedItemNavigationData| !id_in(ids, e.id.0)
}

/// Splits the entries of all items into those of the items in the comic and
/// the others, both in their original order.
pub fn split_items_in_comic(
    all: &[UnhydratedItemNavigationData],
    item_ids_in_comic: &[u16],
) -> (r: (Vec<UnhydratedItemNavigationData>, Vec<UnhydratedItemNavigationData>))
    ensures
        r.0@ == all@.filter(entry_in_comic(item_ids_in_comic@)),
        r.1@ == all@.filter(entry_not_in_comic(item_ids_in_comic@)),
{
    let ghost pin = entry_in_comic(item_ids_in_comic@);
    let ghost pout = entry_not_in_comic(item_ids_in_comic@);
    let mut inside: Vec<UnhydratedItemNavigationData> = Vec::new();
    let mut outside: Vec<UnhydratedItemNavigationData> = Vec::new();
    let n = all.len();
    let mut i: usize = 0;
    while i < n
        invariant
            n == all@.len(),
            i <= n,
            pin == entry_in_comic(item_ids_in_comic@),
            pout == entry_not_in_comic(item_ids_in_comic@),
            inside@ == all@.take(i as int).filter(pin),
            outside@ == all@.take(i as int).filter(pout),
        decreases n - i,
    {
        let e = all[i];
        proof {
            crate::storylines::lemma_filter_take_step(all@, pin, i as int);
            crate::storylines::lemma_filter_take_step(all@, pout, i as int);
        }
        if contains_u16(item_ids_in_comic, e.id.0) {
            inside.push(e);
        } else {
            outside.push(e);
        }
        i = i + 1;
    }
    assert(all@.take(n as int) =~= all@);
    (inside, outside)
}

/// The first, previous, next and last comic missing each kind of data.
#[derive(Copy, Clone, Debug, PartialEq, Eq, Structural)]
pub struct MissingNavigationData {
    pub cast: NavigationData,
    pub location: NavigationData,
    pub storyline: NavigationData,
    pub title: NavigationData,
    pub tagline: NavigationData,
}

/// Editor data shown to readers without a valid token.
#[derive(Copy, Clone, Debug, Default, PartialEq, Eq, Structural)]
pub struct MissingEditorData {}

/// Editor data shown to editors.
#[derive(Copy, Clone, Debug, PartialEq, Eq, Structural)]
pub struct PresentEditorData {
    pub missing: MissingNavigationData,
}

/// The editor data of a comic: present for editors, missing otherwise.
#[derive(Copy, Clone, Debug, PartialEq, Eq, Structural)]
pub enum EditorData {
    Missing(MissingEditorData),
    Present(PresentEditorData),
}

/// The editor data built from the five missing-data navigation queries.
pub fn editor_data_from_results(
    cast: &NavigationResult,
    location: &NavigationResult,
    storyline: &NavigationResult,
    title: &NavigationResult,
    tagline: &NavigationResult,
) -> (r: EditorData)
    ensures
        r == EditorData::Present(
            PresentEditorData {
                missing: MissingNavigationData {
                    cast: navigation_of(*cast),
                    location: navigation_of(*location),
                    storyline: navigation_of(*storyline),
                    title: navigation_of(*title),
                    tagline: navigation_of(*tagline),
                },
            },
        ),
{
    EditorData::Present(
        PresentEditorData {
            missing: MissingNavigationData {
                cast: nav_result_to_navigation_data(cast),
                location: nav_result_to_navigation_data(location),
                storyline: nav_result_to_navigation_data(storyline),
                title: nav_result_to_navigation_data(title),
                tagline: nav_result_to_navigation_data(tagline),
            },
        },
    )
}

} // verus!
