use std::collections::BTreeMap;

use vstd::prelude::*;

use crate::color::ItemColor;
use crate::ids::{ComicId, ItemId};
use crate::item_type::{is_item_type_name, item_type_name, ItemType};
use crate::navigation::{comic_opt, NavigationData, UnhydratedItemNavigationData};

verus! {

/// An item as stored in the database.
#[derive(Debug, PartialEq, Eq)]
pub struct Item {
    pub id: u16,
    pub short_name: String,
    pub name: String,
    pub item_type: String,
    pub color_blue: u8,
    pub color_green: u8,
    pub color_red: u8,
    pub primary_image: Option<u32>,
    pub start_comic_id: Option<u16>,
    pub end_comic_id: Option<u16>,
}

/// An item together with its appearance statistics.
#[derive(Debug, PartialEq, Eq)]
pub struct ItemWithStats {
    pub id: u16,
    pub short_name: String,
    pub name: String,
    pub item_type: String,
    pub color_blue: u8,
    pub color_green: u8,
    pub color_red: u8,
    pub primary_image: Option<u32>,
    pub start_comic_id: Option<u16>,
    pub end_comic_id: Option<u16>,
    pub first: Option<u16>,
    pub last: Option<u16>,
    pub count: i64,
    pub total_comics: i64,
    pub image_count: i64,
    pub first_image_id: Option<u32>,
}

/// The details of an item as answered to a client. The share of comics the
/// item appears in (its presence) is `appearances * 100 / total_comics`, or
/// zero when there are no comics.
#[derive(Debug, PartialEq, Eq)]
pub struct ItemDetails {
    pub id: ItemId,
    pub short_name: String,
    pub name: String,
    pub item_type: ItemType,
    pub color: ItemColor,
    pub first: ComicId,
    pub last: ComicId,
    pub appearances: i32,
    pub total_comics: i32,
    pub has_image: bool,
    pub primary_image: Option<u32>,
    pub start_comic_id: Option<ComicId>,
    pub end_comic_id: Option<ComicId>,
}

/// A stored item kind that is not one of the known names.
#[derive(Debug, PartialEq, Eq)]
pub struct InvalidItemType {
    pub text: String,
}

/// Reads a stored item kind, reporting the text when it names no kind.
pub fn parse_item_type(text: &str) -> (r: Result<ItemType, InvalidItemType>)
    ensures
        match r {
            Ok(t) => item_type_name(t) == text@,
            Err(e) => e.text@ == text@ && !is_item_type_name(text@),
        },
{
    match ItemType::try_from_str(text) {
        Ok(t) => Ok(t),
        Err(e) => Err(InvalidItemType { text: String::from_str(e) }),
    }
}

/// The comic number, or comic 0 when there is none.
pub open spec fn comic_or_default(c: Option<u16>) -> ComicId {
    match c {
        Some(v) => ComicId(v),
        None => ComicId(0),
    }
}

fn comic_or_default_exec(c: Option<u16>) -> (r: ComicId)
    ensures
        r == comic_or_default(c),
{
    match c {
        Some(v) => ComicId(v),
        None => ComicId(0),
    }
}

fn comic_opt_exec(c: Option<u16>) -> (r: Option<ComicId>)
    ensures
        r == comic_opt(c),
{
    match c {
        Some(v) => Some(ComicId(v)),
        None => None,
    }
}

/// The primary image of an item: the explicitly chosen one, else its first
/// image, else none.
pub open spec fn primary_image_of(row: ItemWithStats) -> Option<u32> {
    match row.primary_image {
        Some(p) => Some(p),
        None => row.first_image_id,
    }
}

/// Whether an item row fits the answer: its counts fit in an `i32`.
pub open spec fn stats_fit(row: ItemWithStats) -> bool {
    i32::MIN <= row.count <= i32::MAX && i32::MIN <= row.total_comics <= i32::MAX
}

/// Builds the answer for an item from its row; fails when the stored kind
/// is not a known name. The counts must fit in an `i32`.
pub fn build_item_response(item_id: ItemId, row: ItemWithStats) -> (r: Result<ItemDetails, InvalidItemType>)
    requires
        stats_fit(row),
    ensures
        match r {
            Ok(item) => {
                &&& item_type_name(item.item_type) == row.item_type@
                &&& item.id == item_id
                &&& item.short_name@ == row.short_name@
                &&& item.name@ == row.name@
                &&& item.color == ItemColor(row.color_red, row.color_green, row.color_blue)
                &&& item.first == comic_or_default(row.first)
                &&& item.last == comic_or_default(row.last)
                &&& item.appearances == row.count
                &&& item.total_comics == row.total_comics
                &&& item.has_image == (row.image_count > 0)
                &&& item.primary_image == primary_image_of(row)
                &&& item.start_comic_id == comic_opt(row.start_comic_id)
                &&& item.end_comic_id == comic_opt(row.end_comic_id)
            },
            Err(e) => e.text@ == row.item_type@ && !is_item_type_name(row.item_type@),
        },
{
    let item_type = parse_item_type(row.item_type.as_str())?;
    let primary_image = match row.primary_image {
        Some(p) => Some(p),
        None => row.first_image_id,
    };
    Ok(
        ItemDetails {
            id: item_id,
            short_name: row.short_name,
            name: row.name,
            item_type,
            color: ItemColor(row.color_red, row.color_green, row.color_blue),
            first: comic_or_default_exec(row.first),
            last: comic_or_default_exec(row.last),
            appearances: row.count as i32,
            total_comics: row.total_comics as i32,
            has_image: row.image_count > 0,
            primary_image,
            start_comic_id: comic_opt_exec(row.start_comic_id),
            end_comic_id: comic_opt_exec(row.end_comic_id),
        },
    )
}

/// Storylines have no "attached = belongs" equivalence like cast and
/// locations do, so a storyline created from a comic starts at that comic;
/// other kinds get no default start.
pub fn default_start_comic_id_for_new_item(item_type: ItemType, comic_id: u16) -> (r: Option<u16>)
    ensures
        r == (if item_type == ItemType::Storyline {
            Some(comic_id)
        } else {
            None::<u16>
        }),
{
    match item_type {
        ItemType::Storyline => Some(comic_id),
        _ => None,
    }
}

/// An item row with its number of appearances and its storyline bounds.
#[derive(Debug, PartialEq, Eq)]
pub struct ItemWithCount {
    pub id: u16,
    pub short_name: String,
    pub name: String,
    pub item_type: String,
    pub color_blue: u8,
    pub color_green: u8,
    pub color_red: u8,
    pub count: i64,
    pub start_comic_id: Option<u16>,
    pub end_comic_id: Option<u16>,
}

/// One entry of the list of all items.
#[derive(Debug, PartialEq, Eq)]
pub struct ItemListEntry {
    pub id: ItemId,
    pub short_name: String,
    pub name: String,
    pub item_type: ItemType,
    pub color: ItemColor,
    pub count: i32,
    pub start_comic_id: Option<ComicId>,
    pub end_comic_id: Option<ComicId>,
}

/// Whether a list entry describes a row.
pub open spec fn list_entry_of(e: ItemListEntry, row: ItemWithCount) -> bool {
    &&& e.id == ItemId(row.id)
    &&& e.short_name@ == row.short_name@
    &&& e.name@ == row.name@
    &&& item_type_name(e.item_type) == row.item_type@
    &&& e.color == ItemColor(row.color_red, row.color_green, row.color_blue)
    &&& e.count == row.count
    &&& e.start_comic_id == comic_opt(row.start_comic_id)
    &&& e.end_comic_id == comic_opt(row.end_comic_id)
}

/// Builds the list of all items, row by row; fails on the first row whose
/// kind is not a known name. Every count must fit in an `i32`.
pub fn item_list_entries(rows: Vec<ItemWithCount>) -> (r: Result<Vec<ItemListEntry>, InvalidItemType>)
    requires
        forall|t: int| 0 <= t < rows@.len() ==> i32::MIN <= #[trigger] rows@[t].count <= i32::MAX,
    ensures
        match r {
            Ok(entries) => entries@.len() == rows@.len() && forall|t: int|
                0 <= t < rows@.len() ==> list_entry_of(#[trigger] entries@[t], rows@[t]),
            Err(e) => exists|t: int|
                0 <= t < rows@.len() && (forall|u: int|
                    0 <= u < t ==> is_item_type_name(#[trigger] rows@[u].item_type@)) && e.text@
                    == rows@[t].item_type@ && !is_item_type_name(rows@[t].item_type@),
        },
{
    let ghost all = rows@;
    let n = rows.len();
    let mut entries: Vec<ItemListEntry> = Vec::with_capacity(n);
    let mut rest = rows;
    let mut i: usize = 0;
    assert(all.skip(0) =~= all);
    while i < n
        invariant
            n == all.len(),
            all == rows@,
            i <= n,
            rest@ == all.skip(i as int),
            forall|t: int| 0 <= t < all.len() ==> i32::MIN <= #[trigger] all[t].count <= i32::MAX,
            entries@.len() == i,
            forall|t: int| 0 <= t < i ==> list_entry_of(#[trigger] entries@[t], all[t]),
            forall|u: int| 0 <= u < i ==> is_item_type_name(#[trigger] all[u].item_type@),
        decreases n - i,
    {
        let item = rest.remove(0);
        assert(item == all[i as int]);
        assert(rest@ =~= all.skip(i as int + 1));
        let item_type = match parse_item_type(item.item_type.as_str()) {
            Ok(t) => t,
            Err(e) => {
                assert(e.text@ == item.item_type@);
                assert(e.text@ == all[i as int].item_type@ && !is_item_type_name(
                    all[i as int].item_type@,
                ));
                assert(exists|t: int|
                    0 <= t < all.len() && (forall|u: int|
                        0 <= u < t ==> is_item_type_name(#[trigger] all[u].item_type@)) && e.text@
                        == all[t].item_type@ && !is_item_type_name(all[t].item_type@));
                return Err(e);
            },
        };
        entries.push(
            ItemListEntry {
                id: ItemId(item.id),
                short_name: item.short_name,
                name: item.name,
                item_type,
                color: ItemColor(item.color_red, item.color_green, item.color_blue),
                count: item.count as i32,
                start_comic_id: comic_opt_exec(item.start_comic_id),
                end_comic_id: comic_opt_exec(item.end_comic_id),
            },
        );
        i = i + 1;
    }
    Ok(entries)
}

/// An item related to another one, with the number of comics they share.
#[derive(Debug, PartialEq, Eq)]
pub struct RelatedItem {
    pub id: u16,
    pub short_name: String,
    pub name: String,
    pub item_type: String,
    pub color_red: u8,
    pub color_green: u8,
    pub color_blue: u8,
    pub count: i64,
}

/// A related item as answered to a client.
#[derive(Copy, Clone, Debug, PartialEq, Eq, Structural)]
pub struct RelatedItemEntry {
    pub id: ItemId,
    pub count: i32,
}

/// The answer for one related item; its count must fit in an `i32`.
pub fn related_item_entry(row: &RelatedItem) -> (r: RelatedItemEntry)
    requires
        i32::MIN <= row.count <= i32::MAX,
    ensures
        r == (RelatedItemEntry { id: ItemId(row.id), count: row.count as i32 }),
{
    RelatedItemEntry { id: ItemId(row.id), count: row.count as i32 }
}

/// The appearance of an item in a comic, as stored.
#[derive(Copy, Clone, Debug, PartialEq, Eq, Structural)]
pub struct Occurrence {
    pub comic_id: i16,
    pub item_id: i16,
}

/// The metadata of an item image.
#[derive(Copy, Clone, Debug, PartialEq, Eq, Structural)]
pub struct ItemImageMetadata {
    pub id: u32,
    pub crc32c_hash: u32,
}

/// The primary image of an item from its chosen one and its image list: the
/// chosen one, else the first image, else none.
pub fn primary_image_or_first(primary_image: Option<u32>, images: &[ItemImageMetadata]) -> (r: Option<u32>)
    ensures
        r == (match primary_image {
            Some(p) => Some(p),
            None => if images@.len() > 0 {
                Some(images@[0].id)
            } else {
                None
            },
        }),
{
    match primary_image {
        Some(p) => Some(p),
        None => if images.len() > 0 {
            Some(images[0].id)
        } else {
            None
        },
    }
}

/// Takes the item stored under `key` out of the map.
fn take_item(items: &mut BTreeMap<u16, Item>, key: u16) -> (r: Item)
    requires
        old(items)@.contains_key(key),
    ensures
        r == old(items)@[key],
        final(items)@ == old(items)@.remove(key),
{
    broadcast use vstd::std_specs::btree::group_btree_axioms, vstd::laws_cmp::group_laws_cmp;

    items.remove(&key).unwrap()
}

/// An item's navigation entry together with its names, kind and color.
#[derive(Debug, PartialEq, Eq)]
pub struct ItemNavigationData {
    pub id: ItemId,
    pub short_name: String,
    pub name: String,
    pub item_type: ItemType,
    pub color: ItemColor,
    pub navigation_data: NavigationData,
    pub count: i64,
}

/// Whether a hydrated entry combines a navigation entry with an item.
pub open spec fn hydrated_from(h: ItemNavigationData, u: UnhydratedItemNavigationData, item: Item) -> bool {
    &&& h.id == u.id
    &&& h.navigation_data == u.navigation_data
    &&& h.count == u.count
    &&& h.short_name@ == item.short_name@
    &&& h.name@ == item.name@
    &&& item_type_name(h.item_type) == item.item_type@
    &&& h.color == ItemColor(item.color_red, item.color_green, item.color_blue)
}

/// The item ids of the first `n` navigation entries.
pub open spec fn ids_upto(nav: Seq<UnhydratedItemNavigationData>, n: int) -> Set<u16> {
    Set::new(|k: u16| exists|t: int| 0 <= t < n && (#[trigger] nav[t]).id.0 == k)
}

/// Fills in the names, kind and color of each navigation entry from the
/// items, taking each used item out of the map. Each entry's item must be in
/// the map, and no two entries may name the same item. Fails on the first
/// entry whose item has a kind that is not a known name, once the items of
/// the entries up to it have been taken out.
pub fn hydrate_navigation_item_with_item_data(
    navigation_items: Vec<UnhydratedItemNavigationData>,
    items: &mut BTreeMap<u16, Item>,
) -> (r: Result<Vec<ItemNavigationData>, InvalidItemType>)
    requires
        forall|t: int|
            0 <= t < navigation_items@.len() ==> old(items)@.contains_key(
                (#[trigger] navigation_items@[t]).id.0,
            ),
        forall|s: int, t: int|
            0 <= s < t < navigation_items@.len() ==> (#[trigger] navigation_items@[s]).id.0
                != (#[trigger] navigation_items@[t]).id.0,
    ensures
        match r {
            Ok(h) => {
                &&& h@.len() == navigation_items@.len()
                &&& forall|t: int|
                    0 <= t < h@.len() ==> hydrated_from(
                        #[trigger] h@[t],
                        navigation_items@[t],
                        old(items)@[navigation_items@[t].id.0],
                    )
                &&& final(items)@ == old(items)@.remove_keys(
                    ids_upto(navigation_items@, navigation_items@.len() as int),
                )
            },
            Err(e) => exists|t: int|
                0 <= t < navigation_items@.len() && (forall|u: int|
                    0 <= u < t ==> is_item_type_name(
                        old(items)@[(#[trigger] navigation_items@[u]).id.0].item_type@,
                    )) && e.text@ == old(items)@[navigation_items@[t].id.0].item_type@
                    && !is_item_type_name(old(items)@[navigation_items@[t].id.0].item_type@)
                    && final(items)@ == old(items)@.remove_keys(
                    ids_upto(navigation_items@, t + 1),
                ),
        },
{
    let ghost orig = items@;
    let ghost nav = navigation_items@;
    let n = navigation_items.len();
    let mut out: Vec<ItemNavigationData> = Vec::with_capacity(n);
    let mut i: usize = 0;
    while i < n
        invariant
            n == nav.len(),
            nav == navigation_items@,
            orig == old(items)@,
            i <= n,
            out@.len() == i,
            forall|t: int| 0 <= t < i ==> hydrated_from(#[trigger] out@[t], nav[t], orig[nav[t].id.0]),
            forall|t: int| i <= t < n ==> items@.contains_key((#[trigger] nav[t]).id.0) && items@[nav[t].id.0]
                == orig[nav[t].id.0],
            forall|s: int, t: int|
                0 <= s < t < nav.len() ==> (#[trigger] nav[s]).id.0 != (#[trigger] nav[t]).id.0,
            forall|u: int| 0 <= u < i ==> is_item_type_name(orig[(#[trigger] nav[u]).id.0].item_type@),
            items@ == orig.remove_keys(ids_upto(nav, i as int)),
        decreases n - i,
    {
        let unhydrated = navigation_items[i];
        let key = unhydrated.id.0;
        let ghost before = items@;
        let item = take_item(items, key);
        assert(item == orig[nav[i as int].id.0]);
        assert(items@ =~= orig.remove_keys(ids_upto(nav, i as int + 1))) by {
            assert forall|k: u16| #[trigger] ids_upto(nav, i as int + 1).contains(k) <==> (ids_upto(
                nav,
                i as int,
            ).contains(k) || k == key) by {
                if k == key {
                    assert(nav[i as int].id.0 == k);
                }
                if ids_upto(nav, i as int + 1).contains(k) && k != key {
                    let t = choose|t: int| 0 <= t < i as int + 1 && (#[trigger] nav[t]).id.0 == k;
                    assert(t < i);
                }
            }
        }
        assert forall|t: int| i + 1 <= t < n implies items@.contains_key((#[trigger] nav[t]).id.0)
            && items@[nav[t].id.0] == orig[nav[t].id.0] by {
            assert(nav[i as int].id.0 != nav[t].id.0);
        }
        let item_type = match parse_item_type(item.item_type.as_str()) {
            Ok(t) => t,
            Err(e) => {
                assert(e.text@ == item.item_type@);
                assert(e.text@ == orig[nav[i as int].id.0].item_type@ && !is_item_type_name(
                    orig[nav[i as int].id.0].item_type@,
                ));
                assert(nav[i as int] == navigation_items@[i as int]);
                return Err(e);
            },
        };
        assert(is_item_type_name(orig[nav[i as int].id.0].item_type@));
        out.push(
            ItemNavigationData {
                id: unhydrated.id,
                short_name: item.short_name,
                name: item.name,
                item_type,
                color: ItemColor(item.color_red, item.color_green, item.color_blue),
                navigation_data: unhydrated.navigation_data,
                count: unhydrated.count,
            },
        );
        i = i + 1;
    }
    assert(nav.len() == n);
    Ok(out)
}

} // verus!
