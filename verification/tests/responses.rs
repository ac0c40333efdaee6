use std::collections::BTreeMap;

use qcext_server::color::ItemColor;
use qcext_server::comics::{
    build_comic_response, needs_updating, pick_candidate, random_comic_choice, random_pick_candidates,
    ComicData,
    ComicSummary, ComicWithNavigationAndNews,
};
use qcext_server::ids::{ComicId, ItemId};
use qcext_server::image_type::ImageType;
use qcext_server::item_type::ItemType;
use qcext_server::items::{
    hydrate_navigation_item_with_item_data, item_list_entries, primary_image_or_first,
    related_item_entry, Item, ItemImageMetadata, ItemWithCount, RelatedItem,
};
use qcext_server::navigation::{
    all_item_navigation_data, editor_data_from_results, ItemFirstLastCount,
    ItemNavigationDataSorting, PreviousAppearances, split_items_in_comic, EditorData, MissingEditorData, NavigationData,
    NavigationResult, UnhydratedItemNavigationData,
};
use qcext_server::stats::{
    comeback_characters_from_rows, debuts_per_year_from_rows, item_stats_from_db,
    publication_calendar_from_rows, yearly_overview_from_rows,
};
use qcext_server::stats_rows::{
    ComebackCharacterRow, DebutsPerYearRow, ItemStats as ItemStatsRow, PublicationDowRow,
    PublicationMonthRow, YearlyOverviewRow,
};

fn summary(comic: u16, guest: bool, non_canon: bool) -> ComicSummary {
    ComicSummary { comic: ComicId::from(comic), is_guest_comic: guest, is_non_canon: non_canon }
}

#[test]
fn random_picks_respect_filters_and_skip_the_current_comic() {
    let comics = vec![summary(1, false, false), summary(2, true, false), summary(3, false, true)];
    assert_eq!(random_pick_candidates(&comics, None, None, 1), vec![ComicId::from(2), ComicId::from(3)]);
    assert_eq!(random_pick_candidates(&comics, Some(false), None, 1), vec![ComicId::from(3)]);
    assert_eq!(random_pick_candidates(&comics, Some(false), Some(false), 9), vec![ComicId::from(1)]);
    for _ in 0..20 {
        assert_eq!(random_comic_choice(&comics, Some(false), None, 1), Some(ComicId::from(3)));
    }
    assert_eq!(random_comic_choice(&comics[..1], None, None, 5), None);
    assert_eq!(random_comic_choice(&comics, Some(false), Some(false), 1), None);
}

fn stored_comic(image_type: i32) -> ComicWithNavigationAndNews {
    ComicWithNavigationAndNews {
        id: 7,
        image_type,
        is_guest_comic: 1,
        is_non_canon: 0,
        has_no_cast: 0,
        has_no_location: 0,
        has_no_storyline: 0,
        has_no_title: 0,
        has_no_tagline: 1,
        title: "Seven".to_string(),
        tagline: None,
        publish_date: Some(946684800),
        is_accurate_publish_date: 1,
        prev_id: Some(6),
        next_id: None,
        news: Some("news".to_string()),
    }
}

fn entry(id: u16) -> UnhydratedItemNavigationData {
    UnhydratedItemNavigationData { id: ItemId::from(id), navigation_data: NavigationData::default(), count: 1 }
}

#[test]
fn comic_responses() {
    let response = build_comic_response(
        ComicId::from(7),
        Some(stored_comic(2)),
        EditorData::Missing(MissingEditorData::default()),
        vec![entry(1)],
        vec![entry(2)],
    );
    assert_eq!(response.comic, ComicId::from(7));
    assert_eq!(response.all_items, vec![entry(2)]);
    match response.data {
        ComicData::Present(p) => {
            assert_eq!(p.image_type, Some(ImageType::Gif));
            assert!(p.is_guest_comic);
            assert!(p.has_no_tagline);
            assert!(p.is_accurate_publish_date);
            assert_eq!(p.previous, Some(ComicId::from(6)));
            assert_eq!(p.next, None);
            assert_eq!(p.items, vec![entry(1)]);
        },
        ComicData::Missing => panic!("comic expected"),
    }
    let missing = build_comic_response(
        ComicId::from(8),
        None,
        EditorData::Missing(MissingEditorData::default()),
        Vec::new(),
        Vec::new(),
    );
    assert_eq!(missing.data, ComicData::Missing);
}

#[test]
fn what_a_comic_needs_from_the_updater() {
    assert_eq!(needs_updating(None), (true, true, None, false));
    assert_eq!(needs_updating(Some(("", 1, Some(5), 1))), (true, false, Some(5), true));
    assert_eq!(needs_updating(Some(("Title", 0, None, 0))), (false, true, None, false));
}

#[test]
fn editor_data_and_splitting() {
    let nav = NavigationResult { first: Some(1), last: Some(9), previous: None, next: Some(4) };
    match editor_data_from_results(&nav, &nav, &nav, &nav, &nav) {
        EditorData::Present(p) => {
            assert_eq!(p.missing.cast.first, Some(ComicId::from(1)));
            assert_eq!(p.missing.tagline.next, Some(ComicId::from(4)));
        },
        EditorData::Missing(_) => panic!("editor data expected"),
    }
    let all = vec![entry(1), entry(2), entry(3)];
    let (inside, outside) = split_items_in_comic(&all, &[3, 1]);
    assert_eq!(inside, vec![entry(1), entry(3)]);
    assert_eq!(outside, vec![entry(2)]);
}

fn item(id: u16, item_type: &str) -> Item {
    Item {
        id,
        short_name: format!("s{id}"),
        name: format!("Item {id}"),
        item_type: item_type.to_string(),
        color_blue: 3,
        color_green: 2,
        color_red: 1,
        primary_image: None,
        start_comic_id: None,
        end_comic_id: None,
    }
}

#[test]
fn hydrating_navigation_entries() {
    let mut items = BTreeMap::from([(1, item(1, "cast")), (2, item(2, "location")), (5, item(5, "cast"))]);
    let hydrated = hydrate_navigation_item_with_item_data(vec![entry(2), entry(1)], &mut items).unwrap();
    assert_eq!(hydrated[0].name, "Item 2");
    assert_eq!(hydrated[0].item_type, ItemType::Location);
    assert_eq!(hydrated[1].color, ItemColor(1, 2, 3));
    assert_eq!(items.len(), 1);
    let mut bad = BTreeMap::from([(4, item(4, "robot"))]);
    let err = hydrate_navigation_item_with_item_data(vec![entry(4)], &mut bad).unwrap_err();
    assert_eq!(err.text, "robot");
}

#[test]
fn item_lists_and_related_items() {
    let rows = vec![ItemWithCount {
        id: 4,
        short_name: "F".to_string(),
        name: "Faye".to_string(),
        item_type: "cast".to_string(),
        color_blue: 9,
        color_green: 8,
        color_red: 7,
        count: 12,
        start_comic_id: None,
        end_comic_id: Some(30),
    }];
    let entries = item_list_entries(rows).unwrap();
    assert_eq!(entries[0].id, ItemId::from(4));
    assert_eq!(entries[0].color, ItemColor(7, 8, 9));
    assert_eq!(entries[0].count, 12);
    assert_eq!(entries[0].end_comic_id, Some(ComicId::from(30)));
    let related = related_item_entry(&RelatedItem {
        id: 9,
        short_name: String::new(),
        name: "Bar".to_string(),
        item_type: "location".to_string(),
        color_red: 0,
        color_green: 0,
        color_blue: 0,
        count: 3,
    });
    assert_eq!(related.id, ItemId::from(9));
    assert_eq!(related.count, 3);
    let images = [ItemImageMetadata { id: 11, crc32c_hash: 0 }, ItemImageMetadata { id: 12, crc32c_hash: 1 }];
    assert_eq!(primary_image_or_first(None, &images), Some(11));
    assert_eq!(primary_image_or_first(Some(12), &images), Some(12));
    assert_eq!(primary_image_or_first(None, &[]), None);
}

#[test]
fn statistics_rows() {
    let stats = item_stats_from_db(ItemStatsRow {
        id: 1,
        name: "Marten".to_string(),
        first_comic: Some(1),
        last_comic: Some(400),
        appearances: 300,
    })
    .unwrap();
    assert_eq!(stats.first_comic, ComicId::from(1));
    assert_eq!(stats.appearances, 300);
    assert!(item_stats_from_db(ItemStatsRow {
        id: 1,
        name: "Marten".to_string(),
        first_comic: None,
        last_comic: Some(400),
        appearances: 300,
    })
    .is_none());

    let debuts = debuts_per_year_from_rows(&[
        DebutsPerYearRow { year: None, cast_debuts: 1, location_debuts: 1 },
        DebutsPerYearRow { year: Some(2004), cast_debuts: 10, location_debuts: 4 },
    ]);
    assert_eq!(debuts.len(), 1);
    assert_eq!(debuts[0].year, 2004);
    let overview = yearly_overview_from_rows(&[YearlyOverviewRow { year: Some(2005), total_cast: 40, new_cast: 7 }]);
    assert_eq!(overview[0].new_cast, 7);
    let calendar = publication_calendar_from_rows(
        &[PublicationMonthRow { month: Some(3), comics: 20 }, PublicationMonthRow { month: Some(300), comics: 1 }],
        &[PublicationDowRow { dow: None, comics: 2 }, PublicationDowRow { dow: Some(2), comics: 5 }],
    );
    assert_eq!(calendar.monthly.len(), 1);
    assert_eq!(calendar.monthly[0].month, 3);
    assert_eq!(calendar.daily.len(), 1);
    assert_eq!(calendar.daily[0].dow, 2);
    let comebacks = comeback_characters_from_rows(vec![
        ComebackCharacterRow {
            id: 2,
            name: "Dora".to_string(),
            last_comic: Some(10),
            return_comic: Some(90),
            gap_days: Some(120),
        },
        ComebackCharacterRow { id: 3, name: "Pintsize".to_string(), last_comic: None, return_comic: Some(5), gap_days: Some(100) },
    ]);
    assert_eq!(comebacks.len(), 1);
    assert_eq!(comebacks[0].return_comic, ComicId::from(90));
    assert_eq!(comebacks[0].gap_days, 120);
}

#[test]
fn picking_a_drawn_candidate() {
    let candidates = [ComicId::from(4), ComicId::from(8), ComicId::from(15)];
    assert_eq!(pick_candidate(&candidates, 0), Some(ComicId::from(4)));
    assert_eq!(pick_candidate(&candidates, 2), Some(ComicId::from(15)));
}

#[test]
fn random_choice_reaches_every_allowed_comic() {
    let comics = vec![summary(1, false, false), summary(2, false, false), summary(3, false, false)];
    let mut seen = std::collections::HashSet::new();
    for _ in 0..400 {
        let chosen = random_comic_choice(&comics, None, None, 1).unwrap();
        assert_ne!(chosen, ComicId::from(1));
        seen.insert(chosen);
    }
    assert_eq!(seen.len(), 2);
}

#[test]
fn both_sortings_list_the_same_entries() {
    let flcs = vec![
        ItemFirstLastCount { id: 1, first: Some(1), last: Some(9), count: 5 },
        ItemFirstLastCount { id: 2, first: Some(2), last: Some(4), count: 3 },
        ItemFirstLastCount { id: 3, first: Some(6), last: Some(6), count: 1 },
    ];
    let previous = PreviousAppearances {
        appearances: BTreeMap::from([(3u16, 6u16), (2u16, 4u16)]),
        order: vec![ItemId::from(3), ItemId::from(2)],
    };
    let next = BTreeMap::from([(1u16, 9u16)]);
    let by_count = all_item_navigation_data(&flcs, &previous, &next, ItemNavigationDataSorting::ByCount);
    let by_last =
        all_item_navigation_data(&flcs, &previous, &next, ItemNavigationDataSorting::ByLastAppearance);
    assert_eq!(by_last.iter().map(|e| e.id).collect::<Vec<_>>(), vec![ItemId::from(3), ItemId::from(2), ItemId::from(1)]);
    assert_eq!(by_count.len(), by_last.len());
    for entry in &by_count {
        assert!(by_last.contains(entry));
    }
}

#[test]
fn sortings_agree_with_a_repeated_identical_row() {
    let row = ItemFirstLastCount { id: 4, first: Some(2), last: Some(8), count: 2 };
    let other = ItemFirstLastCount { id: 5, first: Some(3), last: Some(3), count: 1 };
    let flcs = vec![row, other, row];
    let previous = PreviousAppearances {
        appearances: BTreeMap::from([(4u16, 2u16), (5u16, 3u16)]),
        order: vec![ItemId::from(5)],
    };
    let next = BTreeMap::new();
    let mut by_count: Vec<_> =
        all_item_navigation_data(&flcs, &previous, &next, ItemNavigationDataSorting::ByCount)
            .into_iter()
            .map(|e| (e.id, e.count))
            .collect();
    let mut by_last: Vec<_> = all_item_navigation_data(
        &flcs,
        &previous,
        &next,
        ItemNavigationDataSorting::ByLastAppearance,
    )
    .into_iter()
    .map(|e| (e.id, e.count))
    .collect();
    assert_eq!(by_last[0], (ItemId::from(5), 1));
    by_count.sort();
    by_last.sort();
    assert_eq!(by_count, by_last);
    assert_eq!(by_count.len(), 3);
}
