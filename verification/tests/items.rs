use qcext_server::color::ItemColor;
use qcext_server::comics::{exclusion_to_filter_options, Exclusion};
use qcext_server::ids::{ComicId, ItemId};
use qcext_server::item_type::ItemType;
use qcext_server::items::{
    build_item_response, default_start_comic_id_for_new_item, ItemDetails, ItemWithStats,
};

#[test]
fn new_storyline_defaults_start_comic_id_to_the_comic_it_was_added_from() {
    assert_eq!(default_start_comic_id_for_new_item(ItemType::Storyline, 42), Some(42));
}

#[test]
fn new_cast_has_no_default_start_comic_id() {
    assert_eq!(default_start_comic_id_for_new_item(ItemType::Cast, 42), None);
}

#[test]
fn new_location_has_no_default_start_comic_id() {
    assert_eq!(default_start_comic_id_for_new_item(ItemType::Location, 42), None);
}

#[test]
fn no_exclusion_returns_all_nones() {
    assert_eq!(exclusion_to_filter_options(None), (None, None));
}

#[test]
fn guest_exclusion_excludes_guest_comics() {
    assert_eq!(exclusion_to_filter_options(Some(Exclusion::Guest)), (Some(false), None));
}

#[test]
fn non_canon_exclusion_excludes_non_canon_comics() {
    assert_eq!(exclusion_to_filter_options(Some(Exclusion::NonCanon)), (None, Some(false)));
}

fn sample_row() -> ItemWithStats {
    ItemWithStats {
        id: 42,
        short_name: "sample".to_string(),
        name: "Sample Item".to_string(),
        item_type: "cast".to_string(),
        color_blue: 1,
        color_green: 2,
        color_red: 3,
        primary_image: None,
        start_comic_id: None,
        end_comic_id: None,
        first: Some(10),
        last: Some(20),
        count: 5,
        total_comics: 100,
        image_count: 1,
        first_image_id: Some(7),
    }
}

/// The share of comics an item appears in, as the answer reports it.
fn presence(item: &ItemDetails) -> f64 {
    if item.total_comics == 0 {
        0.0
    } else {
        f64::from(item.appearances) * 100.0 / f64::from(item.total_comics)
    }
}

#[test]
#[allow(clippy::float_cmp)]
fn build_item_response_maps_stats_fields() {
    let item = build_item_response(ItemId::from(42), sample_row()).unwrap();

    assert_eq!(item.first, ComicId::from(10));
    assert_eq!(item.last, ComicId::from(20));
    assert_eq!(item.appearances, 5);
    assert_eq!(item.total_comics, 100);
    assert_eq!(presence(&item), 5.0);
    assert!(item.has_image);
}

#[test]
fn build_item_response_uses_explicit_primary_image_when_set() {
    let row = ItemWithStats { primary_image: Some(99), ..sample_row() };

    let item = build_item_response(ItemId::from(42), row).unwrap();

    assert_eq!(item.primary_image, Some(99));
}

#[test]
fn build_item_response_falls_back_to_first_image_id_when_primary_image_unset() {
    let row = ItemWithStats { primary_image: None, first_image_id: Some(7), ..sample_row() };

    let item = build_item_response(ItemId::from(42), row).unwrap();

    assert_eq!(item.primary_image, Some(7));
}

#[test]
fn build_item_response_has_no_primary_image_when_none_available() {
    let row = ItemWithStats { primary_image: None, first_image_id: None, ..sample_row() };

    let item = build_item_response(ItemId::from(42), row).unwrap();

    assert_eq!(item.primary_image, None);
}

#[test]
#[allow(clippy::float_cmp)]
fn build_item_response_zero_presence_when_no_comics_exist() {
    let row = ItemWithStats { total_comics: 0, ..sample_row() };

    let item = build_item_response(ItemId::from(42), row).unwrap();

    assert_eq!(presence(&item), 0.0);
}

#[test]
fn build_item_response_refuses_an_unknown_kind() {
    let row = ItemWithStats { item_type: "villain".to_string(), ..sample_row() };
    let err = build_item_response(ItemId::from(42), row).unwrap_err();
    assert_eq!(err.text, "villain");
}

#[test]
fn build_item_response_copies_names_color_and_missing_comics() {
    let row = ItemWithStats { first: None, last: None, image_count: 0, ..sample_row() };
    let item = build_item_response(ItemId::from(42), row).unwrap();
    assert_eq!(item.name, "Sample Item");
    assert_eq!(item.short_name, "sample");
    assert_eq!(item.item_type, ItemType::Cast);
    assert_eq!(item.color, ItemColor(3, 2, 1));
    assert_eq!(item.first, ComicId::from(0));
    assert_eq!(item.last, ComicId::from(0));
    assert!(!item.has_image);
}
