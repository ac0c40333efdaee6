use std::collections::{BTreeMap, HashSet};

use qcext_server::advance::{comic_updater_answer, plan_advance_comic, AddAdvanceComicBody};
use qcext_server::color::{ColorParseError, ItemColor};
use qcext_server::comics::{
    containing_items, excluded_filter_options, exclusion_to_filter_options, random_offset, Exclusion,
};
use qcext_server::ids::{ComicId, ItemId};
use qcext_server::image_type::ImageType;
use qcext_server::item_type::ItemType;
use qcext_server::log_paging::{checked_log_page_info, log_page_info, page_start_entry};
use qcext_server::navigation::{
    all_item_navigation_data, item_navigation_entries, nav_result_to_navigation_data,
    ItemFirstLastCount, ItemNavigationDataSorting, NavigationResult, PreviousAppearances,
};
use qcext_server::requests::{
    AddItemToComicBody, AddItemToComicBodyInvalidity, ExistingItem, ItemBody, NewItem,
};
use qcext_server::text::andify_comma_string;
use qcext_server::tokens::{Token, TokenPermission};
use qcext_server::unescape::{unescape_bytes, UnescapeError};

#[test]
fn colors_print_and_read_back() {
    let c = ItemColor(0x0a, 0xff, 0x42);
    assert_eq!(c.to_hex_string(false), "0aff42");
    assert_eq!(c.to_hex_string(true), "#0aff42");
    assert_eq!(ItemColor::parse("#0aff42"), Ok(c));
    assert_eq!(ItemColor::parse("0AFF42"), Ok(c));
    assert_eq!(ItemColor::parse(c.to_hex_string(true).as_str()), Ok(c));
}

#[test]
fn colors_report_the_first_bad_component() {
    assert_eq!(ItemColor::parse(""), Err(ColorParseError::MissingRed));
    assert_eq!(ItemColor::parse("g0"), Err(ColorParseError::InvalidRed));
    assert_eq!(ItemColor::parse("00"), Err(ColorParseError::MissingGreen));
    assert_eq!(ItemColor::parse("00x0"), Err(ColorParseError::InvalidGreen));
    assert_eq!(ItemColor::parse("0000"), Err(ColorParseError::MissingBlue));
    assert_eq!(ItemColor::parse("0000-1"), Err(ColorParseError::InvalidBlue));
    assert_eq!(
        ColorParseError::MissingBlue.message(),
        "Color is missing blue component value"
    );
}

#[test]
fn item_kinds_round_trip_through_their_names() {
    for t in [ItemType::Cast, ItemType::Location, ItemType::Storyline] {
        assert_eq!(ItemType::try_from_str(t.as_str()), Ok(t));
    }
    assert_eq!(ItemType::Storyline.as_str(), "storyline");
    assert_eq!(ItemType::try_from_str("Cast"), Err("Cast"));
}

#[test]
fn image_types_round_trip_through_their_codes() {
    for code in 0..=3 {
        assert_eq!(ImageType::from_trusted(code).code(), code);
    }
    assert_eq!(ImageType::from_trusted(3), ImageType::Jpeg);
}

#[test]
fn unescaping_dump_text() {
    assert_eq!(unescape_bytes(b"a\\nb\\\\c\\0"), Ok(b"a\nb\\c\0".to_vec()));
    assert_eq!(unescape_bytes(b"plain text"), Ok(b"plain text".to_vec()));
    assert_eq!(unescape_bytes(b"trailing\\"), Ok(b"trailing".to_vec()));
    let err = unescape_bytes(b"bad\\q").unwrap_err();
    assert_eq!(err, UnescapeError { byte: b'q' });
    assert_eq!(err.message(), "Invalid escape character: 113");
}

#[test]
fn andify_replaces_the_last_separator() {
    let mut s = "a, b, c".to_string();
    andify_comma_string(&mut s);
    assert_eq!(s, "a, b and c");
    let mut single = "a".to_string();
    andify_comma_string(&mut single);
    assert_eq!(single, "a");
}

fn token(flags: [u8; 7]) -> Token {
    Token {
        id: "id".to_string(),
        identifier: "editor".to_string(),
        can_add_advance_comic: flags[0],
        can_add_image_to_item: flags[1],
        can_add_item_to_comic: flags[2],
        can_change_comic_data: flags[3],
        can_change_item_data: flags[4],
        can_remove_image_from_item: flags[5],
        can_remove_item_from_comic: flags[6],
    }
}

#[test]
fn tokens_grant_their_flags() {
    assert!(Token::get_permissions_for_token(None).is_empty());
    assert_eq!(
        Token::get_permissions_for_token(Some(&token([0; 7]))),
        vec![TokenPermission::HasValidToken]
    );
    let perms = Token::get_permissions_for_token(Some(&token([1, 0, 2, 0, 1, 0, 0])));
    assert_eq!(
        perms,
        vec![
            TokenPermission::HasValidToken,
            TokenPermission::CanAddAdvanceComic,
            TokenPermission::CanAddItemToComic,
            TokenPermission::CanChangeItemData,
        ]
    );
    let all = Token::get_permissions_for_token(Some(&token([1; 7])));
    let distinct: HashSet<TokenPermission> = all.iter().copied().collect();
    assert_eq!(all.len(), 8);
    assert_eq!(distinct.len(), 8);
}

#[test]
fn log_pages() {
    let info = log_page_info(2, 21);
    assert_eq!(info.page, 2);
    assert_eq!(info.page_count, 3);
    assert_eq!(info.log_entry_count, 21);
    assert_eq!(log_page_info(1, 0).page_count, 0);
    assert_eq!(log_page_info(1, 10).page_count, 1);
    assert_eq!(checked_log_page_info(1, 655_350).map(|i| i.page_count), Some(65535));
    assert_eq!(checked_log_page_info(1, 655_351), None);
    assert_eq!(page_start_entry(0), 0);
    assert_eq!(page_start_entry(1), 0);
    assert_eq!(page_start_entry(3), 20);
}

#[test]
fn negative_counts_round_toward_zero() {
    assert_eq!(checked_log_page_info(1, -9).map(|i| i.page_count), Some(0));
    assert_eq!(checked_log_page_info(1, -10).map(|i| i.page_count), Some(0));
    assert_eq!(checked_log_page_info(1, -18).map(|i| i.page_count), Some(0));
    assert_eq!(checked_log_page_info(1, -19), None);
    assert_eq!(log_page_info(3, -18).log_entry_count, -18);
}

fn advance_body() -> AddAdvanceComicBody {
    AddAdvanceComicBody {
        token: "t".to_string(),
        comic_id: ComicId::from(5000),
        title: "Soon".to_string(),
        tagline: None,
        is_accurate_publish_date: None,
        is_guest_comic: Some(true),
        is_non_canon: None,
    }
}

#[test]
fn advance_comics() {
    let err = plan_advance_comic(&advance_body(), Some(0)).unwrap_err();
    assert_eq!(
        err.message(),
        "Comic #5000 is already published and cannot be used for an advance comic"
    );
    let plan = plan_advance_comic(&advance_body(), Some(1)).unwrap();
    assert_eq!(plan.log, "Added advance comic #5000 (\"Soon\")");
    assert_eq!(plan.answer, "Added advance comic #5000");
    assert!(plan.is_guest_comic);
    assert!(!plan.is_non_canon);
    assert!(!plan.is_accurate_publish_date);
    assert!(plan_advance_comic(&advance_body(), None).is_ok());
}

#[test]
fn comic_updater_answers() {
    assert_eq!(comic_updater_answer(Ok(())), Ok("Requested an immediate comic updater run".to_string()));
    assert_eq!(
        comic_updater_answer(Err(42)),
        Err("The comic updater last ran less than 5 minutes ago; try again in 42 seconds".to_string())
    );
}

#[test]
fn comics_containing_every_item() {
    let lists = vec![vec![1, 2, 3, 5], vec![2, 3, 4], vec![3, 2]];
    assert_eq!(containing_items(&lists), HashSet::from([2, 3]));
    assert!(containing_items(&Vec::new()).is_empty());
}

#[test]
fn excluded_listing_filters() {
    assert_eq!(excluded_filter_options(Some(Exclusion::Guest)), Ok((Some(true), None)));
    assert_eq!(excluded_filter_options(Some(Exclusion::NonCanon)), Ok((None, Some(true))));
    assert!(excluded_filter_options(None).is_err());
}

#[test]
fn random_offsets() {
    assert_eq!(random_offset(17, 0), None);
    assert_eq!(random_offset(17, 5), Some(2));
}

#[test]
fn add_item_requests_are_checked() {
    let bad_existing =
        AddItemToComicBody { comic_id: ComicId::from(1), item: ItemBody::Existing(ExistingItem { item_id: 0 }) };
    assert_eq!(bad_existing.invalidities(), vec![AddItemToComicBodyInvalidity::ItemIdInvalid]);
    let empty_name = AddItemToComicBody {
        comic_id: ComicId::from(1),
        item: ItemBody::New(NewItem { new_item_name: String::new(), new_item_type: ItemType::Cast }),
    };
    assert_eq!(empty_name.invalidities(), vec![AddItemToComicBodyInvalidity::EmptyNewItemName]);
    assert_eq!(
        AddItemToComicBodyInvalidity::EmptyNewItemName.message(),
        "newItemName value is empty"
    );
    let fine =
        AddItemToComicBody { comic_id: ComicId::from(1), item: ItemBody::Existing(ExistingItem { item_id: 3 }) };
    assert!(fine.invalidities().is_empty());
}

#[test]
fn navigation_entries_look_up_neighbours() {
    let flcs = vec![
        ItemFirstLastCount { id: 1, first: Some(1), last: Some(50), count: 9 },
        ItemFirstLastCount { id: 2, first: Some(3), last: Some(4), count: 2 },
    ];
    let previous = BTreeMap::from([(1u16, 10u16)]);
    let next = BTreeMap::from([(2u16, 40u16)]);
    let entries = item_navigation_entries(&flcs, &previous, &next);
    assert_eq!(entries[0].id, ItemId::from(1));
    assert_eq!(entries[0].navigation_data.previous, Some(ComicId::from(10)));
    assert_eq!(entries[0].navigation_data.next, None);
    assert_eq!(entries[1].navigation_data.next, Some(ComicId::from(40)));
    assert_eq!(entries[1].count, 2);

    let prev = PreviousAppearances { appearances: previous, order: vec![ItemId::from(2)] };
    let sorted = all_item_navigation_data(&flcs, &prev, &next, ItemNavigationDataSorting::ByLastAppearance);
    assert_eq!(sorted[0].id, ItemId::from(2));
    assert_eq!(sorted[1].id, ItemId::from(1));

    let nav = nav_result_to_navigation_data(&NavigationResult {
        first: Some(1),
        last: None,
        previous: Some(2),
        next: Some(3),
    });
    assert_eq!(nav.first, Some(ComicId::from(1)));
    assert_eq!(nav.last, None);
    assert_eq!(nav.next, Some(ComicId::from(3)));
}

fn passes(options: (Option<bool>, Option<bool>), guest: bool, non_canon: bool) -> bool {
    options.0.map_or(true, |g| g == guest) && options.1.map_or(true, |n| n == non_canon)
}

#[test]
fn every_comic_is_in_exactly_one_listing() {
    for exclusion in [Exclusion::Guest, Exclusion::NonCanon] {
        let kept = exclusion_to_filter_options(Some(exclusion));
        let left_out = excluded_filter_options(Some(exclusion)).unwrap();
        for guest in [false, true] {
            for non_canon in [false, true] {
                assert_ne!(passes(kept, guest, non_canon), passes(left_out, guest, non_canon));
            }
        }
    }
}

#[test]
fn colors_need_six_characters_after_the_hash() {
    assert_eq!(ItemColor::parse("#ff8000"), Ok(ItemColor(255, 128, 0)));
    assert!(ItemColor::parse("#ff800").is_err());
    assert!(ItemColor::parse("ff80").is_err());
    assert!(ItemColor::parse("#").is_err());
    assert!(ItemColor::parse("é0000").is_err());
}

#[test]
fn identifiers_compare_as_their_numbers() {
    assert!(ComicId::from(3) < ComicId::from(10));
    assert!(ComicId::from(10) >= ComicId::from(10));
    assert!(!(ItemId::from(7) < ItemId::from(7)));
    assert!(ItemId::from(65535) > ItemId::from(0));
    assert_eq!(ComicId::from(42).into_inner(), 42);
    let mut ids = vec![ComicId::from(9), ComicId::from(1), ComicId::from(5)];
    ids.sort();
    assert_eq!(ids, vec![ComicId::from(1), ComicId::from(5), ComicId::from(9)]);
}
