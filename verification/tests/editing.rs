use qcext_server::color::{ColorParseError, ItemColor};
use qcext_server::editing::{
    added_item_action, created_item_action, flag_action, plan_add_item, plan_comic_patch,
    plan_item_patch,
    publish_date_action, start_comic_action, AddItemsProgress, ComicFlags, ComicOldValues,
    ComicUpdate, FlagType, ItemUpdate, PatchComicBody, PatchItemBody, PatchItemError,
    PublishDatePatch,
};
use qcext_server::ids::ComicId;
use qcext_server::item_type::ItemType;
use qcext_server::items::Item;

fn empty_comic_patch() -> PatchComicBody {
    PatchComicBody {
        token: "t".to_string(),
        publish_date: None,
        title: None,
        tagline: None,
        is_guest_comic: None,
        is_non_canon: None,
        has_no_cast: None,
        has_no_location: None,
        has_no_storyline: None,
        has_no_title: None,
        has_no_tagline: None,
    }
}

fn old_values() -> ComicOldValues {
    ComicOldValues { publish_date: None, title: "Old".to_string(), tagline: None }
}

#[test]
fn flag_log_lines_describe_the_new_value() {
    assert_eq!(flag_action(12, FlagType::IsGuestComic, true), "Set comic #12 to be a guest comic");
    assert_eq!(flag_action(12, FlagType::IsGuestComic, false), "Set comic #12 to be a Jeph comic");
    assert_eq!(flag_action(3, FlagType::HasNoTagline, false), "Set comic #3 to have a tagline");
}

#[test]
fn publish_date_log_line_formats_dates_in_utc() {
    assert_eq!(
        publish_date_action(5, None, 946684800),
        "Set publish date on comic #5 to \"2000-01-01T00:00:00Z\""
    );
    assert_eq!(
        publish_date_action(5, Some(0), 946684801),
        "Changed publish date on comic #5 from \"1970-01-01T00:00:00Z\" to \"2000-01-01T00:00:01Z\""
    );
}

#[test]
fn comic_patch_lists_changed_fields() {
    let body = PatchComicBody {
        title: Some("New".to_string()),
        is_guest_comic: Some(true),
        has_no_cast: Some(false),
        ..empty_comic_patch()
    };
    let plan = plan_comic_patch(ComicId::from(7), &body, &old_values());
    assert_eq!(plan.steps.len(), 3);
    assert_eq!(plan.steps[0].update, ComicUpdate::Title("New".to_string()));
    assert_eq!(plan.steps[0].log, "Changed title on comic #7 from \"Old\" to \"New\"");
    assert_eq!(plan.steps[1].update, ComicUpdate::Flag(FlagType::IsGuestComic, true));
    assert_eq!(plan.steps[2].log, "Set comic #7 to have cast");
    assert_eq!(
        plan.message,
        "Updated title, isGuestComic flag and hasNoCast flag for comic 7"
    );
}

#[test]
fn comic_patch_with_publish_date() {
    let body = PatchComicBody {
        publish_date: Some(PublishDatePatch { publish_date: 946684800, is_accurate_publish_date: true }),
        ..empty_comic_patch()
    };
    let plan = plan_comic_patch(ComicId::from(7), &body, &old_values());
    assert_eq!(plan.steps.len(), 1);
    assert_eq!(plan.steps[0].log, "Set publish date on comic #7 to \"2000-01-01T00:00:00Z\"");
    assert_eq!(plan.message, "Updated publish date for comic 7");
}

#[test]
fn adding_items_clears_flags_and_lists_items() {
    let mut progress = AddItemsProgress::new(ComicFlags {
        has_no_cast: 1,
        has_no_location: 0,
        has_no_storyline: 1,
    });
    assert_eq!(progress.step(ItemType::Cast, "cast", "Marten", false), Some(FlagType::HasNoCast));
    assert_eq!(progress.step(ItemType::Cast, "cast", "Faye", false), None);
    assert_eq!(progress.step(ItemType::Location, "location", "Coffee of Doom", true), None);
    assert_eq!(progress.step(ItemType::Location, "location", "Bar", false), None);
    assert_eq!(progress.flags.has_no_cast, 0);
    assert_eq!(progress.flags.has_no_storyline, 1);
    assert_eq!(
        progress.summary(9),
        "Items cast Marten, cast Faye and location Bar added to comic 9"
    );
}

#[test]
fn adding_only_known_items_says_so() {
    let mut progress =
        AddItemsProgress::new(ComicFlags { has_no_cast: 0, has_no_location: 0, has_no_storyline: 0 });
    assert_eq!(progress.step(ItemType::Cast, "cast", "Marten", true), None);
    assert_eq!(progress.summary(9), "No new items added to comic 9; they were all already added");
}

#[test]
fn item_log_lines() {
    assert_eq!(created_item_action(ItemType::Storyline, 4, "Arc"), "Created storyline #4 (Arc)");
    assert_eq!(start_comic_action(4, 100), "Changed startComicId of item #4 to 100");
    assert_eq!(added_item_action("cast", 2, "Faye", 100), "Added cast #2 (Faye) to comic #100");
}

fn stored_item() -> Item {
    Item {
        id: 3,
        short_name: "".to_string(),
        name: "Faye".to_string(),
        item_type: "cast".to_string(),
        color_blue: 0x30,
        color_green: 0x20,
        color_red: 0x10,
        primary_image: None,
        start_comic_id: Some(10),
        end_comic_id: None,
    }
}

fn empty_item_patch() -> PatchItemBody {
    PatchItemBody {
        token: "t".to_string(),
        name: None,
        short_name: None,
        color: None,
        item_type: None,
        start_comic_id: None,
        end_comic_id: None,
    }
}

#[test]
fn item_patch_refuses_an_end_before_the_start() {
    let body = PatchItemBody { end_comic_id: Some(Some(ComicId::from(5))), ..empty_item_patch() };
    let err = plan_item_patch(3, &stored_item(), &body).unwrap_err();
    assert_eq!(err, PatchItemError::EndBeforeStart { start: 10, end: 5 });
    assert_eq!(err.message(), "endComicId (5) cannot be before startComicId (10)");
}

#[test]
fn item_patch_refuses_a_bad_color() {
    let body = PatchItemBody { color: Some("12zz56".to_string()), ..empty_item_patch() };
    let err = plan_item_patch(3, &stored_item(), &body).unwrap_err();
    assert_eq!(err, PatchItemError::InvalidColor(ColorParseError::InvalidGreen));
}

#[test]
fn item_patch_plans_changes_in_order() {
    let body = PatchItemBody {
        short_name: Some("F".to_string()),
        color: Some("#aabbcc".to_string()),
        item_type: Some(ItemType::Location),
        end_comic_id: Some(None),
        ..empty_item_patch()
    };
    let plan = plan_item_patch(3, &stored_item(), &body).unwrap();
    assert_eq!(plan.steps.len(), 4);
    assert_eq!(plan.steps[0].update, ItemUpdate::ShortName("F".to_string()));
    assert_eq!(plan.steps[0].log, "Set shortName of cast #3 to \"F\"");
    assert_eq!(plan.steps[1].update, ItemUpdate::Color(ItemColor(0xaa, 0xbb, 0xcc)));
    assert_eq!(plan.steps[1].log, "Changed color of cast #3 from \"102030\" to \"aabbcc\"");
    assert_eq!(plan.steps[2].log, "Changed type of item #3 from \"cast\" to \"location\"");
    assert_eq!(plan.steps[3].update, ItemUpdate::EndComic(None));
    assert_eq!(plan.steps[3].log, "Set item #3 to ongoing (no endComicId)");
    assert_eq!(plan.message, "Updated short name, color, type and end comic for location 3 (Faye)");
}

#[test]
fn item_patch_renames_and_moves_the_end() {
    let body = PatchItemBody {
        name: Some("Faye W.".to_string()),
        end_comic_id: Some(Some(ComicId::from(12))),
        ..empty_item_patch()
    };
    let plan = plan_item_patch(3, &stored_item(), &body).unwrap();
    assert_eq!(plan.steps[0].log, "Changed name of cast #3 from \"Faye\" to \"Faye W.\"");
    assert_eq!(plan.steps[1].log, "Changed endComicId of item #3 to 12");
    assert_eq!(plan.message, "Updated name and end comic for cast 3 (Faye W.)");
}

#[test]
fn adding_a_new_storyline_plans_every_write() {
    let flags = ComicFlags { has_no_cast: 0, has_no_location: 0, has_no_storyline: 1 };
    let plan = plan_add_item(100, 7, ItemType::Storyline, "Arc", true, flags);
    assert_eq!(plan.created_log.as_deref(), Some("Created storyline #7 (Arc)"));
    assert_eq!(
        plan.start_comic,
        Some((100, "Changed startComicId of item #7 to 100".to_string()))
    );
    assert_eq!(
        plan.flag,
        Some((FlagType::HasNoStoryline, "Set comic #100 to have storylines".to_string()))
    );
    assert_eq!(plan.added_log, "Added storyline #7 (Arc) to comic #100");
}

#[test]
fn adding_an_existing_cast_member_plans_only_the_occurrence() {
    let flags = ComicFlags { has_no_cast: 0, has_no_location: 1, has_no_storyline: 1 };
    let plan = plan_add_item(100, 2, ItemType::Cast, "Faye", false, flags);
    assert_eq!(plan.created_log, None);
    assert_eq!(plan.start_comic, None);
    assert_eq!(plan.flag, None);
    assert_eq!(plan.added_log, "Added cast #2 (Faye) to comic #100");
}
