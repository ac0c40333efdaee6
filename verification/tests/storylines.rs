use qcext_server::ids::{ComicId, ItemId};
use qcext_server::storylines::{
    active_storyline_summaries, build_segments, group_into_summaries, segment,
    ActiveStorylineOccurrence, StorylineFactSegment,
};

fn occ(item_id: u16, start: u16, end: Option<u16>, comic: Option<u16>) -> ActiveStorylineOccurrence {
    ActiveStorylineOccurrence {
        item_id,
        start_comic_id: start,
        end_comic_id: end,
        occurrence_comic_id: comic,
    }
}

#[test]
fn fully_featured_span_is_one_segment() {
    let segments = build_segments(10, Some(13), 100, &[10, 11, 12]);
    assert_eq!(
        segments,
        vec![StorylineFactSegment {
            from_comic_id: ComicId::from(10),
            to_comic_id: ComicId::from(13),
            featured: true,
        }]
    );
}

#[test]
fn single_gap_between_featured_runs() {
    let segments = build_segments(1, Some(10), 100, &[1, 2, 8, 9]);
    assert_eq!(
        segments,
        vec![
            StorylineFactSegment {
                from_comic_id: ComicId::from(1),
                to_comic_id: ComicId::from(3),
                featured: true,
            },
            StorylineFactSegment {
                from_comic_id: ComicId::from(3),
                to_comic_id: ComicId::from(8),
                featured: false,
            },
            StorylineFactSegment {
                from_comic_id: ComicId::from(8),
                to_comic_id: ComicId::from(10),
                featured: true,
            },
        ]
    );
}

#[test]
fn no_occurrences_is_a_single_gap() {
    let segments = build_segments(5, Some(10), 100, &[]);
    assert_eq!(
        segments,
        vec![StorylineFactSegment {
            from_comic_id: ComicId::from(5),
            to_comic_id: ComicId::from(10),
            featured: false,
        }]
    );
}

#[test]
fn open_ended_uses_latest_comic_id_plus_one_as_right_bound() {
    let segments = build_segments(5, None, 7, &[5, 6, 7]);
    assert_eq!(
        segments,
        vec![StorylineFactSegment {
            from_comic_id: ComicId::from(5),
            to_comic_id: ComicId::from(8),
            featured: true,
        }]
    );
}

#[test]
fn degenerate_span_yields_no_segments() {
    let segments = build_segments(10, Some(10), 100, &[]);
    assert_eq!(segments, Vec::new());
}

#[test]
fn groups_multiple_items_and_drops_null_occurrence_placeholder() {
    let occurrences = vec![
        occ(1, 5, None, Some(5)),
        occ(1, 5, None, Some(6)),
        occ(2, 8, Some(20), None),
    ];

    let groups = group_into_summaries(&occurrences, 100);

    assert_eq!(groups.len(), 2);
    assert_eq!(groups[0].item_id, 1);
    assert_eq!(groups[0].occurrence_comic_ids, vec![5, 6]);
    assert_eq!(groups[1].item_id, 2);
    assert_eq!(groups[1].occurrence_comic_ids, Vec::<u16>::new());
}

#[test]
fn segments_ignore_attachments_outside_the_span() {
    let segments = build_segments(5, Some(8), 100, &[2, 5, 9, 12]);
    assert_eq!(segments, vec![segment(5, 6, true), segment(6, 8, false)]);
}

#[test]
fn open_ended_span_at_the_last_comic_number_saturates() {
    let segments = build_segments(65534, None, 65535, &[65534]);
    assert_eq!(segments, vec![segment(65534, 65535, true)]);
}

#[test]
fn summaries_carry_bounds_and_segments() {
    let occurrences = vec![
        occ(1, 5, None, Some(5)),
        occ(1, 5, None, Some(6)),
        occ(2, 8, Some(10), None),
    ];
    let summaries = active_storyline_summaries(&occurrences, Some(7), 6);
    assert_eq!(summaries.len(), 2);
    assert_eq!(summaries[0].id, ItemId::from(1));
    assert_eq!(summaries[0].start_comic_id, ComicId::from(5));
    assert_eq!(summaries[0].end_comic_id, None);
    assert_eq!(summaries[0].segments, vec![segment(5, 7, true), segment(7, 8, false)]);
    assert_eq!(summaries[1].id, ItemId::from(2));
    assert_eq!(summaries[1].end_comic_id, Some(ComicId::from(10)));
    assert_eq!(summaries[1].segments, vec![segment(8, 10, false)]);
}

#[test]
fn summaries_fall_back_to_the_asked_comic_without_a_latest_one() {
    let occurrences = vec![occ(3, 1, None, Some(2))];
    let summaries = active_storyline_summaries(&occurrences, None, 2);
    assert_eq!(summaries[0].segments, vec![segment(1, 2, false), segment(2, 3, true)]);
}
