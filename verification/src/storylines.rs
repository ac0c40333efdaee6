use vstd::prelude::*;

use crate::ids::{ComicId, ItemId};

verus! {

/// One row of the active-storyline query: a storyline together with one of
/// its attachments (or `None` when the storyline has no attachment in range).
/// The query orders rows by `item_id`, then by `occurrence_comic_id`.
#[derive(Copy, Clone, Debug, PartialEq, Eq)]
pub struct ActiveStorylineOccurrence {
    pub item_id: u16,
    pub start_comic_id: u16,
    pub end_comic_id: Option<u16>,
    pub occurrence_comic_id: Option<u16>,
}

/// The rows of one storyline, gathered together.
#[derive(Clone, Debug, PartialEq, Eq)]
pub struct StorylineGroup {
    pub item_id: u16,
    pub start_comic_id: u16,
    pub end_comic_id: Option<u16>,
    pub occurrence_comic_ids: Vec<u16>,
}

/// A half-open run `[from_comic_id, to_comic_id)` of comics in which a
/// storyline either is (`featured`) or is not attached.
#[derive(Copy, Clone, Debug, PartialEq, Eq, Structural)]
pub struct StorylineFactSegment {
    pub from_comic_id: ComicId,
    pub to_comic_id: ComicId,
    pub featured: bool,
}

/// A storyline active at some comic, with its attachment history as segments.
#[derive(Clone, Debug, PartialEq, Eq)]
pub struct ActiveStorylineSummary {
    pub id: ItemId,
    pub start_comic_id: ComicId,
    pub end_comic_id: Option<ComicId>,
    pub segments: Vec<StorylineFactSegment>,
}

// ---------------------------------------------------------------------------
// Grouping
// ---------------------------------------------------------------------------

/// The attachment comic of a row, as a sequence of zero or one element.
pub open spec fn occurrence_seq(o: ActiveStorylineOccurrence) -> Seq<u16> {
    match o.occurrence_comic_id {
        Some(c) => seq![c],
        None => Seq::empty(),
    }
}

/// Plain model of a group: its fields with the attachment list as a sequence.
pub struct GroupModel {
    pub item_id: u16,
    pub start_comic_id: u16,
    pub end_comic_id: Option<u16>,
    pub occurrence_comic_ids: Seq<u16>,
}

pub open spec fn group_model(g: StorylineGroup) -> GroupModel {
    GroupModel {
        item_id: g.item_id,
        start_comic_id: g.start_comic_id,
        end_comic_id: g.end_comic_id,
        occurrence_comic_ids: g.occurrence_comic_ids@,
    }
}

/// The groups formed from `rows`: consecutive rows with the same `item_id`
/// make one group, which takes its bounds from its first row and collects
/// the attachment comics of all its rows in order.
pub open spec fn grouped(rows: Seq<ActiveStorylineOccurrence>) -> Seq<GroupModel>
    decreases rows.len(),
{
    if rows.len() == 0 {
        Seq::empty()
    } else {
        let prev = grouped(rows.drop_last());
        let row = rows.last();
        if prev.len() > 0 && prev.last().item_id == row.item_id {
            let g = prev.last();
            prev.update(
                prev.len() - 1,
                GroupModel {
                    occurrence_comic_ids: g.occurrence_comic_ids + occurrence_seq(row),
                    ..g
                },
            )
        } else {
            prev.push(
                GroupModel {
                    item_id: row.item_id,
                    start_comic_id: row.start_comic_id,
                    end_comic_id: row.end_comic_id,
                    occurrence_comic_ids: occurrence_seq(row),
                },
            )
        }
    }
}

/// Groups the flat query result by `item_id`: each run of consecutive rows
/// with the same `item_id` becomes one group; rows without an attachment add
/// no attachment comic.
pub fn group_into_summaries(
    occurrences: &[ActiveStorylineOccurrence],
    _latest_comic_id: u16,
) -> (groups: Vec<StorylineGroup>)
    ensures
        groups@.map_values(|g: StorylineGroup| group_model(g)) == grouped(occurrences@),
{
    let mut groups: Vec<StorylineGroup> = Vec::new();
    let n = occurrences.len();
    let mut i: usize = 0;
    while i < n
        invariant
            n == occurrences@.len(),
            i <= n,
            groups@.map_values(|g: StorylineGroup| group_model(g)) == grouped(
                occurrences@.take(i as int),
            ),
        decreases n - i,
    {
        let occurrence = occurrences[i];
        let ghost prev = groups@.map_values(|g: StorylineGroup| group_model(g));
        assert(occurrences@.take(i as int + 1).drop_last() =~= occurrences@.take(i as int));
        assert(occurrences@.take(i as int + 1).last() == occurrence);
        let glen = groups.len();
        if glen > 0 && groups[glen - 1].item_id == occurrence.item_id {
            let mut last = groups.pop().unwrap();
            let ghost old_ids = last.occurrence_comic_ids@;
            if let Some(comic_id) = occurrence.occurrence_comic_id {
                last.occurrence_comic_ids.push(comic_id);
            }
            assert(last.occurrence_comic_ids@ =~= old_ids + occurrence_seq(occurrence));
            groups.push(last);
            assert(groups@.map_values(|g: StorylineGroup| group_model(g)) =~= prev.update(
                prev.len() - 1,
                GroupModel {
                    occurrence_comic_ids: prev.last().occurrence_comic_ids + occurrence_seq(
                        occurrence,
                    ),
                    ..prev.last()
                },
            ));
        } else {
            let mut ids: Vec<u16> = Vec::new();
            if let Some(comic_id) = occurrence.occurrence_comic_id {
                ids.push(comic_id);
            }
            assert(ids@ =~= occurrence_seq(occurrence));
            groups.push(
                StorylineGroup {
                    item_id: occurrence.item_id,
                    start_comic_id: occurrence.start_comic_id,
                    end_comic_id: occurrence.end_comic_id,
                    occurrence_comic_ids: ids,
                },
            );
            assert(groups@.map_values(|g: StorylineGroup| group_model(g)) =~= prev.push(
                GroupModel {
                    item_id: occurrence.item_id,
                    start_comic_id: occurrence.start_comic_id,
                    end_comic_id: occurrence.end_comic_id,
                    occurrence_comic_ids: occurrence_seq(occurrence),
                },
            ));
        }
        i = i + 1;
    }
    assert(occurrences@.take(n as int) =~= occurrences@);
    groups
}

/// Whether the rows come ordered by storyline.
pub open spec fn sorted_by_item(rows: Seq<ActiveStorylineOccurrence>) -> bool {
    forall|i: int, j: int| 0 <= i < j < rows.len() ==> rows[i].item_id <= rows[j].item_id
}

/// Grouping makes at most one group per row, the last group is the last
/// row's storyline, and when the rows come ordered by storyline (as the query
/// returns them) every storyline forms exactly one group: the groups'
/// storylines strictly increase.
pub proof fn lemma_grouped_one_group_per_storyline(rows: Seq<ActiveStorylineOccurrence>)
    ensures
        grouped(rows).len() <= rows.len(),
        rows.len() > 0 ==> grouped(rows).len() > 0 && grouped(rows).last().item_id
            == rows.last().item_id,
        sorted_by_item(rows) ==> forall|i: int, j: int|
            0 <= i < j < grouped(rows).len() ==> (#[trigger] grouped(rows)[i]).item_id
                < (#[trigger] grouped(rows)[j]).item_id,
    decreases rows.len(),
{
    if rows.len() > 0 {
        let prev_rows = rows.drop_last();
        lemma_grouped_one_group_per_storyline(prev_rows);
        let prev = grouped(prev_rows);
        let cur = grouped(rows);
        let row = rows.last();
        assert forall|i: int| 0 <= i < prev.len() - 1 implies #[trigger] cur[i] == prev[i] by {}
        if prev.len() > 0 && prev.last().item_id == row.item_id {
            assert(cur.len() == prev.len());
            assert(cur.last().item_id == prev.last().item_id);
        } else {
            assert(cur.len() == prev.len() + 1);
            if prev.len() > 0 {
                assert(cur[prev.len() - 1] == prev[prev.len() - 1]);
            }
        }
        if sorted_by_item(rows) {
            assert(sorted_by_item(prev_rows)) by {
                assert forall|i: int, j: int| 0 <= i < j < prev_rows.len() implies prev_rows[i].item_id
                    <= prev_rows[j].item_id by {
                    assert(prev_rows[i] == rows[i] && prev_rows[j] == rows[j]);
                }
            }
            if prev.len() > 0 {
                assert(prev_rows.last() == rows[rows.len() - 2]);
                assert(rows.last() == rows[rows.len() - 1]);
                assert(prev.last().item_id <= row.item_id);
            }
            assert forall|i: int, j: int| 0 <= i < j < cur.len() implies (#[trigger] cur[i]).item_id
                < (#[trigger] cur[j]).item_id by {
                if j < prev.len() {
                    assert(cur[i].item_id == prev[i].item_id);
                    assert(cur[j].item_id == prev[j].item_id);
                } else if j == prev.len() {
                    assert(cur[i].item_id == prev[i].item_id);
                    if i < prev.len() - 1 {
                        assert(prev[i].item_id < prev[prev.len() - 1].item_id);
                    }
                }
            }
        }
    }
}

// ---------------------------------------------------------------------------
// Segments
// ---------------------------------------------------------------------------

/// The segment `[from, to)` with the given flag.
pub open spec fn seg(from: int, to: int, featured: bool) -> StorylineFactSegment {
    StorylineFactSegment {
        from_comic_id: ComicId(from as u16),
        to_comic_id: ComicId(to as u16),
        featured,
    }
}

/// The right end of the span: the end comic if there is one, else one past the
/// latest comic (saturating at `u16::MAX`).
pub open spec fn right_bound(end_comic_id: Option<u16>, latest_comic_id: u16) -> int {
    match end_comic_id {
        Some(e) => e as int,
        None => if latest_comic_id < u16::MAX {
            latest_comic_id + 1
        } else {
            u16::MAX as int
        },
    }
}

/// Whether an attachment comic lies in `[start, bound)`.
pub open spec fn in_span(c: u16, start: int, bound: int) -> bool {
    start <= c && c < bound
}

/// The filter that keeps the attachments inside `[start, bound)`.
pub open spec fn span_pred(start: int, bound: int) -> spec_fn(u16) -> bool {
    |c: u16| in_span(c, start, bound)
}

/// One more element of `s` seen by a filter.
pub proof fn lemma_filter_take_step<A>(s: Seq<A>, pred: spec_fn(A) -> bool, j: int)
    requires
        0 <= j < s.len(),
    ensures
        s.take(j + 1).filter(pred) == (if pred(s[j]) {
            s.take(j).filter(pred).push(s[j])
        } else {
            s.take(j).filter(pred)
        }),
{
    reveal(Seq::filter);
    assert(s.take(j + 1).drop_last() =~= s.take(j));
    assert(s.take(j + 1).last() == s[j]);
}

/// The number of leading elements of `rem` that continue the run
/// `cursor, cursor + 1, ...`.
pub open spec fn run_len(rem: Seq<u16>, cursor: int) -> nat
    decreases rem.len(),
{
    if rem.len() > 0 && rem[0] == cursor {
        1 + run_len(rem.drop_first(), cursor + 1)
    } else {
        0
    }
}

/// The termination measure of `rle`.
pub open spec fn rle_measure(cursor: int, rem: Seq<u16>) -> nat {
    2 * rem.len() + (if rem.len() > 0 && rem[0] == cursor {
        0nat
    } else {
        1nat
    })
}

/// The run-length encoding produced from position `cursor` up to `bound`
/// with the attachment comics `rem` still to be consumed: when the next
/// attachment is the cursor, a featured run covers it and every attachment
/// that follows it one comic apart; otherwise a gap reaches up to the next
/// attachment (or to `bound` when there is none).
pub open spec fn rle(cursor: int, bound: int, rem: Seq<u16>) -> Seq<StorylineFactSegment>
    decreases rle_measure(cursor, rem),
{
    if cursor >= bound {
        Seq::empty()
    } else if rem.len() == 0 {
        seq![seg(cursor, bound, false)]
    } else if rem[0] == cursor {
        let k = run_len(rem, cursor);
        proof {
            lemma_run_len_bounds(rem, cursor);
            lemma_skip_measure(rem, cursor, k);
        }
        seq![seg(cursor, cursor + k, true)] + rle(cursor + k, bound, rem.skip(k as int))
    } else {
        seq![seg(cursor, rem[0] as int, false)] + rle(rem[0] as int, bound, rem)
    }
}

/// The segments of a storyline spanning `[start, right_bound)`.
pub open spec fn segments_spec(
    start_comic_id: u16,
    end_comic_id: Option<u16>,
    latest_comic_id: u16,
    occurrence_comic_ids: Seq<u16>,
) -> Seq<StorylineFactSegment> {
    let bound = right_bound(end_comic_id, latest_comic_id);
    if bound <= start_comic_id {
        Seq::empty()
    } else {
        rle(
            start_comic_id as int,
            bound,
            occurrence_comic_ids.filter(span_pred(start_comic_id as int, bound)),
        )
    }
}

pub proof fn lemma_run_len_bounds(rem: Seq<u16>, cursor: int)
    ensures
        run_len(rem, cursor) <= rem.len(),
        rem.len() > 0 && rem[0] == cursor ==> run_len(rem, cursor) >= 1,
        forall|t: int| 0 <= t < run_len(rem, cursor) ==> rem[t] == cursor + t,
        run_len(rem, cursor) < rem.len() ==> rem[run_len(rem, cursor) as int] != cursor
            + run_len(rem, cursor),
    decreases rem.len(),
{
    if rem.len() > 0 && rem[0] == cursor {
        lemma_run_len_bounds(rem.drop_first(), cursor + 1);
        assert forall|t: int| 0 <= t < run_len(rem, cursor) implies rem[t] == cursor + t by {
            if t > 0 {
                assert(rem.drop_first()[t - 1] == rem[t]);
            }
        }
        let k = run_len(rem, cursor);
        if k < rem.len() {
            assert(rem.drop_first()[k - 1] == rem[k as int]);
        }
    }
}

pub proof fn lemma_skip_measure(rem: Seq<u16>, cursor: int, k: nat)
    requires
        rem.len() > 0,
        rem[0] == cursor,
        1 <= k <= rem.len(),
    ensures
        rle_measure(cursor + k, rem.skip(k as int)) < rle_measure(cursor, rem),
{
}

/// Stepping a run: one element of the run consumed.
proof fn lemma_run_len_step(rem: Seq<u16>, i: int, cursor: int)
    requires
        0 <= i < rem.len(),
        rem[i] == cursor,
    ensures
        run_len(rem.skip(i), cursor) == 1 + run_len(rem.skip(i + 1), cursor + 1),
{
    assert(rem.skip(i).drop_first() =~= rem.skip(i + 1));
}

/// Whether a sequence of comic ids is strictly increasing.
pub open spec fn strictly_increasing(s: Seq<u16>) -> bool {
    forall|i: int, j: int| 0 <= i < j < s.len() ==> s[i] < s[j]
}

/// The start of a segment as a number.
pub open spec fn seg_from(g: StorylineFactSegment) -> int {
    g.from_comic_id.0 as int
}

/// The end of a segment as a number.
pub open spec fn seg_to(g: StorylineFactSegment) -> int {
    g.to_comic_id.0 as int
}

/// The shape of a well-formed encoding of `[from, to)` against the set of
/// attached comics `attached`: the segments are non-empty, follow one another
/// without gap or overlap from `from` to `to`, a comic lies in a featured
/// segment exactly when it is attached, and neighbouring segments differ in
/// their flag (so every run is maximal).
pub open spec fn is_span_encoding(
    segs: Seq<StorylineFactSegment>,
    from: int,
    to: int,
    attached: spec_fn(int) -> bool,
) -> bool {
    &&& segs.len() > 0
    &&& seg_from(segs[0]) == from
    &&& seg_to(segs.last()) == to
    &&& forall|i: int| 0 <= i < segs.len() ==> seg_from(#[trigger] segs[i]) < seg_to(segs[i])
    &&& forall|i: int|
        0 <= i < segs.len() - 1 ==> seg_to(#[trigger] segs[i]) == seg_from(segs[i + 1])
    &&& forall|i: int|
        0 <= i < segs.len() - 1 ==> (#[trigger] segs[i]).featured != segs[i + 1].featured
    &&& forall|i: int, c: int|
        0 <= i < segs.len() && seg_from(#[trigger] segs[i]) <= c < seg_to(segs[i]) ==> (
        segs[i].featured <==> #[trigger] attached(c))
}

/// Membership of a comic among the attachments still to be consumed.
pub open spec fn attached_in(rem: Seq<u16>) -> spec_fn(int) -> bool {
    |c: int| exists|t: int| 0 <= t < rem.len() && rem[t] == c
}

/// Prepending a segment to an encoding of the rest of a span.
proof fn lemma_prepend_segment(
    head: StorylineFactSegment,
    tail: Seq<StorylineFactSegment>,
    from: int,
    mid: int,
    to: int,
    att: spec_fn(int) -> bool,
    att2: spec_fn(int) -> bool,
)
    requires
        seg_from(head) == from,
        seg_to(head) == mid,
        from < mid,
        is_span_encoding(tail, mid, to, att2),
        head.featured != tail[0].featured,
        forall|c: int| from <= c < mid ==> (#[trigger] att(c) == head.featured),
        forall|c: int| mid <= c < to ==> (#[trigger] att(c) == att2(c)),
    ensures
        is_span_encoding(seq![head] + tail, from, to, att),
{
    let r = seq![head] + tail;
    lemma_segment_inside(tail, mid, to, att2, 0);
    assert forall|i: int| 0 <= i < r.len() implies seg_from(#[trigger] r[i]) < seg_to(r[i]) by {
        if i > 0 {
            assert(r[i] == tail[i - 1]);
        }
    }
    assert forall|i: int| 0 <= i < r.len() - 1 implies seg_to(#[trigger] r[i]) == seg_from(
        r[i + 1],
    ) by {
        assert(r[i + 1] == tail[i]);
        if i > 0 {
            assert(r[i] == tail[i - 1]);
        }
    }
    assert forall|i: int| 0 <= i < r.len() - 1 implies (#[trigger] r[i]).featured != r[i
        + 1].featured by {
        assert(r[i + 1] == tail[i]);
        if i > 0 {
            assert(r[i] == tail[i - 1]);
        }
    }
    assert forall|i: int, c: int|
        0 <= i < r.len() && seg_from(#[trigger] r[i]) <= c < seg_to(r[i]) implies (r[i].featured
        <==> #[trigger] att(c)) by {
        if i > 0 {
            assert(r[i] == tail[i - 1]);
            lemma_segment_inside(tail, mid, to, att2, i - 1);
            assert(att2(c) == att(c));
        }
    }
    assert(r.last() == tail.last());
}

proof fn lemma_rle_encodes(cursor: int, bound: int, rem: Seq<u16>)
    requires
        0 <= cursor < bound <= u16::MAX,
        strictly_increasing(rem),
        forall|t: int| 0 <= t < rem.len() ==> cursor <= #[trigger] rem[t] < bound,
    ensures
        is_span_encoding(rle(cursor, bound, rem), cursor, bound, attached_in(rem)),
        rle(cursor, bound, rem)[0].featured == (rem.len() > 0 && rem[0] == cursor),
    decreases rle_measure(cursor, rem),
{
    let r = rle(cursor, bound, rem);
    let att = attached_in(rem);
    if rem.len() == 0 {
        assert(r =~= seq![seg(cursor, bound, false)]);
        assert forall|i: int, c: int|
            0 <= i < r.len() && seg_from(#[trigger] r[i]) <= c < seg_to(r[i]) implies (
            r[i].featured <==> #[trigger] att(c)) by {}
    } else if rem[0] == cursor {
        lemma_rle_run(cursor, bound, rem);
    } else {
        let head = seg(cursor, rem[0] as int, false);
        let tail = rle(rem[0] as int, bound, rem);
        assert(r == seq![head] + tail);
        assert(cursor < rem[0]);
        lemma_rle_encodes(rem[0] as int, bound, rem);
        assert forall|c: int| cursor <= c < rem[0] implies #[trigger] att(c) == head.featured by {
            if att(c) {
                let t = choose|t: int| 0 <= t < rem.len() && rem[t] == c;
                if t > 0 {
                    assert(rem[0] < rem[t]);
                }
            }
        }
        lemma_prepend_segment(head, tail, cursor, rem[0] as int, bound, att, att);
    }
}

/// The featured-run case of `lemma_rle_encodes`.
proof fn lemma_rle_run(cursor: int, bound: int, rem: Seq<u16>)
    requires
        0 <= cursor < bound <= u16::MAX,
        strictly_increasing(rem),
        forall|t: int| 0 <= t < rem.len() ==> cursor <= #[trigger] rem[t] < bound,
        rem.len() > 0,
        rem[0] == cursor,
    ensures
        is_span_encoding(rle(cursor, bound, rem), cursor, bound, attached_in(rem)),
        rle(cursor, bound, rem)[0].featured,
    decreases rle_measure(cursor, rem), 0int,
{
    let r = rle(cursor, bound, rem);
    let att = attached_in(rem);
    let k = run_len(rem, cursor);
    lemma_run_len_bounds(rem, cursor);
    lemma_skip_measure(rem, cursor, k);
    let head = seg(cursor, cursor + k, true);
    let rest = rem.skip(k as int);
    let tail = rle(cursor + k, bound, rest);
    assert(r == seq![head] + tail);
    assert(rem[k - 1] == cursor + k - 1);
    assert(cursor + k <= bound);
    assert forall|c: int| cursor <= c < cursor + k implies #[trigger] att(c) == head.featured by {
        assert(rem[c - cursor] == c);
    }
    if cursor + k >= bound {
        assert(tail =~= Seq::<StorylineFactSegment>::empty());
        assert(r =~= seq![head]);
        assert forall|i: int, c: int|
            0 <= i < r.len() && seg_from(#[trigger] r[i]) <= c < seg_to(r[i]) implies (
            r[i].featured <==> #[trigger] att(c)) by {
            assert(cursor <= c < cursor + k);
        }
    } else {
        assert forall|t: int| 0 <= t < rest.len() implies cursor + k <= #[trigger] rest[t]
            < bound by {
            assert(rest[t] == rem[t + k]);
            assert(rem[k - 1] < rem[t + k]);
        }
        assert(strictly_increasing(rest)) by {
            assert forall|i: int, j: int| 0 <= i < j < rest.len() implies rest[i] < rest[j] by {
                assert(rest[i] == rem[i + k]);
                assert(rest[j] == rem[j + k]);
            }
        }
        lemma_rle_encodes(cursor + k, bound, rest);
        if rest.len() > 0 {
            assert(rest[0] == rem[k as int]);
        }
        let att2 = attached_in(rest);
        assert forall|c: int| cursor + k <= c < bound implies (#[trigger] att(c) == att2(c)) by {
            if att(c) {
                let t = choose|t: int| 0 <= t < rem.len() && rem[t] == c;
                if t < k {
                    assert(rem[t] == cursor + t);
                } else {
                    assert(rest[t - k] == rem[t]);
                }
            }
            if att2(c) {
                let t = choose|t: int| 0 <= t < rest.len() && rest[t] == c;
                assert(rem[t + k] == rest[t]);
            }
        }
        lemma_prepend_segment(head, tail, cursor, cursor + k, bound, att, att2);
    }
}

/// Law of the storyline segments: when the attachment comics are given in
/// strictly increasing order, the segments are empty if the span
/// `[start_comic_id, right_bound)` is empty, and otherwise cover the span
/// contiguously from its first comic to its right bound, each segment
/// non-empty, a comic of the span lying in a featured segment exactly when it
/// is one of the attachment comics, and neighbouring segments alternating
/// between featured and gap.
pub proof fn lemma_segments_cover_span(
    start_comic_id: u16,
    end_comic_id: Option<u16>,
    latest_comic_id: u16,
    occurrence_comic_ids: Seq<u16>,
)
    requires
        strictly_increasing(occurrence_comic_ids),
    ensures
        ({
            let bound = right_bound(end_comic_id, latest_comic_id);
            let segs = segments_spec(
                start_comic_id,
                end_comic_id,
                latest_comic_id,
                occurrence_comic_ids,
            );
            &&& bound <= start_comic_id ==> segs.len() == 0
            &&& start_comic_id < bound ==> is_span_encoding(
                segs,
                start_comic_id as int,
                bound,
                |c: int| occurrence_comic_ids.contains(c as u16) && 0 <= c <= u16::MAX,
            )
        }),
{
    let bound = right_bound(end_comic_id, latest_comic_id);
    if start_comic_id < bound {
        let pred = span_pred(start_comic_id as int, bound);
        let rem = occurrence_comic_ids.filter(pred);
        lemma_filter_all_in_span(occurrence_comic_ids, pred, start_comic_id as int, bound);
        lemma_filter_keeps_increasing(occurrence_comic_ids, pred);
        lemma_rle_encodes(start_comic_id as int, bound, rem);
        let segs = rle(start_comic_id as int, bound, rem);
        let att = attached_in(rem);
        let target = |c: int| occurrence_comic_ids.contains(c as u16) && 0 <= c <= u16::MAX;
        assert forall|c: int| start_comic_id <= c < bound implies (#[trigger] att(c) <==> target(c)) by {
            if att(c) {
                let t = choose|t: int| 0 <= t < rem.len() && rem[t] == c;
                occurrence_comic_ids.lemma_filter_contains_rev(pred, rem[t]);
            }
            if target(c) {
                let t = choose|t: int|
                    0 <= t < occurrence_comic_ids.len() && occurrence_comic_ids[t] == c as u16;
                occurrence_comic_ids.lemma_filter_contains(pred, t);
                let u = choose|u: int| 0 <= u < rem.len() && rem[u] == occurrence_comic_ids[t];
                assert(rem[u] == c);
            }
        }
        assert forall|i: int, c: int|
            0 <= i < segs.len() && seg_from(#[trigger] segs[i]) <= c < seg_to(segs[i]) implies (
            segs[i].featured <==> #[trigger] target(c)) by {
            // Every segment lies inside the span.
            lemma_segment_inside(segs, start_comic_id as int, bound, att, i);
            assert(att(c) == target(c));
        }
    }
}

/// A segment of a span encoding lies inside the span.
proof fn lemma_segment_inside(
    segs: Seq<StorylineFactSegment>,
    from: int,
    to: int,
    attached: spec_fn(int) -> bool,
    i: int,
)
    requires
        is_span_encoding(segs, from, to, attached),
        0 <= i < segs.len(),
    ensures
        from <= seg_from(segs[i]),
        seg_to(segs[i]) <= to,
    decreases segs.len() - i,
{
    lemma_segment_after_start(segs, from, to, attached, i);
    if i < segs.len() - 1 {
        lemma_segment_inside(segs, from, to, attached, i + 1);
    }
}

proof fn lemma_segment_after_start(
    segs: Seq<StorylineFactSegment>,
    from: int,
    to: int,
    attached: spec_fn(int) -> bool,
    i: int,
)
    requires
        is_span_encoding(segs, from, to, attached),
        0 <= i < segs.len(),
    ensures
        from <= seg_from(segs[i]),
    decreases i,
{
    if i > 0 {
        lemma_segment_after_start(segs, from, to, attached, i - 1);
        assert(seg_from(segs[i - 1]) < seg_to(segs[i - 1]));
    }
}

/// Filtering keeps a strictly increasing order.
proof fn lemma_filter_keeps_increasing(s: Seq<u16>, pred: spec_fn(u16) -> bool)
    requires
        strictly_increasing(s),
    ensures
        strictly_increasing(s.filter(pred)),
        forall|t: int|
            0 <= t < s.filter(pred).len() ==> exists|u: int|
                0 <= u < s.len() && s[u] == #[trigger] s.filter(pred)[t],
    decreases s.len(),
{
    reveal(Seq::filter);
    if s.len() > 0 {
        let prev = s.drop_last();
        assert(strictly_increasing(prev));
        lemma_filter_keeps_increasing(prev, pred);
        let f = s.filter(pred);
        let pf = prev.filter(pred);
        assert forall|t: int| 0 <= t < f.len() implies exists|u: int|
            0 <= u < s.len() && s[u] == #[trigger] f[t] by {
            if t < pf.len() {
                assert(f[t] == pf[t]);
                let u = choose|u: int| 0 <= u < prev.len() && prev[u] == pf[t];
                assert(s[u] == f[t]);
            } else {
                assert(f[t] == s.last());
                assert(s[s.len() - 1] == f[t]);
            }
        }
        if pred(s.last()) {
            assert forall|i: int, j: int| 0 <= i < j < f.len() implies f[i] < f[j] by {
                if j < pf.len() {
                    assert(f[i] == pf[i]);
                    assert(f[j] == pf[j]);
                } else {
                    assert(f[i] == pf[i]);
                    let u = choose|u: int| 0 <= u < prev.len() && prev[u] == pf[i];
                    assert(s[u] < s[s.len() - 1]);
                }
            }
        }
    }
}

/// A half-open segment in executable form.
pub fn segment(from_comic_id: u16, to_comic_id: u16, featured: bool) -> (r: StorylineFactSegment)
    ensures
        r == seg(from_comic_id as int, to_comic_id as int, featured),
{
    StorylineFactSegment {
        from_comic_id: ComicId(from_comic_id),
        to_comic_id: ComicId(to_comic_id),
        featured,
    }
}

/// Builds a run-length encoding of featured/gap segments spanning
/// `[start_comic_id, right_bound)`, where `right_bound` is `end_comic_id` if
/// set, or one past `latest_comic_id` otherwise.
pub fn build_segments(
    start_comic_id: u16,
    end_comic_id: Option<u16>,
    latest_comic_id: u16,
    occurrence_comic_ids: &[u16],
) -> (segments: Vec<StorylineFactSegment>)
    ensures
        segments@ == segments_spec(
            start_comic_id,
            end_comic_id,
            latest_comic_id,
            occurrence_comic_ids@,
        ),
{
    let right_bound: u16 = match end_comic_id {
        Some(e) => e,
        None => latest_comic_id.saturating_add(1),
    };
    if right_bound <= start_comic_id {
        return Vec::new();
    }
    let ghost bound = right_bound as int;
    let ghost pred = span_pred(start_comic_id as int, bound);
    // The attachments inside the span, in their original order.
    let mut remaining: Vec<u16> = Vec::new();
    let n = occurrence_comic_ids.len();
    let mut j: usize = 0;
    while j < n
        invariant
            n == occurrence_comic_ids@.len(),
            j <= n,
            bound == right_bound,
            pred == span_pred(start_comic_id as int, bound),
            remaining@ == occurrence_comic_ids@.take(j as int).filter(pred),
        decreases n - j,
    {
        let c = occurrence_comic_ids[j];
        proof {
            lemma_filter_take_step(occurrence_comic_ids@, pred, j as int);
        }
        if c >= start_comic_id && c < right_bound {
            remaining.push(c);
        }
        j = j + 1;
    }
    assert(occurrence_comic_ids@.take(n as int) =~= occurrence_comic_ids@);
    let ghost all = remaining@;
    proof {
        lemma_filter_all_in_span(occurrence_comic_ids@, pred, start_comic_id as int, bound);
    }

    let mut segments: Vec<StorylineFactSegment> = Vec::new();
    let mut cursor: u16 = start_comic_id;
    let mut i: usize = 0;
    let len = remaining.len();
    assert(all.skip(0) =~= all);
    assert(segments@ + rle(cursor as int, bound, all) =~= rle(cursor as int, bound, all));
    while cursor < right_bound
        invariant
            len == remaining@.len(),
            all == remaining@,
            i <= len,
            bound == right_bound,
            forall|t: int| 0 <= t < len ==> #[trigger] remaining@[t] < right_bound,
            segments@ + rle(cursor as int, bound, all.skip(i as int)) == rle(
                start_comic_id as int,
                bound,
                all,
            ),
        decreases rle_measure(cursor as int, all.skip(i as int)) + (if cursor < right_bound {
            1int
        } else {
            0int
        }),
    {
        if i < len && remaining[i] == cursor {
            let from = cursor;
            let ghost i0 = i as int;
            proof {
                lemma_run_len_bounds(all.skip(i0), from as int);
            }
            while i < len && remaining[i] == cursor
                invariant
                    len == remaining@.len(),
                    all == remaining@,
                    i0 <= i <= len,
                    from <= cursor,
                    cursor as int == from as int + (i - i0),
                    forall|t: int| 0 <= t < len ==> #[trigger] remaining@[t] < right_bound,
                    cursor <= right_bound,
                    run_len(all.skip(i0), from as int) == (i - i0) + run_len(
                        all.skip(i as int),
                        cursor as int,
                    ),
                decreases len - i,
            {
                proof {
                    lemma_run_len_step(all, i as int, cursor as int);
                }
                i = i + 1;
                cursor = cursor + 1;
            }
            assert(run_len(all.skip(i as int), cursor as int) == 0);
            proof {
                assert(all.skip(i0).skip(i - i0) =~= all.skip(i as int));
            }
            segments.push(segment(from, cursor, true));
            assert(rle(from as int, bound, all.skip(i0)) == seq![
                seg(from as int, cursor as int, true),
            ] + rle(cursor as int, bound, all.skip(i as int)));
        } else {
            let to: u16 = if i < len {
                remaining[i]
            } else {
                right_bound
            };
            proof {
                if i < len {
                    assert(all.skip(i as int)[0] == remaining@[i as int]);
                }
            }
            segments.push(segment(cursor, to, false));
            cursor = to;
        }
        assert(segments@.drop_last() + seq![segments@.last()] =~= segments@);
    }
    proof {
        assert(segments@ + Seq::<StorylineFactSegment>::empty() =~= segments@);
    }
    segments
}

/// Everything kept by the span filter lies in the span.
proof fn lemma_filter_all_in_span(s: Seq<u16>, pred: spec_fn(u16) -> bool, start: int, bound: int)
    requires
        pred == span_pred(start, bound),
    ensures
        forall|t: int|
            0 <= t < s.filter(pred).len() ==> in_span(#[trigger] s.filter(pred)[t], start, bound),
{
    assert forall|t: int| 0 <= t < s.filter(pred).len() implies in_span(
        #[trigger] s.filter(pred)[t],
        start,
        bound,
    ) by {
        s.lemma_filter_pred(pred, t);
    }
}

// ---------------------------------------------------------------------------
// Summaries
// ---------------------------------------------------------------------------

/// The comic up to which open-ended storylines reach: the latest comic when
/// one is known, else the comic asked about.
pub open spec fn reach_comic_id(latest_comic_id: Option<u16>, comic_id: u16) -> u16 {
    match latest_comic_id {
        Some(l) => l,
        None => comic_id,
    }
}

/// An optional comic number as an optional comic id.
pub open spec fn comic_of(e: Option<u16>) -> Option<ComicId> {
    match e {
        Some(c) => Some(ComicId(c)),
        None => None,
    }
}

/// Summarizes the storylines active at `comic_id` from the rows of the
/// active-storyline query: one summary per group of rows (see `grouped`), in
/// order, with the group's storyline and bounds and the segments of its
/// attachments up to the latest comic (the comic asked about when none is
/// known).
pub fn active_storyline_summaries(
    occurrences: &[ActiveStorylineOccurrence],
    latest_comic_id: Option<u16>,
    comic_id: u16,
) -> (r: Vec<ActiveStorylineSummary>)
    ensures
        r@.len() == grouped(occurrences@).len(),
        forall|i: int|
            #![trigger r@[i]]
            0 <= i < r@.len() ==> {
                let g = grouped(occurrences@)[i];
                let reach = reach_comic_id(latest_comic_id, comic_id);
                &&& r@[i].id == ItemId(g.item_id)
                &&& r@[i].start_comic_id == ComicId(g.start_comic_id)
                &&& r@[i].end_comic_id == comic_of(g.end_comic_id)
                &&& r@[i].segments@ == segments_spec(
                    g.start_comic_id,
                    g.end_comic_id,
                    reach,
                    g.occurrence_comic_ids,
                )
            },
{
    let reach = match latest_comic_id {
        Some(l) => l,
        None => comic_id,
    };
    let groups = group_into_summaries(occurrences, reach);
    let ghost gm = grouped(occurrences@);
    let mut out: Vec<ActiveStorylineSummary> = Vec::new();
    let n = groups.len();
    let mut i: usize = 0;
    while i < n
        invariant
            n == groups@.len(),
            i <= n,
            reach == reach_comic_id(latest_comic_id, comic_id),
            gm == grouped(occurrences@),
            groups@.map_values(|g: StorylineGroup| group_model(g)) == gm,
            out@.len() == i,
            forall|k: int|
                #![trigger out@[k]]
                0 <= k < i ==> {
                    let g = gm[k];
                    &&& out@[k].id == ItemId(g.item_id)
                    &&& out@[k].start_comic_id == ComicId(g.start_comic_id)
                    &&& out@[k].end_comic_id == comic_of(g.end_comic_id)
                    &&& out@[k].segments@ == segments_spec(
                        g.start_comic_id,
                        g.end_comic_id,
                        reach,
                        g.occurrence_comic_ids,
                    )
                },
        decreases n - i,
    {
        let group = &groups[i];
        assert(group_model(*group) == gm[i as int]);
        let segments = build_segments(
            group.start_comic_id,
            group.end_comic_id,
            reach,
            group.occurrence_comic_ids.as_slice(),
        );
        let end_comic_id = match group.end_comic_id {
            Some(e) => Some(ComicId(e)),
            None => None,
        };
        out.push(
            ActiveStorylineSummary {
                id: ItemId(group.item_id),
                start_comic_id: ComicId(group.start_comic_id),
                end_comic_id,
                segments,
            },
        );
        i = i + 1;
    }
    out
}

} // verus!
