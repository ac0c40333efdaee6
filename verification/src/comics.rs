use std::collections::HashSet;

use rand::Rng;

use vstd::prelude::*;

use crate::ids::ComicId;
use crate::image_type::{image_type_code, ImageType};
use crate::navigation::{comic_opt, EditorData, UnhydratedItemNavigationData};

verus! {

/// Which comics a reader leaves out.
#[derive(Copy, Clone, Debug, PartialEq, Eq, Structural)]
pub enum Exclusion {
    Guest,
    NonCanon,
}

/// Whether to list every item with a comic.
#[derive(Copy, Clone, Debug, PartialEq, Eq, Structural)]
pub enum Inclusion {
    All,
}

/// How a client asks the list of all items to be sorted.
#[derive(Copy, Clone, Debug, PartialEq, Eq, Structural)]
pub enum Sorting {
    ByCount,
    ByLastAppearance,
}

/// The guest/non-canon filter values for an exclusion: `Some(false)` keeps
/// only comics without the flag, `None` does not filter on it.
pub open spec fn filter_options(exclude: Option<Exclusion>) -> (Option<bool>, Option<bool>) {
    match exclude {
        None => (None, None),
        Some(Exclusion::Guest) => (Some(false), None),
        Some(Exclusion::NonCanon) => (None, Some(false)),
    }
}

/// Turns a reader's exclusion into the guest and non-canon filter values.
pub fn exclusion_to_filter_options(exclude: Option<Exclusion>) -> (r: (Option<bool>, Option<bool>))
    ensures
        r == filter_options(exclude),
{
    match exclude {
        None => (None, None),
        Some(Exclusion::Guest) => (Some(false), None),
        Some(Exclusion::NonCanon) => (None, Some(false)),
    }
}

/// The listing of excluded comics was asked without saying which.
#[derive(Copy, Clone, Debug, PartialEq, Eq, Structural)]
pub struct MissingExclusion;

impl MissingExclusion {
    pub fn message(&self) -> (r: &'static str)
        ensures
            r@ == "exclusion parameter must be set to either `guest` or `non-canon`"@,
    {
        "exclusion parameter must be set to either `guest` or `non-canon`"
    }
}

/// The filter values that keep only the comics an exclusion leaves out.
pub open spec fn excluded_options(exclusion: Exclusion) -> (Option<bool>, Option<bool>) {
    match exclusion {
        Exclusion::Guest => (Some(true), None),
        Exclusion::NonCanon => (None, Some(true)),
    }
}

/// Whether a comic with the given flags passes filter values (an absent value
/// does not filter).
pub open spec fn passes(options: (Option<bool>, Option<bool>), guest: bool, non_canon: bool) -> bool {
    &&& (options.0 matches Some(g) ==> g == guest)
    &&& (options.1 matches Some(n) ==> n == non_canon)
}

/// Law: for each exclusion, every comic is in exactly one of the two listings:
/// the listing without the excluded comics, or the listing of them.
pub proof fn lemma_excluded_listing_complements(exclusion: Exclusion, guest: bool, non_canon: bool)
    ensures
        passes(filter_options(Some(exclusion)), guest, non_canon) != passes(
            excluded_options(exclusion),
            guest,
            non_canon,
        ),
{
}

/// The filter values that list only the excluded comics: `Some(true)` keeps
/// only comics with the flag; an absent exclusion is refused.
pub fn excluded_filter_options(exclusion: Option<Exclusion>) -> (r: Result<
    (Option<bool>, Option<bool>),
    MissingExclusion,
>)
    ensures
        match exclusion {
            None => r == Err::<(Option<bool>, Option<bool>), MissingExclusion>(MissingExclusion),
            Some(e) => r == Ok::<(Option<bool>, Option<bool>), MissingExclusion>(
                excluded_options(e),
            ),
        },
{
    match exclusion {
        None => Err(MissingExclusion),
        Some(Exclusion::Guest) => Ok((Some(true), None)),
        Some(Exclusion::NonCanon) => Ok((None, Some(true))),
    }
}

/// The navigation sorting asked by a client; counting order by default.
pub fn navigation_sorting(sorting: Option<Sorting>) -> (r: crate::navigation::ItemNavigationDataSorting)
    ensures
        r == (if sorting == Some(Sorting::ByLastAppearance) {
            crate::navigation::ItemNavigationDataSorting::ByLastAppearance
        } else {
            crate::navigation::ItemNavigationDataSorting::ByCount
        }),
{
    match sorting {
        Some(Sorting::ByLastAppearance) => crate::navigation::ItemNavigationDataSorting::ByLastAppearance,
        _ => crate::navigation::ItemNavigationDataSorting::ByCount,
    }
}

// ---------------------------------------------------------------------------
// Comics containing every given item
// ---------------------------------------------------------------------------

/// The comics that appear in every list; none when there are no lists.
pub open spec fn common_comics(appearances: Seq<Seq<u16>>) -> Set<u16> {
    if appearances.len() == 0 {
        Set::empty()
    } else {
        Set::new(
            |c: u16|
                forall|t: int| 0 <= t < appearances.len() ==> #[trigger] appearances[t].contains(c),
        )
    }
}

fn seq_contains(v: &Vec<u16>, c: u16) -> (r: bool)
    ensures
        r == v@.contains(c),
{
    let n = v.len();
    let mut i: usize = 0;
    while i < n
        invariant
            n == v@.len(),
            i <= n,
            forall|t: int| 0 <= t < i ==> v@[t] != c,
        decreases n - i,
    {
        if v[i] == c {
            return true;
        }
        i = i + 1;
    }
    false
}

/// The comics in which every one of the given items appears, from the
/// comics of each item; no items give no comics.
pub fn containing_items(appearances: &Vec<Vec<u16>>) -> (r: HashSet<u16>)
    ensures
        r@ == common_comics(appearances@.map_values(|v: Vec<u16>| v@)),
{
    broadcast use vstd::std_specs::hash::group_hash_axioms;

    let ghost lists = appearances@.map_values(|v: Vec<u16>| v@);
    let mut result: HashSet<u16> = HashSet::new();
    let n = appearances.len();
    if n == 0 {
        assert(result@ =~= common_comics(lists));
        return result;
    }
    let first = &appearances[0];
    let m = first.len();
    let mut i: usize = 0;
    while i < m
        invariant
            n == appearances@.len(),
            n > 0,
            lists == appearances@.map_values(|v: Vec<u16>| v@),
            first@ == lists[0],
            m == first@.len(),
            i <= m,
            forall|c: u16|
                #[trigger] result@.contains(c) <==> (exists|s: int| 0 <= s < i && first@[s] == c)
                    && forall|t: int| 0 <= t < n ==> #[trigger] lists[t].contains(c),
        decreases m - i,
    {
        let c = first[i];
        let mut everywhere = true;
        let mut k: usize = 1;
        while k < n
            invariant
                n == appearances@.len(),
                lists == appearances@.map_values(|v: Vec<u16>| v@),
                1 <= k <= n,
                first@ == lists[0],
                i < m,
                m == first@.len(),
                c == first@[i as int],
                everywhere <==> forall|t: int| 0 <= t < k ==> #[trigger] lists[t].contains(c),
            decreases n - k,
        {
            assert(lists[k as int] == appearances@[k as int]@);
            assert(lists[0].contains(c)) by {
                assert(lists[0][i as int] == c);
            }
            if !seq_contains(&appearances[k], c) {
                everywhere = false;
            }
            k = k + 1;
        }
        if everywhere {
            result.insert(c);
        }
        assert forall|x: u16| #[trigger] result@.contains(x) <==> (exists|s: int|
            0 <= s < i + 1 && first@[s] == x) && forall|t: int|
            0 <= t < n ==> #[trigger] lists[t].contains(x) by {
            if x == c {
                assert(first@[i as int] == x);
            }
        }
        i = i + 1;
    }
    assert(result@ =~= common_comics(lists)) by {
        assert forall|c: u16| #[trigger] common_comics(lists).contains(c) implies result@.contains(
            c,
        ) by {
            assert(lists[0].contains(c));
            let s = choose|s: int| 0 <= s < lists[0].len() && lists[0][s] == c;
            assert(first@[s] == c);
        }
    }
    result
}

// ---------------------------------------------------------------------------
// Random comics
// ---------------------------------------------------------------------------

/// A comic as listed, with the flags that the reader's filters look at.
#[derive(Copy, Clone, Debug, PartialEq, Eq, Structural)]
pub struct ComicSummary {
    pub comic: ComicId,
    pub is_guest_comic: bool,
    pub is_non_canon: bool,
}

/// Whether a comic may be offered as a random pick: it passes the guest and
/// non-canon filters and is not the comic being read.
pub open spec fn random_pick_allowed(
    c: ComicSummary,
    include_guest_comics: Option<bool>,
    include_non_canon_comics: Option<bool>,
    current_comic: u16,
) -> bool {
    &&& !(include_guest_comics == Some(false) && c.is_guest_comic)
    &&& !(include_non_canon_comics == Some(false) && c.is_non_canon)
    &&& c.comic.0 != current_comic
}

/// The comics of an item that may be offered as a random pick, in the
/// order in which they appear.
pub open spec fn random_candidates(
    comics: Seq<ComicSummary>,
    include_guest_comics: Option<bool>,
    include_non_canon_comics: Option<bool>,
    current_comic: u16,
) -> Seq<ComicId> {
    comics.filter(
        |c: ComicSummary|
            random_pick_allowed(c, include_guest_comics, include_non_canon_comics, current_comic),
    ).map_values(|c: ComicSummary| c.comic)
}

/// Lists the comics of an item that may be offered as a random pick.
pub fn random_pick_candidates(
    comics: &[ComicSummary],
    include_guest_comics: Option<bool>,
    include_non_canon_comics: Option<bool>,
    current_comic: u16,
) -> (r: Vec<ComicId>)
    ensures
        r@ == random_candidates(
            comics@,
            include_guest_comics,
            include_non_canon_comics,
            current_comic,
        ),
{
    let ghost pred = |c: ComicSummary|
        random_pick_allowed(c, include_guest_comics, include_non_canon_comics, current_comic);
    let mut out: Vec<ComicId> = Vec::new();
    let n = comics.len();
    let mut i: usize = 0;
    while i < n
        invariant
            n == comics@.len(),
            i <= n,
            pred == (|c: ComicSummary|
                random_pick_allowed(c, include_guest_comics, include_non_canon_comics, current_comic)),
            out@ == comics@.take(i as int).filter(pred).map_values(|c: ComicSummary| c.comic),
        decreases n - i,
    {
        let c = comics[i];
        proof {
            crate::storylines::lemma_filter_take_step(comics@, pred, i as int);
        }
        let guest_ok = !(include_guest_comics == Some(false) && c.is_guest_comic);
        let non_canon_ok = !(include_non_canon_comics == Some(false) && c.is_non_canon);
        if guest_ok && non_canon_ok && c.comic.0 != current_comic {
            out.push(c.comic);
            assert(out@ =~= comics@.take(i as int + 1).filter(pred).map_values(
                |c: ComicSummary| c.comic,
            ));
        }
        i = i + 1;
    }
    assert(comics@.take(n as int) =~= comics@);
    out
}

/// Calls `rand::thread_rng().gen_range(0..len)`, which draws an index
/// uniformly from `0..len` (it panics on an empty range, which `requires`
/// rules out). The contract claims only that the index is below `len`; which
/// one comes out is left to chance.
#[verifier::external_body]
fn random_index_below(len: usize) -> (r: usize)
    requires
        len > 0,
    ensures
        r < len,
{
    rand::thread_rng().gen_range(0..len)
}

/// The candidate at a drawn position.
pub fn pick_candidate(candidates: &[ComicId], index: usize) -> (r: Option<ComicId>)
    requires
        index < candidates@.len(),
    ensures
        r == Some(candidates@[index as int]),
{
    Some(candidates[index])
}

/// Picks a random comic of an item to read next: none when the item has
/// fewer than two comics or when no comic passes the filters; otherwise the
/// allowed comic at a position drawn uniformly below the number of allowed
/// comics (see `random_candidates` and `pick_candidate`).
pub fn random_comic_choice(
    comics: &[ComicSummary],
    include_guest_comics: Option<bool>,
    include_non_canon_comics: Option<bool>,
    current_comic: u16,
) -> (r: Option<ComicId>)
    ensures
        ({
            let candidates = random_candidates(
                comics@,
                include_guest_comics,
                include_non_canon_comics,
                current_comic,
            );
            &&& comics@.len() < 2 ==> r is None
            &&& comics@.len() >= 2 && candidates.len() == 0 ==> r is None
            &&& comics@.len() >= 2 && candidates.len() > 0 ==> exists|i: int|
                0 <= i < candidates.len() && r == Some(#[trigger] candidates[i])
        }),
{
    if comics.len() < 2 {
        return None;
    }
    let candidates = random_pick_candidates(
        comics,
        include_guest_comics,
        include_non_canon_comics,
        current_comic,
    );
    if candidates.len() == 0 {
        return None;
    }
    let index = random_index_below(candidates.len());
    let chosen = pick_candidate(candidates.as_slice(), index);
    assert(chosen == Some(candidates@[index as int]));
    chosen
}

/// Calls `rand::random::<u64>()`, a number drawn from the thread-local
/// generator. Nothing is claimed of it: any `u64` may come out.
#[verifier::external_body]
fn random_u64() -> (r: u64) {
    rand::random::<u64>()
}

/// The row offset of a random pick among `count` rows, from a random number:
/// none when there are no rows; a negative count is treated as the largest
/// count.
pub fn random_offset(random: u64, count: i64) -> (r: Option<u64>)
    ensures
        r == (if count == 0 {
            None
        } else if count > 0 {
            Some((random % (count as u64)) as u64)
        } else {
            Some((random % u64::MAX) as u64)
        }),
{
    if count == 0 {
        None
    } else if count > 0 {
        Some(random % (count as u64))
    } else {
        Some(random % u64::MAX)
    }
}

/// Draws the row offset of a random pick among `count` rows.
pub fn pick_random_offset(count: i64) -> (r: Option<u64>)
    ensures
        count == 0 ==> r is None,
        count > 0 ==> (r is Some && r->0 < count),
        count < 0 ==> (r is Some && r->0 < u64::MAX),
{
    let random = random_u64();
    random_offset(random, count)
}

// ---------------------------------------------------------------------------
// Comic data
// ---------------------------------------------------------------------------

/// A comic with its previous and next comic and its news, as stored. The
/// publish date is in seconds since the Unix epoch.
#[derive(Debug, PartialEq, Eq)]
pub struct ComicWithNavigationAndNews {
    pub id: u16,
    pub image_type: i32,
    pub is_guest_comic: u8,
    pub is_non_canon: u8,
    pub has_no_cast: u8,
    pub has_no_location: u8,
    pub has_no_storyline: u8,
    pub has_no_title: u8,
    pub has_no_tagline: u8,
    pub title: String,
    pub tagline: Option<String>,
    pub publish_date: Option<i64>,
    pub is_accurate_publish_date: u8,
    pub prev_id: Option<u16>,
    pub next_id: Option<u16>,
    pub news: Option<String>,
}

/// The data of a comic that exists.
#[derive(Debug, PartialEq, Eq)]
pub struct PresentComic {
    pub image_type: Option<ImageType>,
    pub publish_date: Option<i64>,
    pub is_accurate_publish_date: bool,
    pub title: String,
    pub tagline: Option<String>,
    pub is_guest_comic: bool,
    pub is_non_canon: bool,
    pub has_no_cast: bool,
    pub has_no_location: bool,
    pub has_no_storyline: bool,
    pub has_no_title: bool,
    pub has_no_tagline: bool,
    pub news: Option<String>,
    pub previous: Option<ComicId>,
    pub next: Option<ComicId>,
    pub items: Vec<UnhydratedItemNavigationData>,
}

/// A comic's data, or its absence.
#[derive(Debug, PartialEq, Eq)]
pub enum ComicData {
    Missing,
    Present(PresentComic),
}

/// A comic as answered to a client.
#[derive(Debug, PartialEq, Eq)]
pub struct ComicResponse {
    pub comic: ComicId,
    pub editor_data: EditorData,
    pub all_items: Vec<UnhydratedItemNavigationData>,
    pub data: ComicData,
}

/// Whether the data of a comic describes its row.
pub open spec fn present_comic_of(
    p: PresentComic,
    row: ComicWithNavigationAndNews,
    items: Seq<UnhydratedItemNavigationData>,
) -> bool {
    &&& p.image_type matches Some(t) && image_type_code(t) == row.image_type
    &&& p.publish_date == row.publish_date
    &&& p.is_accurate_publish_date == (row.is_accurate_publish_date != 0)
    &&& p.title@ == row.title@
    &&& p.tagline == row.tagline
    &&& p.is_guest_comic == (row.is_guest_comic != 0)
    &&& p.is_non_canon == (row.is_non_canon != 0)
    &&& p.has_no_cast == (row.has_no_cast != 0)
    &&& p.has_no_location == (row.has_no_location != 0)
    &&& p.has_no_storyline == (row.has_no_storyline != 0)
    &&& p.has_no_title == (row.has_no_title != 0)
    &&& p.has_no_tagline == (row.has_no_tagline != 0)
    &&& p.news == row.news
    &&& p.previous == comic_opt(row.prev_id)
    &&& p.next == comic_opt(row.next_id)
    &&& p.items@ == items
}

fn comic_opt_exec(c: Option<u16>) -> (r: Option<ComicId>)
    ensures
        r == comic_opt(c),
{
    match c {
        Some(v) => Some(ComicId(v)),
        None => None,
    }
}

/// Builds the answer for a comic: its data when it exists (its stored image
/// type must be one of the known numbers), with the items in the comic, and
/// in every case the editor data and the list of the other items.
pub fn build_comic_response(
    comic_id: ComicId,
    comic: Option<ComicWithNavigationAndNews>,
    editor_data: EditorData,
    items_in_comic: Vec<UnhydratedItemNavigationData>,
    all_items: Vec<UnhydratedItemNavigationData>,
) -> (r: ComicResponse)
    requires
        comic matches Some(row) ==> 0 <= row.image_type <= 3,
    ensures
        r.comic == comic_id,
        r.editor_data == editor_data,
        r.all_items@ == all_items@,
        match comic {
            Some(row) => r.data matches ComicData::Present(p) && present_comic_of(
                p,
                row,
                items_in_comic@,
            ),
            None => r.data == ComicData::Missing,
        },
{
    let data = match comic {
        Some(row) => ComicData::Present(
            PresentComic {
                image_type: Some(ImageType::from_trusted(row.image_type)),
                publish_date: row.publish_date,
                is_accurate_publish_date: row.is_accurate_publish_date != 0,
                title: row.title,
                tagline: row.tagline,
                is_guest_comic: row.is_guest_comic != 0,
                is_non_canon: row.is_non_canon != 0,
                has_no_cast: row.has_no_cast != 0,
                has_no_location: row.has_no_location != 0,
                has_no_storyline: row.has_no_storyline != 0,
                has_no_title: row.has_no_title != 0,
                has_no_tagline: row.has_no_tagline != 0,
                news: row.news,
                previous: comic_opt_exec(row.prev_id),
                next: comic_opt_exec(row.next_id),
                items: items_in_comic,
            },
        ),
        None => ComicData::Missing,
    };
    ComicResponse { comic: comic_id, editor_data, all_items, data }
}

/// What a comic still needs from the updater: whether its title is empty,
/// whether its image type is unknown, its publish date and whether it is
/// hidden. A comic that is not stored needs everything and is not hidden.
pub fn needs_updating(stored: Option<(&str, i32, Option<i64>, u8)>) -> (r: (bool, bool, Option<i64>, bool))
    ensures
        r == (match stored {
            Some((title, image_type, publish_date, hidden)) => (
                title@.len() == 0,
                image_type == 0,
                publish_date,
                hidden != 0,
            ),
            None => (true, true, None, false),
        }),
{
    match stored {
        Some((title, image_type, publish_date, hidden)) => (
            title.is_empty(),
            image_type == 0,
            publish_date,
            hidden != 0,
        ),
        None => (true, true, None, false),
    }
}

} // verus!
