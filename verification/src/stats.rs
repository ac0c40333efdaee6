use std::collections::HashMap;

use vstd::prelude::*;

use crate::color::ItemColor;
use crate::ids::{ComicId, ItemId};
use crate::stats_rows::{
    CoAppearance, ComebackCharacterRow, DebutsPerYearRow, ItemStats as ItemStatsRow,
    LocationAffinityRow, PublicationDowRow, PublicationMonthRow, YearlyAppearanceRow,
    YearlyOverviewRow,
};

verus! {

/// An item's first and last comic and number of appearances.
#[derive(Debug, PartialEq, Eq)]
pub struct ItemStats {
    pub id: ItemId,
    pub name: String,
    pub first_comic: ComicId,
    pub last_comic: ComicId,
    pub appearances: u32,
}

/// Two characters and the number of comics they share.
#[derive(Copy, Clone, Debug, PartialEq, Eq, Structural)]
pub struct CoAppearancePair {
    pub character1_id: ItemId,
    pub character2_id: ItemId,
    pub comics_together: u32,
}

/// A character's name and number of appearances.
#[derive(Clone, Debug, PartialEq, Eq)]
pub struct CoAppearanceCharacterMeta {
    pub name: String,
    pub appearances: u32,
}

/// The characters of the top pairs, each described once, and the pairs.
#[derive(Debug)]
pub struct CoAppearancesResponse {
    pub characters: HashMap<u16, CoAppearanceCharacterMeta>,
    pub pairs: Vec<CoAppearancePair>,
}

/// A character's name and color.
#[derive(Clone, Debug, PartialEq, Eq)]
pub struct CharacterMeta {
    pub name: String,
    pub color: ItemColor,
}

/// A character's number of appearances in one year.
#[derive(Copy, Clone, Debug, PartialEq, Eq, Structural)]
pub struct YearlyRankEntry {
    pub id: ItemId,
    pub appearances: u32,
}

/// The top characters of one year.
#[derive(Clone, Debug, PartialEq, Eq)]
pub struct YearlySpotlightYear {
    pub year: i32,
    pub characters: Vec<YearlyRankEntry>,
}

/// The top characters of each year and the description of each of them.
#[derive(Debug)]
pub struct YearlySpotlightResponse {
    pub characters: HashMap<u16, CharacterMeta>,
    pub years: Vec<YearlySpotlightYear>,
}

/// The number of cast and location debuts in a year.
#[derive(Copy, Clone, Debug, PartialEq, Eq, Structural)]
pub struct DebutsPerYear {
    pub year: i32,
    pub cast_debuts: u32,
    pub location_debuts: u32,
}

/// The size of the cast in a year and the number of new characters.
#[derive(Copy, Clone, Debug, PartialEq, Eq, Structural)]
pub struct YearlyOverview {
    pub year: i32,
    pub total_cast: u32,
    pub new_cast: u32,
}

/// The number of comics published in a month of the year.
#[derive(Copy, Clone, Debug, PartialEq, Eq, Structural)]
pub struct MonthlyComics {
    pub month: u8,
    pub comics: u32,
}

/// The number of comics published on a day of the week.
#[derive(Copy, Clone, Debug, PartialEq, Eq, Structural)]
pub struct DailyComics {
    pub dow: u8,
    pub comics: u32,
}

/// When comics get published.
#[derive(Clone, Debug, PartialEq, Eq)]
pub struct PublicationCalendar {
    pub monthly: Vec<MonthlyComics>,
    pub daily: Vec<DailyComics>,
}

/// A character that came back after a long absence.
#[derive(Debug, PartialEq, Eq)]
pub struct ComebackCharacter {
    pub id: ItemId,
    pub name: String,
    pub last_comic: ComicId,
    pub return_comic: ComicId,
    pub gap_days: u32,
}

/// A character seen at a location, with the number of comics they share.
#[derive(Clone, Debug, PartialEq, Eq)]
pub struct LocationAffinityCharacter {
    pub id: ItemId,
    pub name: String,
    pub comics_together: u32,
}

/// A location and its most frequent characters.
#[derive(Clone, Debug, PartialEq, Eq)]
pub struct LocationAffinity {
    pub location_id: ItemId,
    pub location_name: String,
    pub top_characters: Vec<LocationAffinityCharacter>,
}

/// A count brought into `u32`: counts that do not fit become `u32::MAX`.
pub open spec fn clamp_u32(x: i64) -> u32 {
    if 0 <= x <= u32::MAX {
        x as u32
    } else {
        u32::MAX
    }
}

/// Brings a count into `u32`; counts that do not fit become `u32::MAX`.
pub fn saturate_u32(x: i64) -> (r: u32)
    ensures
        r == clamp_u32(x),
{
    if 0 <= x && x <= 4294967295 {
        x as u32
    } else {
        4294967295u32
    }
}

/// The statistics of an item, when both its first and last comic are known.
pub fn item_stats_from_db(row: ItemStatsRow) -> (r: Option<ItemStats>)
    ensures
        match r {
            Some(s) => {
                &&& row.first_comic is Some && row.last_comic is Some
                &&& s.id == ItemId(row.id)
                &&& s.name@ == row.name@
                &&& s.first_comic == ComicId(row.first_comic->0)
                &&& s.last_comic == ComicId(row.last_comic->0)
                &&& s.appearances == clamp_u32(row.appearances)
            },
            None => row.first_comic is None || row.last_comic is None,
        },
{
    match (row.first_comic, row.last_comic) {
        (Some(first_comic), Some(last_comic)) => Some(
            ItemStats {
                id: ItemId(row.id),
                name: row.name,
                first_comic: ComicId(first_comic),
                last_comic: ComicId(last_comic),
                appearances: saturate_u32(row.appearances),
            },
        ),
        _ => None,
    }
}

// ---------------------------------------------------------------------------
// Co-appearances
// ---------------------------------------------------------------------------

/// A map with `k` set to `v` unless `k` is already present.
pub open spec fn insert_absent<K, V>(m: Map<K, V>, k: K, v: V) -> Map<K, V> {
    if m.contains_key(k) {
        m
    } else {
        m.insert(k, v)
    }
}

/// The character descriptions of the pairs: each character is described by
/// the first row that names it (as first, then as second character).
pub open spec fn co_appearance_characters(rows: Seq<CoAppearance>) -> Map<
    u16,
    CoAppearanceCharacterMeta,
>
    decreases rows.len(),
{
    if rows.len() == 0 {
        Map::empty()
    } else {
        let row = rows.last();
        let m = co_appearance_characters(rows.drop_last());
        let m1 = insert_absent(
            m,
            row.character1_id,
            CoAppearanceCharacterMeta {
                name: row.character1_name,
                appearances: clamp_u32(row.character1_appearances),
            },
        );
        insert_absent(
            m1,
            row.character2_id,
            CoAppearanceCharacterMeta {
                name: row.character2_name,
                appearances: clamp_u32(row.character2_appearances),
            },
        )
    }
}

/// The pair of one row.
pub open spec fn pair_of(row: CoAppearance) -> CoAppearancePair {
    CoAppearancePair {
        character1_id: ItemId(row.character1_id),
        character2_id: ItemId(row.character2_id),
        comics_together: clamp_u32(row.comics_together),
    }
}

fn insert_if_absent_meta(
    characters: &mut HashMap<u16, CoAppearanceCharacterMeta>,
    id: u16,
    meta: CoAppearanceCharacterMeta,
)
    ensures
        final(characters)@ == insert_absent(old(characters)@, id, meta),
{
    broadcast use vstd::std_specs::hash::group_hash_axioms;

    if !characters.contains_key(&id) {
        characters.insert(id, meta);
    }
}

/// Describes the characters of the top pairs (each once) and lists the pairs
/// in the order of the rows.
pub fn build_co_appearances_response(rows: Vec<CoAppearance>) -> (r: CoAppearancesResponse)
    ensures
        r.characters@ == co_appearance_characters(rows@),
        r.pairs@ == rows@.map_values(|row: CoAppearance| pair_of(row)),
{
    let ghost all = rows@;
    let n = rows.len();
    let mut characters: HashMap<u16, CoAppearanceCharacterMeta> = HashMap::new();
    let mut pairs: Vec<CoAppearancePair> = Vec::with_capacity(n);
    let mut rest = rows;
    let mut i: usize = 0;
    assert(all.skip(0) =~= all);
    while i < n
        invariant
            n == all.len(),
            all == rows@,
            i <= n,
            rest@ == all.skip(i as int),
            characters@ == co_appearance_characters(all.take(i as int)),
            pairs@ == all.take(i as int).map_values(|row: CoAppearance| pair_of(row)),
        decreases n - i,
    {
        let row = rest.remove(0);
        assert(row == all[i as int]);
        assert(rest@ =~= all.skip(i as int + 1));
        assert(all.take(i as int + 1).drop_last() =~= all.take(i as int));
        pairs.push(
            CoAppearancePair {
                character1_id: ItemId(row.character1_id),
                character2_id: ItemId(row.character2_id),
                comics_together: saturate_u32(row.comics_together),
            },
        );
        insert_if_absent_meta(
            &mut characters,
            row.character1_id,
            CoAppearanceCharacterMeta {
                name: row.character1_name,
                appearances: saturate_u32(row.character1_appearances),
            },
        );
        insert_if_absent_meta(
            &mut characters,
            row.character2_id,
            CoAppearanceCharacterMeta {
                name: row.character2_name,
                appearances: saturate_u32(row.character2_appearances),
            },
        );
        assert(pairs@ =~= all.take(i as int + 1).map_values(|row: CoAppearance| pair_of(row)));
        i = i + 1;
    }
    assert(all.take(n as int) =~= all);
    CoAppearancesResponse { characters, pairs }
}

/// Every character named by a pair is described, and only those: the
/// description map's keys are exactly the ids of the pairs' characters.
pub proof fn lemma_co_appearance_characters_cover(rows: Seq<CoAppearance>)
    ensures
        forall|i: int|
            0 <= i < rows.len() ==> co_appearance_characters(rows).contains_key(
                #[trigger] rows[i].character1_id,
            ) && co_appearance_characters(rows).contains_key(rows[i].character2_id),
        forall|k: u16|
            #[trigger] co_appearance_characters(rows).contains_key(k) ==> exists|i: int|
                0 <= i < rows.len() && (rows[i].character1_id == k || rows[i].character2_id == k),
    decreases rows.len(),
{
    if rows.len() > 0 {
        let prev = rows.drop_last();
        lemma_co_appearance_characters_cover(prev);
        let row = rows.last();
        let m = co_appearance_characters(prev);
        let all = co_appearance_characters(rows);
        assert(forall|k: u16| m.contains_key(k) ==> all.contains_key(k));
        assert(all.contains_key(row.character1_id) && all.contains_key(row.character2_id));
        assert(forall|k: u16|
            all.contains_key(k) ==> m.contains_key(k) || k == row.character1_id || k
                == row.character2_id);
        assert forall|i: int| 0 <= i < rows.len() implies all.contains_key(
            #[trigger] rows[i].character1_id,
        ) && all.contains_key(rows[i].character2_id) by {
            if i < rows.len() - 1 {
                assert(rows[i] == prev[i]);
                assert(m.contains_key(prev[i].character1_id));
                assert(m.contains_key(prev[i].character2_id));
            }
        }
        assert forall|k: u16| #[trigger] all.contains_key(k) implies exists|i: int|
            0 <= i < rows.len() && (rows[i].character1_id == k || rows[i].character2_id == k) by {
            if m.contains_key(k) {
                let i = choose|i: int|
                    0 <= i < prev.len() && (prev[i].character1_id == k || prev[i].character2_id
                        == k);
                assert(rows[i] == prev[i]);
            } else {
                assert(rows[rows.len() - 1] == row);
            }
        }
    }
}

/// Law: one more row keeps every description already given (the first row
/// naming a character describes it), and a character that the row names
/// first is described by that row: its name and its appearance count.
pub proof fn lemma_co_appearance_row_appended(rows: Seq<CoAppearance>, row: CoAppearance)
    ensures
        ({
            let m = co_appearance_characters(rows);
            let m2 = co_appearance_characters(rows.push(row));
            &&& forall|k: u16| #[trigger] m.contains_key(k) ==> m2.contains_key(k) && m2[k] == m[k]
            &&& !m.contains_key(row.character1_id) ==> m2[row.character1_id].name
                == row.character1_name && m2[row.character1_id].appearances == clamp_u32(
                row.character1_appearances,
            )
            &&& !m.contains_key(row.character2_id) && row.character2_id != row.character1_id
                ==> m2[row.character2_id].name == row.character2_name
                && m2[row.character2_id].appearances == clamp_u32(row.character2_appearances)
        }),
{
    let all = rows.push(row);
    assert(all.drop_last() =~= rows);
    assert(all.last() == row);
}

/// Law: each pair names the row's two characters, in the row's order, with
/// the row's count of comics together.
pub proof fn lemma_pair_reports_row(row: CoAppearance)
    ensures
        pair_of(row).character1_id == ItemId(row.character1_id),
        pair_of(row).character2_id == ItemId(row.character2_id),
        0 <= row.comics_together <= u32::MAX ==> pair_of(row).comics_together
            == row.comics_together,
        !(0 <= row.comics_together <= u32::MAX) ==> pair_of(row).comics_together == u32::MAX,
{
}

// ---------------------------------------------------------------------------
// Yearly spotlight
// ---------------------------------------------------------------------------

/// A plain model of one year of the spotlight.
pub struct SpotlightYearModel {
    pub year: i32,
    pub characters: Seq<YearlyRankEntry>,
}

pub open spec fn spotlight_year_model(y: YearlySpotlightYear) -> SpotlightYearModel {
    SpotlightYearModel { year: y.year, characters: y.characters@ }
}

/// The rank entry of a row.
pub open spec fn rank_entry_of(row: YearlyAppearanceRow) -> YearlyRankEntry {
    YearlyRankEntry { id: ItemId(row.id), appearances: clamp_u32(row.appearances) }
}

/// The description of a row's character.
pub open spec fn character_meta_of(row: YearlyAppearanceRow) -> CharacterMeta {
    CharacterMeta {
        name: row.name,
        color: ItemColor(row.color_red, row.color_green, row.color_blue),
    }
}

/// The spotlight built from the rows (ordered by year, then rank): rows
/// without a year are skipped; consecutive rows of one year form that year's
/// list, which keeps at most its first five characters; a character is
/// described by the first kept row that names it.
pub open spec fn spotlight(rows: Seq<YearlyAppearanceRow>) -> (
    Map<u16, CharacterMeta>,
    Seq<SpotlightYearModel>,
)
    decreases rows.len(),
{
    if rows.len() == 0 {
        (Map::empty(), Seq::empty())
    } else {
        let (m, years) = spotlight(rows.drop_last());
        let row = rows.last();
        match row.year {
            None => (m, years),
            Some(year) => if years.len() > 0 && years.last().year == year {
                let last = years.last();
                if last.characters.len() < 5 {
                    (
                        insert_absent(m, row.id, character_meta_of(row)),
                        years.update(
                            years.len() - 1,
                            SpotlightYearModel {
                                year,
                                characters: last.characters.push(rank_entry_of(row)),
                            },
                        ),
                    )
                } else {
                    (m, years)
                }
            } else {
                (
                    insert_absent(m, row.id, character_meta_of(row)),
                    years.push(SpotlightYearModel { year, characters: seq![rank_entry_of(row)] }),
                )
            },
        }
    }
}

fn insert_if_absent_character(
    characters: &mut HashMap<u16, CharacterMeta>,
    id: u16,
    meta: CharacterMeta,
)
    ensures
        final(characters)@ == insert_absent(old(characters)@, id, meta),
{
    broadcast use vstd::std_specs::hash::group_hash_axioms;

    if !characters.contains_key(&id) {
        characters.insert(id, meta);
    }
}

/// Builds the top characters of each year (at most five per year) and the
/// description of each listed character.
pub fn build_yearly_spotlight_response(rows: Vec<YearlyAppearanceRow>) -> (r:
    YearlySpotlightResponse)
    ensures
        r.characters@ == spotlight(rows@).0,
        r.years@.map_values(|y: YearlySpotlightYear| spotlight_year_model(y)) == spotlight(
            rows@,
        ).1,
{
    let ghost all = rows@;
    let n = rows.len();
    let mut characters: HashMap<u16, CharacterMeta> = HashMap::new();
    let mut years: Vec<YearlySpotlightYear> = Vec::new();
    let mut rest = rows;
    let mut i: usize = 0;
    assert(all.skip(0) =~= all);
    while i < n
        invariant
            n == all.len(),
            all == rows@,
            i <= n,
            rest@ == all.skip(i as int),
            characters@ == spotlight(all.take(i as int)).0,
            years@.map_values(|y: YearlySpotlightYear| spotlight_year_model(y)) == spotlight(
                all.take(i as int),
            ).1,
        decreases n - i,
    {
        let row = rest.remove(0);
        assert(row == all[i as int]);
        assert(rest@ =~= all.skip(i as int + 1));
        assert(all.take(i as int + 1).drop_last() =~= all.take(i as int));
        let ghost prev = years@.map_values(|y: YearlySpotlightYear| spotlight_year_model(y));
        match row.year {
            None => {},
            Some(year) => {
                let ylen = years.len();
                if ylen > 0 && years[ylen - 1].year == year {
                    if years[ylen - 1].characters.len() < 5 {
                        let entry = YearlyRankEntry {
                            id: ItemId(row.id),
                            appearances: saturate_u32(row.appearances),
                        };
                        insert_if_absent_character(
                            &mut characters,
                            row.id,
                            CharacterMeta {
                                name: row.name,
                                color: ItemColor(row.color_red, row.color_green, row.color_blue),
                            },
                        );
                        let mut last = years.pop().unwrap();
                        let ghost old_chars = last.characters@;
                        last.characters.push(entry);
                        years.push(last);
                        assert(years@.map_values(|y: YearlySpotlightYear| spotlight_year_model(y))
                            =~= prev.update(
                            prev.len() - 1,
                            SpotlightYearModel { year, characters: old_chars.push(entry) },
                        ));
                    }
                } else {
                    insert_if_absent_character(
                        &mut characters,
                        row.id,
                        CharacterMeta {
                            name: row.name,
                            color: ItemColor(row.color_red, row.color_green, row.color_blue),
                        },
                    );
                    let entry = YearlyRankEntry {
                        id: ItemId(row.id),
                        appearances: saturate_u32(row.appearances),
                    };
                    let mut list: Vec<YearlyRankEntry> = Vec::new();
                    list.push(entry);
                    years.push(YearlySpotlightYear { year, characters: list });
                    assert(years@.map_values(|y: YearlySpotlightYear| spotlight_year_model(y))
                        =~= prev.push(SpotlightYearModel { year, characters: seq![entry] }));
                }
            },
        }
        i = i + 1;
    }
    assert(all.take(n as int) =~= all);
    YearlySpotlightResponse { characters, years }
}

/// Every listed year names between one and five characters, neighbouring
/// years differ, and every listed character is described.
pub proof fn lemma_spotlight_capped(rows: Seq<YearlyAppearanceRow>)
    ensures
        forall|i: int|
            0 <= i < spotlight(rows).1.len() ==> 1 <= (#[trigger] spotlight(rows).1[i]).characters.len()
                <= 5,
        forall|i: int|
            0 < i < spotlight(rows).1.len() ==> (#[trigger] spotlight(rows).1[i]).year != spotlight(
                rows,
            ).1[i - 1].year,
        forall|i: int, j: int|
            0 <= i < spotlight(rows).1.len() && 0 <= j < spotlight(rows).1[i].characters.len()
                ==> spotlight(rows).0.contains_key(
                (#[trigger] spotlight(rows).1[i].characters[j]).id.0,
            ),
    decreases rows.len(),
{
    if rows.len() > 0 {
        let prev_rows = rows.drop_last();
        lemma_spotlight_capped(prev_rows);
        let (m, prev) = spotlight(prev_rows);
        let (m2, cur) = spotlight(rows);
        let row = rows.last();
        assert(forall|k: u16| m.contains_key(k) ==> m2.contains_key(k));
        assert(cur.len() >= prev.len());
        assert forall|i: int| 0 <= i < prev.len() - 1 implies #[trigger] cur[i] == prev[i] by {}
        if row.year is Some && prev.len() > 0 && prev.last().year == row.year->0 {
            assert(cur.len() == prev.len());
            assert(cur.last().year == prev.last().year);
            if prev.last().characters.len() < 5 {
                assert(cur.last().characters == prev.last().characters.push(rank_entry_of(row)));
                assert(m2.contains_key(row.id));
            }
        } else if row.year is Some {
            assert(cur.len() == prev.len() + 1);
            assert(m2.contains_key(row.id));
            if prev.len() > 0 {
                assert(cur[prev.len() - 1] == prev[prev.len() - 1]);
            }
        }
        assert forall|i: int, j: int|
            0 <= i < cur.len() && 0 <= j < cur[i].characters.len() implies m2.contains_key(
            (#[trigger] cur[i].characters[j]).id.0,
        ) by {
            if i < prev.len() && j < prev[i].characters.len() {
                assert(cur[i].characters[j] == prev[i].characters[j]);
            }
        }
    }
}

/// Law: one more row never disturbs what earlier rows listed: every year
/// keeps its characters in place (they stay the first ones of its list) and
/// every described character keeps its description. A row without a year,
/// or for the last year when that year already lists five characters,
/// changes nothing; otherwise the row's character ends the last year's list
/// and is described.
pub proof fn lemma_spotlight_row_appended(rows: Seq<YearlyAppearanceRow>, row: YearlyAppearanceRow)
    ensures
        ({
            let (m, before) = spotlight(rows);
            let (m2, after) = spotlight(rows.push(row));
            let ignored = row.year is None || (before.len() > 0 && before.last().year
                == row.year->0 && before.last().characters.len() >= 5);
            &&& before.len() <= after.len()
            &&& forall|i: int|
                0 <= i < before.len() ==> {
                    &&& (#[trigger] after[i]).year == before[i].year
                    &&& before[i].characters.len() <= after[i].characters.len()
                    &&& after[i].characters.take(before[i].characters.len() as int)
                        == before[i].characters
                }
            &&& forall|k: u16| #[trigger] m.contains_key(k) ==> m2.contains_key(k) && m2[k] == m[k]
            &&& ignored ==> m2 == m && after == before
            &&& !ignored ==> (after.len() > 0 && after.last().year == row.year->0
                && after.last().characters.last() == rank_entry_of(row) && m2.contains_key(row.id))
        }),
{
    let all = rows.push(row);
    assert(all.drop_last() =~= rows);
    assert(all.last() == row);
    let (m, before) = spotlight(rows);
    let (m2, after) = spotlight(all);
    assert forall|i: int| 0 <= i < before.len() implies {
        &&& (#[trigger] after[i]).year == before[i].year
        &&& before[i].characters.len() <= after[i].characters.len()
        &&& after[i].characters.take(before[i].characters.len() as int) == before[i].characters
    } by {
        if row.year is Some && before.len() > 0 && before.last().year == row.year->0 && i
            == before.len() - 1 && before.last().characters.len() < 5 {
            assert(after[i].characters == before[i].characters.push(rank_entry_of(row)));
            assert(after[i].characters.take(before[i].characters.len() as int)
                =~= before[i].characters);
        } else {
            assert(after[i] == before[i]);
            assert(after[i].characters.take(before[i].characters.len() as int)
                =~= before[i].characters);
        }
    }
}

// ---------------------------------------------------------------------------
// Location affinity
// ---------------------------------------------------------------------------

/// A plain model of one location's entry.
pub struct AffinityModel {
    pub location_id: u16,
    pub location_name: Seq<char>,
    pub top_characters: Seq<LocationAffinityCharacter>,
}

pub open spec fn affinity_model(a: LocationAffinity) -> AffinityModel {
    AffinityModel {
        location_id: a.location_id.0,
        location_name: a.location_name@,
        top_characters: a.top_characters@,
    }
}

/// The character entry of a row.
pub open spec fn affinity_character_of(row: LocationAffinityRow) -> LocationAffinityCharacter {
    LocationAffinityCharacter {
        id: ItemId(row.character_id),
        name: row.character_name,
        comics_together: clamp_u32(row.comics_together),
    }
}

/// The affinity list built from the rows (ordered by location, then rank):
/// consecutive rows of one location form that location's entry, which keeps
/// the location name of its first row and at most its first five characters.
pub open spec fn affinities(rows: Seq<LocationAffinityRow>) -> Seq<AffinityModel>
    decreases rows.len(),
{
    if rows.len() == 0 {
        Seq::empty()
    } else {
        let prev = affinities(rows.drop_last());
        let row = rows.last();
        if prev.len() > 0 && prev.last().location_id == row.location_id {
            let last = prev.last();
            if last.top_characters.len() < 5 {
                prev.update(
                    prev.len() - 1,
                    AffinityModel {
                        top_characters: last.top_characters.push(affinity_character_of(row)),
                        ..last
                    },
                )
            } else {
                prev
            }
        } else {
            prev.push(
                AffinityModel {
                    location_id: row.location_id,
                    location_name: row.location_name@,
                    top_characters: seq![affinity_character_of(row)],
                },
            )
        }
    }
}

/// Groups the rows by location, keeping at most five characters per
/// location.
pub fn build_location_affinity_response(rows: Vec<LocationAffinityRow>) -> (r: Vec<
    LocationAffinity,
>)
    ensures
        r@.map_values(|a: LocationAffinity| affinity_model(a)) == affinities(rows@),
{
    let ghost all = rows@;
    let n = rows.len();
    let mut locations: Vec<LocationAffinity> = Vec::new();
    let mut rest = rows;
    let mut i: usize = 0;
    assert(all.skip(0) =~= all);
    while i < n
        invariant
            n == all.len(),
            all == rows@,
            i <= n,
            rest@ == all.skip(i as int),
            locations@.map_values(|a: LocationAffinity| affinity_model(a)) == affinities(
                all.take(i as int),
            ),
        decreases n - i,
    {
        let row = rest.remove(0);
        assert(row == all[i as int]);
        assert(rest@ =~= all.skip(i as int + 1));
        assert(all.take(i as int + 1).drop_last() =~= all.take(i as int));
        let ghost prev = locations@.map_values(|a: LocationAffinity| affinity_model(a));
        let len = locations.len();
        let entry = LocationAffinityCharacter {
            id: ItemId(row.character_id),
            name: row.character_name,
            comics_together: saturate_u32(row.comics_together),
        };
        if len > 0 && locations[len - 1].location_id.0 == row.location_id {
            if locations[len - 1].top_characters.len() < 5 {
                let mut last = locations.pop().unwrap();
                let ghost old_chars = last.top_characters@;
                last.top_characters.push(entry);
                locations.push(last);
                assert(locations@.map_values(|a: LocationAffinity| affinity_model(a)) =~= prev.update(
                    prev.len() - 1,
                    AffinityModel { top_characters: old_chars.push(entry), ..prev.last() },
                ));
            }
        } else {
            let mut list: Vec<LocationAffinityCharacter> = Vec::new();
            list.push(entry);
            locations.push(
                LocationAffinity {
                    location_id: ItemId(row.location_id),
                    location_name: row.location_name,
                    top_characters: list,
                },
            );
            assert(locations@.map_values(|a: LocationAffinity| affinity_model(a)) =~= prev.push(
                AffinityModel {
                    location_id: row.location_id,
                    location_name: all[i as int].location_name@,
                    top_characters: seq![entry],
                },
            ));
        }
        i = i + 1;
    }
    assert(all.take(n as int) =~= all);
    locations
}

/// Every location entry lists between one and five characters, and
/// neighbouring entries are different locations.
pub proof fn lemma_affinities_capped(rows: Seq<LocationAffinityRow>)
    ensures
        forall|i: int|
            0 <= i < affinities(rows).len() ==> 1 <= (#[trigger] affinities(rows)[i]).top_characters.len()
                <= 5,
        forall|i: int|
            0 < i < affinities(rows).len() ==> (#[trigger] affinities(rows)[i]).location_id
                != affinities(rows)[i - 1].location_id,
    decreases rows.len(),
{
    if rows.len() > 0 {
        let prev_rows = rows.drop_last();
        lemma_affinities_capped(prev_rows);
        let prev = affinities(prev_rows);
        let cur = affinities(rows);
        let row = rows.last();
        assert(cur.len() >= prev.len());
        assert forall|i: int| 0 <= i < prev.len() - 1 implies #[trigger] cur[i] == prev[i] by {}
        if prev.len() > 0 && prev.last().location_id == row.location_id {
            assert(cur.len() == prev.len());
            assert(cur.last().location_id == prev.last().location_id);
        } else {
            assert(cur.len() == prev.len() + 1);
            assert(cur[prev.len() as int] == AffinityModel {
                location_id: row.location_id,
                location_name: row.location_name@,
                top_characters: seq![affinity_character_of(row)],
            });
            if prev.len() > 0 {
                assert(cur[prev.len() - 1] == prev[prev.len() - 1]);
            }
        }
    }
}

/// Law: one more row never disturbs what earlier rows listed: every
/// location keeps its id, its name and the characters it listed, in place
/// (they stay the first ones of its list). A row for the last location when
/// that location already lists five characters changes nothing; otherwise
/// the row's character ends the last location's list.
pub proof fn lemma_affinity_row_appended(rows: Seq<LocationAffinityRow>, row: LocationAffinityRow)
    ensures
        ({
            let before = affinities(rows);
            let after = affinities(rows.push(row));
            &&& before.len() <= after.len()
            &&& forall|i: int|
                0 <= i < before.len() ==> {
                    &&& (#[trigger] after[i]).location_id == before[i].location_id
                    &&& after[i].location_name == before[i].location_name
                    &&& before[i].top_characters.len() <= after[i].top_characters.len()
                    &&& after[i].top_characters.take(before[i].top_characters.len() as int)
                        == before[i].top_characters
                }
            &&& (before.len() > 0 && before.last().location_id == row.location_id
                && before.last().top_characters.len() >= 5) ==> after == before
            &&& !(before.len() > 0 && before.last().location_id == row.location_id
                && before.last().top_characters.len() >= 5) ==> (after.len() > 0
                && after.last().location_id == row.location_id
                && after.last().top_characters.last() == affinity_character_of(row))
        }),
{
    let before = affinities(rows);
    let all = rows.push(row);
    assert(all.drop_last() =~= rows);
    assert(all.last() == row);
    let after = affinities(all);
    assert forall|i: int| 0 <= i < before.len() implies {
        &&& (#[trigger] after[i]).location_id == before[i].location_id
        &&& after[i].location_name == before[i].location_name
        &&& before[i].top_characters.len() <= after[i].top_characters.len()
        &&& after[i].top_characters.take(before[i].top_characters.len() as int)
            == before[i].top_characters
    } by {
        if before.len() > 0 && before.last().location_id == row.location_id && i == before.len() - 1
            && before.last().top_characters.len() < 5 {
            assert(after[i].top_characters == before[i].top_characters.push(
                affinity_character_of(row),
            ));
            assert(after[i].top_characters.take(before[i].top_characters.len() as int)
                =~= before[i].top_characters);
        } else {
            assert(after[i] == before[i]);
            assert(after[i].top_characters.take(before[i].top_characters.len() as int)
                =~= before[i].top_characters);
        }
    }
}

// ---------------------------------------------------------------------------
// Per-year and calendar figures
// ---------------------------------------------------------------------------

/// The debut figures of a row that has a year.
pub open spec fn debuts_of(row: DebutsPerYearRow) -> Option<DebutsPerYear> {
    match row.year {
        Some(year) => Some(
            DebutsPerYear {
                year,
                cast_debuts: clamp_u32(row.cast_debuts),
                location_debuts: clamp_u32(row.location_debuts),
            },
        ),
        None => None,
    }
}

/// The debut figures of the rows that have a year, in order.
pub fn debuts_per_year_from_rows(rows: &[DebutsPerYearRow]) -> (r: Vec<DebutsPerYear>)
    ensures
        r@ == rows@.filter_map(|row: DebutsPerYearRow| debuts_of(row)),
{
    let mut out: Vec<DebutsPerYear> = Vec::new();
    let n = rows.len();
    let mut i: usize = 0;
    while i < n
        invariant
            n == rows@.len(),
            i <= n,
            out@ == rows@.take(i as int).filter_map(|row: DebutsPerYearRow| debuts_of(row)),
        decreases n - i,
    {
        let row = rows[i];
        assert(rows@.take(i as int + 1).drop_last() =~= rows@.take(i as int));
        if let Some(year) = row.year {
            out.push(
                DebutsPerYear {
                    year,
                    cast_debuts: saturate_u32(row.cast_debuts),
                    location_debuts: saturate_u32(row.location_debuts),
                },
            );
        }
        assert(out@ =~= rows@.take(i as int + 1).filter_map(
            |row: DebutsPerYearRow| debuts_of(row),
        ));
        i = i + 1;
    }
    assert(rows@.take(n as int) =~= rows@);
    out
}

/// The cast figures of a row that has a year.
pub open spec fn overview_of(row: YearlyOverviewRow) -> Option<YearlyOverview> {
    match row.year {
        Some(year) => Some(
            YearlyOverview {
                year,
                total_cast: clamp_u32(row.total_cast),
                new_cast: clamp_u32(row.new_cast),
            },
        ),
        None => None,
    }
}

/// The cast figures of the rows that have a year, in order.
pub fn yearly_overview_from_rows(rows: &[YearlyOverviewRow]) -> (r: Vec<YearlyOverview>)
    ensures
        r@ == rows@.filter_map(|row: YearlyOverviewRow| overview_of(row)),
{
    let mut out: Vec<YearlyOverview> = Vec::new();
    let n = rows.len();
    let mut i: usize = 0;
    while i < n
        invariant
            n == rows@.len(),
            i <= n,
            out@ == rows@.take(i as int).filter_map(|row: YearlyOverviewRow| overview_of(row)),
        decreases n - i,
    {
        let row = rows[i];
        assert(rows@.take(i as int + 1).drop_last() =~= rows@.take(i as int));
        if let Some(year) = row.year {
            out.push(
                YearlyOverview {
                    year,
                    total_cast: saturate_u32(row.total_cast),
                    new_cast: saturate_u32(row.new_cast),
                },
            );
        }
        assert(out@ =~= rows@.take(i as int + 1).filter_map(
            |row: YearlyOverviewRow| overview_of(row),
        ));
        i = i + 1;
    }
    assert(rows@.take(n as int) =~= rows@);
    out
}

/// A small number from the database, when it is present and fits in a `u8`.
pub open spec fn small_number(x: Option<i32>) -> Option<u8> {
    match x {
        Some(v) => if 0 <= v <= 255 {
            Some(v as u8)
        } else {
            None
        },
        None => None,
    }
}

fn small_number_exec(x: Option<i32>) -> (r: Option<u8>)
    ensures
        r == small_number(x),
{
    match x {
        Some(v) => if 0 <= v && v <= 255 {
            Some(v as u8)
        } else {
            None
        },
        None => None,
    }
}

/// The monthly figure of a row whose month is present and fits in a `u8`.
pub open spec fn monthly_of(row: PublicationMonthRow) -> Option<MonthlyComics> {
    match small_number(row.month) {
        Some(month) => Some(MonthlyComics { month, comics: clamp_u32(row.comics) }),
        None => None,
    }
}

/// The daily figure of a row whose day of the week is present and fits in a
/// `u8`.
pub open spec fn daily_of(row: PublicationDowRow) -> Option<DailyComics> {
    match small_number(row.dow) {
        Some(dow) => Some(DailyComics { dow, comics: clamp_u32(row.comics) }),
        None => None,
    }
}

/// The publication calendar: the monthly and daily figures of the rows that
/// have a usable month or day, in order.
pub fn publication_calendar_from_rows(
    month_rows: &[PublicationMonthRow],
    dow_rows: &[PublicationDowRow],
) -> (r: PublicationCalendar)
    ensures
        r.monthly@ == month_rows@.filter_map(|row: PublicationMonthRow| monthly_of(row)),
        r.daily@ == dow_rows@.filter_map(|row: PublicationDowRow| daily_of(row)),
{
    let mut monthly: Vec<MonthlyComics> = Vec::new();
    let n = month_rows.len();
    let mut i: usize = 0;
    while i < n
        invariant
            n == month_rows@.len(),
            i <= n,
            monthly@ == month_rows@.take(i as int).filter_map(
                |row: PublicationMonthRow| monthly_of(row),
            ),
        decreases n - i,
    {
        let row = month_rows[i];
        assert(month_rows@.take(i as int + 1).drop_last() =~= month_rows@.take(i as int));
        if let Some(month) = small_number_exec(row.month) {
            monthly.push(MonthlyComics { month, comics: saturate_u32(row.comics) });
        }
        assert(monthly@ =~= month_rows@.take(i as int + 1).filter_map(
            |row: PublicationMonthRow| monthly_of(row),
        ));
        i = i + 1;
    }
    assert(month_rows@.take(n as int) =~= month_rows@);
    let mut daily: Vec<DailyComics> = Vec::new();
    let m = dow_rows.len();
    let mut j: usize = 0;
    while j < m
        invariant
            m == dow_rows@.len(),
            j <= m,
            daily@ == dow_rows@.take(j as int).filter_map(|row: PublicationDowRow| daily_of(row)),
        decreases m - j,
    {
        let row = dow_rows[j];
        assert(dow_rows@.take(j as int + 1).drop_last() =~= dow_rows@.take(j as int));
        if let Some(dow) = small_number_exec(row.dow) {
            daily.push(DailyComics { dow, comics: saturate_u32(row.comics) });
        }
        assert(daily@ =~= dow_rows@.take(j as int + 1).filter_map(
            |row: PublicationDowRow| daily_of(row),
        ));
        j = j + 1;
    }
    assert(dow_rows@.take(m as int) =~= dow_rows@);
    PublicationCalendar { monthly, daily }
}

/// Law: the per-year and calendar figures report their rows: a row with a
/// year (or a month or weekday number from 0 to 255) gives that year (or
/// number) with the row's counts, the debuts of cast members and of
/// locations each in their own field; a row without one gives nothing.
pub proof fn lemma_yearly_figures_report_rows(
    debuts: DebutsPerYearRow,
    overview: YearlyOverviewRow,
    month: PublicationMonthRow,
    dow: PublicationDowRow,
)
    ensures
        debuts.year is None ==> debuts_of(debuts) is None,
        debuts.year matches Some(y) ==> (debuts_of(debuts) matches Some(d) && d.year == y
            && d.cast_debuts == clamp_u32(debuts.cast_debuts) && d.location_debuts == clamp_u32(
            debuts.location_debuts,
        )),
        overview.year is None ==> overview_of(overview) is None,
        overview.year matches Some(y) ==> (overview_of(overview) matches Some(o) && o.year == y
            && o.total_cast == clamp_u32(overview.total_cast) && o.new_cast == clamp_u32(
            overview.new_cast,
        )),
        (month.month matches Some(v) && 0 <= v <= 255) ==> (monthly_of(month) matches Some(c)
            && c.month == month.month->0 && c.comics == clamp_u32(month.comics)),
        !(month.month matches Some(v) && 0 <= v <= 255) ==> monthly_of(month) is None,
        (dow.dow matches Some(v) && 0 <= v <= 255) ==> (daily_of(dow) matches Some(c) && c.dow
            == dow.dow->0 && c.comics == clamp_u32(dow.comics)),
        !(dow.dow matches Some(v) && 0 <= v <= 255) ==> daily_of(dow) is None,
{
}

/// Whether a comeback entry describes a row: the row has its last comic,
/// return comic and gap.
pub open spec fn comeback_of(c: ComebackCharacter, row: ComebackCharacterRow) -> bool {
    &&& row.last_comic is Some && row.return_comic is Some && row.gap_days is Some
    &&& c.id == ItemId(row.id)
    &&& c.name@ == row.name@
    &&& c.last_comic == ComicId(row.last_comic->0)
    &&& c.return_comic == ComicId(row.return_comic->0)
    &&& c.gap_days == clamp_u32(row.gap_days->0)
}

/// Whether a comeback row is complete.
pub open spec fn comeback_complete(row: ComebackCharacterRow) -> bool {
    row.last_comic is Some && row.return_comic is Some && row.gap_days is Some
}

/// The comebacks of the complete rows, in order.
pub fn comeback_characters_from_rows(rows: Vec<ComebackCharacterRow>) -> (r: Vec<ComebackCharacter>)
    ensures
        r@.len() == rows@.filter(|row: ComebackCharacterRow| comeback_complete(row)).len(),
        forall|t: int|
            0 <= t < r@.len() ==> comeback_of(
                #[trigger] r@[t],
                rows@.filter(|row: ComebackCharacterRow| comeback_complete(row))[t],
            ),
{
    let ghost all = rows@;
    let ghost pred = |row: ComebackCharacterRow| comeback_complete(row);
    let n = rows.len();
    let mut out: Vec<ComebackCharacter> = Vec::new();
    let mut rest = rows;
    let mut i: usize = 0;
    assert(all.skip(0) =~= all);
    while i < n
        invariant
            n == all.len(),
            all == rows@,
            pred == (|row: ComebackCharacterRow| comeback_complete(row)),
            i <= n,
            rest@ == all.skip(i as int),
            out@.len() == all.take(i as int).filter(pred).len(),
            forall|t: int|
                0 <= t < out@.len() ==> comeback_of(
                    #[trigger] out@[t],
                    all.take(i as int).filter(pred)[t],
                ),
        decreases n - i,
    {
        let row = rest.remove(0);
        assert(row == all[i as int]);
        assert(rest@ =~= all.skip(i as int + 1));
        proof {
            crate::storylines::lemma_filter_take_step(all, pred, i as int);
        }
        match (row.last_comic, row.return_comic, row.gap_days) {
            (Some(last_comic), Some(return_comic), Some(gap_days)) => {
                out.push(
                    ComebackCharacter {
                        id: ItemId(row.id),
                        name: row.name,
                        last_comic: ComicId(last_comic),
                        return_comic: ComicId(return_comic),
                        gap_days: saturate_u32(gap_days),
                    },
                );
            },
            _ => {},
        }
        i = i + 1;
    }
    assert(all.take(n as int) =~= all);
    out
}

} // verus!
