use vstd::prelude::*;

verus! {
/// An item with its first and last comic and its number of appearances.
#[derive(Clone, Debug, PartialEq, Eq)]
pub struct ItemStats {
    pub id: u16,
    pub name: String,
    pub first_comic: Option<u16>,
    pub last_comic: Option<u16>,
    pub appearances: i64,
}

/// A row of the `CoAppearance` statistics query.
#[derive(Clone, Debug, PartialEq, Eq)]
pub struct CoAppearance {
    pub character1_id: u16,
    pub character1_name: String,
    pub character1_appearances: i64,
    pub character2_id: u16,
    pub character2_name: String,
    pub character2_appearances: i64,
    pub comics_together: i64,
}

/// A row of the `YearlyAppearanceRow` statistics query.
#[derive(Clone, Debug, PartialEq, Eq)]
pub struct YearlyAppearanceRow {
    pub year: Option<i32>,
    pub id: u16,
    pub name: String,
    pub color_red: u8,
    pub color_green: u8,
    pub color_blue: u8,
    pub appearances: i64,
}

/// A row of the `DebutsPerYearRow` statistics query.
#[derive(Copy, Clone, Debug, PartialEq, Eq, Structural)]
pub struct DebutsPerYearRow {
    pub year: Option<i32>,
    pub cast_debuts: i64,
    pub location_debuts: i64,
}

/// A row of the `YearlyOverviewRow` statistics query.
#[derive(Copy, Clone, Debug, PartialEq, Eq, Structural)]
pub struct YearlyOverviewRow {
    pub year: Option<i32>,
    pub total_cast: i64,
    pub new_cast: i64,
}

/// A row of the `PublicationMonthRow` statistics query.
#[derive(Copy, Clone, Debug, PartialEq, Eq, Structural)]
pub struct PublicationMonthRow {
    pub month: Option<i32>,
    pub comics: i64,
}

/// A row of the `PublicationDowRow` statistics query.
#[derive(Copy, Clone, Debug, PartialEq, Eq, Structural)]
pub struct PublicationDowRow {
    pub dow: Option<i32>,
    pub comics: i64,
}

/// A row of the `ComebackCharacterRow` statistics query.
#[derive(Clone, Debug, PartialEq, Eq)]
pub struct ComebackCharacterRow {
    pub id: u16,
    pub name: String,
    pub last_comic: Option<u16>,
    pub return_comic: Option<u16>,
    pub gap_days: Option<i64>,
}

/// A row of the `ComebackLocationRow` statistics query.
#[derive(Clone, Debug, PartialEq, Eq)]
pub struct ComebackLocationRow {
    pub id: u16,
    pub name: String,
    pub last_comic: Option<u16>,
    pub return_comic: Option<u16>,
    pub gap_days: Option<i64>,
}

/// A row of the `LocationAffinityRow` statistics query.
#[derive(Clone, Debug, PartialEq, Eq)]
pub struct LocationAffinityRow {
    pub location_id: u16,
    pub location_name: String,
    pub character_id: u16,
    pub character_name: String,
    pub comics_together: i64,
}

/// A row of the `CrowdedComicRow` statistics query.
#[derive(Copy, Clone, Debug, PartialEq, Eq, Structural)]
pub struct CrowdedComicRow {
    pub comic_id: u16,
    pub cast_count: i64,
}

/// A row of the `LocationYearlyAppearanceRow` statistics query.
#[derive(Clone, Debug, PartialEq, Eq)]
pub struct LocationYearlyAppearanceRow {
    pub year: Option<i32>,
    pub id: u16,
    pub name: String,
    pub color_red: u8,
    pub color_green: u8,
    pub color_blue: u8,
    pub appearances: i64,
}

/// A row of the `PublicationGapRow` statistics query.
#[derive(Copy, Clone, Debug, PartialEq, Eq, Structural)]
pub struct PublicationGapRow {
    pub before_comic: Option<u16>,
    pub after_comic: Option<u16>,
    pub gap_days: Option<i32>,
}

/// A row of the `DebutDetailRow` statistics query.
#[derive(Clone, Debug, PartialEq, Eq)]
pub struct DebutDetailRow {
    pub year: Option<i32>,
    pub id: u16,
    pub name: String,
}

/// A row of the `EnsembleRatioRow` statistics query.
#[derive(Copy, Clone, Debug, PartialEq, Eq, Structural)]
pub struct EnsembleRatioRow {
    pub year: Option<i32>,
    pub no_cast: i64,
    pub solo: i64,
    pub small_group: i64,
    pub large_group: i64,
    pub total: i64,
}

/// A row of the `LocationCoOccurrenceRow` statistics query.
#[derive(Clone, Debug, PartialEq, Eq)]
pub struct LocationCoOccurrenceRow {
    pub location1_id: u16,
    pub location1_name: String,
    pub location1_appearances: i64,
    pub location2_id: u16,
    pub location2_name: String,
    pub location2_appearances: i64,
    pub comics_together: i64,
}

/// A row of the `SocialHubRow` statistics query.
#[derive(Clone, Debug, PartialEq, Eq)]
pub struct SocialHubRow {
    pub id: u16,
    pub name: String,
    pub appearances: i64,
    pub distinct_partners: i64,
}

/// A row of the `CastTurnoverRow` statistics query.
#[derive(Copy, Clone, Debug, PartialEq, Eq, Structural)]
pub struct CastTurnoverRow {
    pub year: Option<i32>,
    pub new_chars: i64,
    pub continuing_chars: i64,
    pub returning_chars: i64,
    pub dropped_chars: Option<i64>,
}

/// A row of the `CharacterSeasonRow` statistics query.
#[derive(Clone, Debug, PartialEq, Eq)]
pub struct CharacterSeasonRow {
    pub id: u16,
    pub name: String,
    pub month: Option<i32>,
    pub appearances: i64,
}

/// A row of the `CharacterHomeTurfRow` statistics query.
#[derive(Clone, Debug, PartialEq, Eq)]
pub struct CharacterHomeTurfRow {
    pub character_id: u16,
    pub character_name: String,
    pub location_id: u16,
    pub location_name: String,
    pub comics_together: i64,
    pub character_appearances: i64,
}

/// A row of the `PairEvolutionRow` statistics query.
#[derive(Copy, Clone, Debug, PartialEq, Eq, Structural)]
pub struct PairEvolutionRow {
    pub year: Option<i32>,
    pub comics_together: i64,
}

/// A row of the `NeverMetRow` statistics query.
#[derive(Clone, Debug, PartialEq, Eq)]
pub struct NeverMetRow {
    pub character1_id: u16,
    pub character1_name: String,
    pub character1_appearances: i64,
    pub character2_id: u16,
    pub character2_name: String,
    pub character2_appearances: i64,
    pub comics_together: Option<i64>,
}

/// A row of the `PublishTimeRow` statistics query.
#[derive(Copy, Clone, Debug, PartialEq, Eq, Structural)]
pub struct PublishTimeRow {
    pub year: Option<i32>,
    pub hour: Option<i32>,
    pub comics: i64,
}

/// A row of the `ScheduleEvolutionRow` statistics query.
#[derive(Copy, Clone, Debug, PartialEq, Eq, Structural)]
pub struct ScheduleEvolutionRow {
    pub year: Option<i32>,
    pub dow: Option<i32>,
    pub comics: i64,
}

/// A row of the `PublishedDateRow` statistics query.
#[derive(Clone, Debug, PartialEq, Eq)]
pub struct PublishedDateRow {
    pub pub_date: Option<String>,
}

/// A row of the `MonthlyHeatmapRow` statistics query.
#[derive(Copy, Clone, Debug, PartialEq, Eq, Structural)]
pub struct MonthlyHeatmapRow {
    pub year: Option<i32>,
    pub month: Option<i32>,
    pub comics: i64,
}

/// A row of the `MilestoneComicRow` statistics query.
#[derive(Clone, Debug, PartialEq, Eq)]
pub struct MilestoneComicRow {
    pub comic_id: u16,
    pub title: String,
    pub pub_date: Option<String>,
    pub is_guest_comic: u8,
    pub is_non_canon: u8,
}

/// A row of the `LocationSeasonRow` statistics query.
#[derive(Clone, Debug, PartialEq, Eq)]
pub struct LocationSeasonRow {
    pub id: u16,
    pub name: String,
    pub month: Option<i32>,
    pub appearances: i64,
}

/// A row of the `LocationSocialHubRow` statistics query.
#[derive(Clone, Debug, PartialEq, Eq)]
pub struct LocationSocialHubRow {
    pub id: u16,
    pub name: String,
    pub appearances: i64,
    pub distinct_characters: i64,
}

/// A row of the `LocationTurnoverRow` statistics query.
#[derive(Copy, Clone, Debug, PartialEq, Eq, Structural)]
pub struct LocationTurnoverRow {
    pub year: Option<i32>,
    pub new_locations: i64,
    pub continuing_locations: i64,
    pub returning_locations: i64,
    pub dropped_locations: Option<i64>,
}

} // verus!
