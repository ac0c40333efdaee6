use qcext_server::stats::{
    build_co_appearances_response, build_location_affinity_response,
    build_yearly_spotlight_response,
};
use qcext_server::stats_rows::{CoAppearance, LocationAffinityRow, YearlyAppearanceRow};

fn make_co_appearance(
    id1: u16,
    name1: &str,
    app1: i64,
    id2: u16,
    name2: &str,
    app2: i64,
    together: i64,
) -> CoAppearance {
    CoAppearance {
        character1_id: id1,
        character1_name: name1.to_string(),
        character1_appearances: app1,
        character2_id: id2,
        character2_name: name2.to_string(),
        character2_appearances: app2,
        comics_together: together,
    }
}

#[test]
fn build_co_appearances_deduplicates_characters() {
    let rows = vec![
        make_co_appearance(1, "Alice", 100, 2, "Bob", 80, 50),
        make_co_appearance(1, "Alice", 100, 3, "Carol", 60, 30),
    ];
    let response = build_co_appearances_response(rows);
    assert_eq!(response.characters.len(), 3);
    assert_eq!(response.characters[&1].name, "Alice");
    assert_eq!(response.characters[&1].appearances, 100);
    assert_eq!(response.pairs.len(), 2);
}

#[test]
fn build_location_affinity_groups_by_location() {
    let rows = vec![
        LocationAffinityRow {
            location_id: 10,
            location_name: "Coffee Shop".to_string(),
            character_id: 1,
            character_name: "Alice".to_string(),
            comics_together: 30,
        },
        LocationAffinityRow {
            location_id: 10,
            location_name: "Coffee Shop".to_string(),
            character_id: 2,
            character_name: "Bob".to_string(),
            comics_together: 20,
        },
        LocationAffinityRow {
            location_id: 20,
            location_name: "Bar".to_string(),
            character_id: 3,
            character_name: "Carol".to_string(),
            comics_together: 15,
        },
    ];
    let result = build_location_affinity_response(rows);
    assert_eq!(result.len(), 2);
    assert_eq!(result[0].location_name, "Coffee Shop");
    assert_eq!(result[0].top_characters.len(), 2);
    assert_eq!(result[1].location_name, "Bar");
    assert_eq!(result[1].top_characters.len(), 1);
}

#[test]
fn build_location_affinity_caps_at_five_characters() {
    let rows = (1_u16..=7)
        .map(|i| LocationAffinityRow {
            location_id: 10,
            location_name: "Place".to_string(),
            character_id: i,
            character_name: format!("Char{i}"),
            comics_together: i64::from(100 - i),
        })
        .collect();
    let result = build_location_affinity_response(rows);
    assert_eq!(result[0].top_characters.len(), 5);
}

#[test]
fn co_appearance_counts_saturate_into_u32() {
    let rows = vec![make_co_appearance(1, "Alice", -4, 2, "Bob", 5_000_000_000, 7)];
    let response = build_co_appearances_response(rows);
    assert_eq!(response.characters[&1].appearances, u32::MAX);
    assert_eq!(response.characters[&2].appearances, u32::MAX);
    assert_eq!(response.pairs[0].comics_together, 7);
}

fn year_row(year: Option<i32>, id: u16, appearances: i64) -> YearlyAppearanceRow {
    YearlyAppearanceRow {
        year,
        id,
        name: format!("C{id}"),
        color_red: 1,
        color_green: 2,
        color_blue: 3,
        appearances,
    }
}

#[test]
fn yearly_spotlight_keeps_five_per_year_and_skips_rows_without_year() {
    let mut rows: Vec<YearlyAppearanceRow> = (1_u16..=6).map(|i| year_row(Some(2001), i, 50)).collect();
    rows.push(year_row(None, 40, 9));
    rows.push(year_row(Some(2002), 7, 3));
    let response = build_yearly_spotlight_response(rows);
    assert_eq!(response.years.len(), 2);
    assert_eq!(response.years[0].year, 2001);
    assert_eq!(response.years[0].characters.len(), 5);
    assert_eq!(response.years[1].characters.len(), 1);
    assert!(!response.characters.contains_key(&6));
    assert!(!response.characters.contains_key(&40));
    assert_eq!(response.characters.len(), 6);
}
