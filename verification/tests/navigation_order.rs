use std::collections::HashSet;

use qcext_server::ids::ItemId;
use qcext_server::navigation::{order_by_last_appearance, ItemFirstLastCount};

fn flc(id: u16) -> ItemFirstLastCount {
    ItemFirstLastCount { id, first: None, last: None, count: 0 }
}

fn order(ids: &[u16]) -> Vec<ItemId> {
    ids.iter().copied().map(ItemId::from).collect()
}

#[test]
fn items_in_order_come_first_then_rest() {
    let counts = vec![flc(1), flc(2), flc(3), flc(4)];
    let appearance_order = order(&[3, 1]);

    let result: Vec<u16> = order_by_last_appearance(&counts, &appearance_order)
        .into_iter()
        .map(|flc| flc.id)
        .collect();

    assert_eq!(&result[..2], &[3, 1]);
    let tail: HashSet<u16> = result[2..].iter().copied().collect();
    assert_eq!(tail, HashSet::from([2, 4]));
}

#[test]
fn empty_appearance_order_returns_all_items() {
    let counts = vec![flc(10), flc(20)];
    let result = order_by_last_appearance(&counts, &[]);
    assert_eq!(result.len(), 2);
}

#[test]
fn all_items_in_appearance_order_no_tail() {
    let counts = vec![flc(5), flc(6), flc(7)];
    let appearance_order = order(&[7, 5, 6]);

    let result: Vec<u16> = order_by_last_appearance(&counts, &appearance_order)
        .into_iter()
        .map(|flc| flc.id)
        .collect();

    assert_eq!(result, vec![7, 5, 6]);
}

#[test]
fn ordering_keeps_each_item_once_with_its_counts() {
    let counts = vec![
        ItemFirstLastCount { id: 1, first: Some(1), last: Some(9), count: 4 },
        ItemFirstLastCount { id: 2, first: Some(2), last: Some(3), count: 2 },
        ItemFirstLastCount { id: 3, first: None, last: None, count: 0 },
    ];
    let result = order_by_last_appearance(&counts, &order(&[2]));
    assert_eq!(result.len(), 3);
    assert_eq!(result[0], counts[1]);
    assert_eq!(result[1], counts[0]);
    assert_eq!(result[2], counts[2]);
}
