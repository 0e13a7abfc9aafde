use std::collections::BTreeMap;

use saguaro_common::durable::{
    add_durable_entry, exceeds_items, BoundedList, MAX_DURABLE_BYTE_ITEMS,
    MAX_DURABLE_COLLECTION_ITEMS,
};
use saguaro_common::stored_query::budget::DecodeBudget;
use saguaro_common::MAX_STORED_QUERY_DECODE_ITEMS;

#[test]
fn nested_durable_collection_rejects_an_extra_item() {
    assert!(BoundedList::<u8>::begin(
        Some(MAX_DURABLE_COLLECTION_ITEMS + 1),
        MAX_DURABLE_COLLECTION_ITEMS
    )
    .is_none());

    let mut list = BoundedList::begin(None, MAX_DURABLE_COLLECTION_ITEMS).unwrap();
    for item in vec![0_u8; MAX_DURABLE_COLLECTION_ITEMS] {
        list.push(item).unwrap();
    }
    assert!(list.is_full());
    assert_eq!(list.push(1), Err(1));
    assert!(
        exceeds_items("durable collection", MAX_DURABLE_COLLECTION_ITEMS)
            .contains("exceeds 65536 items")
    );
}

#[test]
fn nested_durable_collection_accepts_its_limit() {
    let mut list = BoundedList::begin(
        Some(MAX_DURABLE_COLLECTION_ITEMS),
        MAX_DURABLE_COLLECTION_ITEMS,
    )
    .unwrap();
    for item in vec![0_u8; MAX_DURABLE_COLLECTION_ITEMS] {
        list.push(item).unwrap();
    }
    assert_eq!(list.finish().len(), MAX_DURABLE_COLLECTION_ITEMS);
    assert_eq!(MAX_DURABLE_BYTE_ITEMS, 64 * 1024 * 1024);
}

#[test]
fn durable_maps_take_each_key_once() {
    let mut values: BTreeMap<u16, char> = BTreeMap::new();
    assert_eq!(add_durable_entry(&mut values, 3, 'a'), Ok(()));
    assert_eq!(
        add_durable_entry(&mut values, 3, 'b'),
        Err("durable map repeats a key")
    );
    assert_eq!(values.get(&3), Some(&'a'));
}

#[test]
fn stored_query_decoder_shares_an_allocation_budget_across_lists() {
    let mut budget = DecodeBudget { remaining: Some(2) };
    assert!(budget.consume(1));
    assert!(budget.consume(1));
    assert!(!budget.consume(1));
    assert_eq!(budget.remaining, Some(0));
}

#[test]
fn an_inner_query_shares_the_budget_of_the_outer_one() {
    let mut budget = DecodeBudget::unbounded();
    assert!(budget.consume(usize::MAX));
    assert!(budget.enter_query());
    assert!(budget.consume(1));
    assert!(!budget.enter_query());
    assert_eq!(budget.remaining, Some(MAX_STORED_QUERY_DECODE_ITEMS - 1));
}
