use crust_of_rust::atomics::{allocate_new_id, claimed_id, fetch_add, step_counter, ID_LIMIT};
use std::sync::atomic::{AtomicU32, Ordering};

#[test]
fn ids_count_up_from_where_the_counter_stands() {
    let next_id = AtomicU32::new(0);
    assert_eq!(allocate_new_id(&next_id), Some(0));
    assert_eq!(allocate_new_id(&next_id), Some(1));
    assert_eq!(allocate_new_id(&next_id), Some(2));
    assert_eq!(next_id.load(Ordering::Relaxed), 3);
}

#[test]
fn ids_run_out_at_the_limit() {
    let next_id = AtomicU32::new(998);
    assert_eq!(allocate_new_id(&next_id), Some(998));
    assert_eq!(allocate_new_id(&next_id), Some(999));
    assert_eq!(allocate_new_id(&next_id), None);
    assert_eq!(allocate_new_id(&next_id), None);
    assert_eq!(next_id.load(Ordering::Relaxed), 1000);
}

#[test]
fn every_id_is_handed_out_once() {
    let next_id = AtomicU32::new(0);
    let mut seen = Vec::new();
    while let Some(id) = allocate_new_id(&next_id) {
        seen.push(id);
    }
    assert_eq!(seen, (0..ID_LIMIT).collect::<Vec<u32>>());
}

#[test]
fn counter_steps_by_one_below_the_limit() {
    assert_eq!(step_counter(0), Some(1));
    assert_eq!(step_counter(999), Some(1000));
    assert_eq!(step_counter(1000), None);
    assert_eq!(step_counter(u32::MAX), None);
}

#[test]
fn fetch_add_returns_what_was_there_and_wraps() {
    assert_eq!(fetch_add(), (0, 23, i32::MIN));
}

#[test]
fn a_claim_wins_the_number_the_counter_gave_up() {
    assert_eq!(claimed_id(Ok(0)), Some(0));
    assert_eq!(claimed_id(Ok(999)), Some(999));
    assert_eq!(claimed_id(Err(1000)), None);
    assert_eq!(claimed_id(Err(u32::MAX)), None);
}
