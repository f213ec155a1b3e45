use location_store::root_actor::{
    CellSource, RootActor, INITIAL_POOL_SIZE, POOL_LOW_WATER, REFRESH_BATCH_SIZE,
};

#[test]
fn pool_numbers() {
    assert_eq!(INITIAL_POOL_SIZE, 15_000);
    assert_eq!(REFRESH_BATCH_SIZE, 4_500);
    assert_eq!(POOL_LOW_WATER, 10_500);
}

#[test]
fn empty_pool_gives_fresh_cells() {
    let mut registry = RootActor::new();
    let a = registry.get_addr("a".to_string()).unwrap();
    assert_eq!(a.source, CellSource::Fresh);
    // the first filling is under way: no refill is asked for
    assert_eq!(a.refresh, None);
    let b = registry.get_addr("b".to_string()).unwrap();
    assert_eq!(b.source, CellSource::Fresh);
    assert_ne!(a.cell, b.cell);
}

#[test]
fn same_location_same_cell() {
    let mut registry = RootActor::new();
    let first = registry.get_addr("a".to_string()).unwrap();
    registry.get_addr("b".to_string()).unwrap();
    let again = registry.get_addr("a".to_string()).unwrap();
    assert_eq!(again.cell, first.cell);
    assert_eq!(again.source, CellSource::Existing);
    assert_eq!(again.refresh, None);
}

#[test]
fn cells_come_from_the_pool_in_order() {
    let mut registry = RootActor::new();
    let cells = registry.pool_refresh_complete(3).unwrap();
    assert_eq!(cells.len(), 3);
    assert!(cells[0] != cells[1] && cells[1] != cells[2] && cells[0] != cells[2]);
    for (i, key) in ["x", "y", "z"].iter().enumerate() {
        let found = registry.get_addr(key.to_string()).unwrap();
        assert_eq!(found.source, CellSource::Pooled);
        assert_eq!(found.cell, cells[i]);
    }
    let next = registry.get_addr("w".to_string()).unwrap();
    assert_eq!(next.source, CellSource::Fresh);
    assert!(!cells.contains(&next.cell));
}

#[test]
fn refill_is_asked_once_below_the_low_water_mark() {
    let mut registry = RootActor::new();
    registry.pool_refresh_complete(POOL_LOW_WATER + 1).unwrap();
    // pool goes from 10501 to 10500: not below the mark
    assert_eq!(registry.get_addr("a".to_string()).unwrap().refresh, None);
    // pool goes to 10499: below
    assert_eq!(registry.get_addr("b".to_string()).unwrap().refresh, Some(REFRESH_BATCH_SIZE));
    // a refill is under way now
    assert_eq!(registry.get_addr("c".to_string()).unwrap().refresh, None);
    // a lookup of a known location never asks
    assert_eq!(registry.get_addr("a".to_string()).unwrap().refresh, None);
    // the refill comes in and leaves the pool above the mark
    let refill = registry.pool_refresh_complete(REFRESH_BATCH_SIZE).unwrap();
    assert_eq!(refill.len(), REFRESH_BATCH_SIZE);
    assert_eq!(registry.get_addr("d".to_string()).unwrap().refresh, None);
}

#[test]
fn refill_is_asked_again_after_one_is_done() {
    let mut registry = RootActor::new();
    registry.pool_refresh_complete(1).unwrap();
    assert_eq!(registry.get_addr("a".to_string()).unwrap().refresh, Some(REFRESH_BATCH_SIZE));
    registry.pool_refresh_complete(2).unwrap();
    assert_eq!(registry.get_addr("b".to_string()).unwrap().refresh, Some(REFRESH_BATCH_SIZE));
}

#[test]
fn empty_refill_ends_the_refill() {
    let mut registry = RootActor::new();
    assert_eq!(registry.pool_refresh_complete(0).unwrap(), Vec::<u64>::new());
    let found = registry.get_addr("a".to_string()).unwrap();
    assert_eq!(found.source, CellSource::Fresh);
    assert_eq!(found.refresh, Some(REFRESH_BATCH_SIZE));
}
