use crust_of_rust::cell::Cell;

#[test]
fn cell_gives_back_what_was_set_last() {
    let cell = Cell::new(5);
    assert_eq!(cell.get(), 5);
    cell.set(10);
    assert_eq!(cell.get(), 10);
}

#[test]
fn cell_is_changed_through_shared_references() {
    let cell = Cell::new(1);
    let first = &cell;
    let second = &cell;
    first.set(first.get() + 1);
    second.set(second.get() + 1);
    assert_eq!(cell.get(), 3);
}
