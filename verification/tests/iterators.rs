use crust_of_rust::iterators::{flatten, Flatten};

#[test]
fn empty() {
    assert_eq!(flatten(std::iter::empty::<Vec<()>>().collect()).count(), 0)
}

#[test]
fn empty_nested() {
    assert_eq!(flatten(vec![Vec::<()>::new(), vec![], vec![]]).count(), 0)
}

#[test]
fn one() {
    assert_eq!(flatten(std::iter::once(vec![0]).collect()).count(), 1)
}

#[test]
fn two_in_same_vec() {
    assert_eq!(flatten(std::iter::once(vec![0, 1]).collect()).count(), 2)
}

#[test]
fn two_different_vecs() {
    assert_eq!(flatten(vec![vec![0], vec![1]]).count(), 2)
}

#[test]
fn four_in_two_vecs() {
    assert_eq!(flatten(vec![vec![0, 0], vec![1, 1]]).count(), 4)
}

#[test]
fn items_come_in_order_and_empty_vectors_are_passed_over() {
    let mut walk = flatten(vec![vec![], vec![1, 2], vec![], vec![], vec![3], vec![4, 5, 6], vec![]]);
    let mut seen = Vec::new();
    while let Some(item) = walk.next() {
        seen.push(item);
    }
    assert_eq!(seen, vec![1, 2, 3, 4, 5, 6]);
    assert_eq!(walk.next(), None);
}

#[test]
fn count_is_of_what_is_left() {
    let mut walk = Flatten::new(vec![vec!["a", "b"], vec!["c"]]);
    assert_eq!(walk.next(), Some("a"));
    assert_eq!(walk.count(), 2);
}

#[test]
fn items_need_not_be_copied() {
    let mut walk = flatten(vec![vec![String::from("x")], vec![String::from("y")]]);
    assert_eq!(walk.next(), Some(String::from("x")));
    assert_eq!(walk.next(), Some(String::from("y")));
    assert_eq!(walk.next(), None);
}
