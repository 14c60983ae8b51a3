use rtc::claim::claim_in_order;
use rtc::drain::drain_where;

#[test]
fn what_is_taken_and_what_is_left_keep_their_order() {
    let mut list: Vec<u32> = vec![5, 2, 7, 4, 2];
    let taken = drain_where(&mut list, |x: &u32| *x % 2 == 0);
    assert_eq!(taken, vec![2, 4, 2]);
    assert_eq!(list, vec![5, 7]);
}

#[test]
fn nothing_may_be_there_to_take() {
    let mut list: Vec<u32> = vec![1, 3];
    assert_eq!(drain_where(&mut list, |x: &u32| *x > 3), Vec::<u32>::new());
    assert_eq!(list, vec![1, 3]);
    let mut none: Vec<u32> = vec![];
    assert_eq!(drain_where(&mut none, |_: &u32| true), Vec::<u32>::new());
}

#[test]
fn items_are_put_into_the_order_of_the_keys() {
    let items = vec!["three", "one", "two"];
    let keys: Vec<usize> = vec![3, 5];
    assert_eq!(
        claim_in_order(vec!["three", "one"], &keys, |d: &&str, k: &usize| d.len() == *k),
        Some(vec!["one", "three"])
    );
    assert_eq!(claim_in_order(items, &keys, |d: &&str, k: &usize| d.len() == *k), None);
}

#[test]
fn a_key_without_an_item_fails() {
    let keys: Vec<u16> = vec![1, 2];
    assert_eq!(claim_in_order(vec![1u16, 3], &keys, |d: &u16, k: &u16| d == k), None);
    assert_eq!(claim_in_order(vec![2u16, 1], &keys, |d: &u16, k: &u16| d == k), Some(vec![1, 2]));
}

#[test]
fn items_that_no_key_asks_for_are_dropped() {
    let keys: Vec<u16> = vec![2];
    assert_eq!(claim_in_order(vec![9u16, 2], &keys, |d: &u16, k: &u16| d == k), Some(vec![2]));
    let none: Vec<u16> = vec![];
    assert_eq!(claim_in_order(vec![9u16], &none, |d: &u16, k: &u16| d == k), Some(vec![]));
}

#[test]
fn a_key_asked_for_twice_finds_nothing_the_second_time() {
    let keys: Vec<u16> = vec![2, 2];
    assert_eq!(claim_in_order(vec![2u16, 3], &keys, |d: &u16, k: &u16| d == k), None);
}

#[test]
fn the_order_of_the_items_has_no_influence() {
    let keys: Vec<u16> = vec![3, 1, 2];
    for items in [vec![1u16, 2, 3], vec![1, 3, 2], vec![2, 1, 3], vec![3, 2, 1]] {
        assert_eq!(claim_in_order(items, &keys, |d: &u16, k: &u16| d == k), Some(vec![3, 1, 2]));
    }
}
