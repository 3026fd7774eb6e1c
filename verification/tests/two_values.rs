use ledger::two_values::{increased_by_first_item, nth_item, TwoValues};

#[test]
fn nth_item_borrows_the_indexed_element() {
    let arr = [2, 4, 8, 16];
    let n = 2;

    assert_eq!(*nth_item(&arr, &n), 8);
}

#[test]
fn increased_by_first_item_adds_in_place_and_hands_the_borrow_back() {
    let arr = [2, 4, 8, 16];
    let mut n = 2;

    let increased = increased_by_first_item(&arr, &mut n);

    assert_eq!(*increased, 4);
    assert_eq!(n, 4);
}

#[test]
fn two_values_returns_what_it_was_given() {
    let arr = [2, 4, 8, 16];
    let mut n = 2;
    let nth = nth_item(&arr, &n);
    let increased = increased_by_first_item(&arr, &mut n);

    let value = {
        let values = TwoValues::new(&arr[3], increased);

        assert_eq!(*values.get_first(), 16);

        values.get_second()
    };

    assert_eq!(*value, 4);
    assert_eq!(*nth, 8);
}
