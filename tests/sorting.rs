use algorithms::bottom_up::fib;
use algorithms::merge_sort::merge_sort;

#[test]
fn fib_of_ten_is_55() {
    assert_eq!(fib(10), 55);
}

#[test]
fn fib_base_cases() {
    assert_eq!(fib(0), 0);
    assert_eq!(fib(1), 1);
    assert_eq!(fib(2), 1);
}

#[test]
fn fib_largest_that_fits() {
    assert_eq!(fib(93), 12200160415121876738);
}

#[test]
fn merge_sort_example() {
    let mut arr = [5, 3, 8, 4, 2, 1];
    merge_sort(&mut arr);
    assert_eq!(arr, [1, 2, 3, 4, 5, 8]);
}

#[test]
fn merge_sort_empty_and_single() {
    let mut empty: [i32; 0] = [];
    merge_sort(&mut empty);
    assert_eq!(empty, []);
    let mut one = [42];
    merge_sort(&mut one);
    assert_eq!(one, [42]);
}

#[test]
fn merge_sort_keeps_duplicates_and_negatives() {
    let mut arr = vec![3, -1, 3, 0, i32::MIN, i32::MAX, -1, 2];
    merge_sort(&mut arr);
    assert_eq!(arr, vec![i32::MIN, -1, -1, 0, 2, 3, 3, i32::MAX]);
}

#[test]
fn merge_sort_already_sorted_and_reversed() {
    let mut asc = [1, 2, 3, 4, 5];
    merge_sort(&mut asc);
    assert_eq!(asc, [1, 2, 3, 4, 5]);
    let mut desc = [9, 7, 5, 3, 1, 0];
    merge_sort(&mut desc);
    assert_eq!(desc, [0, 1, 3, 5, 7, 9]);
}
