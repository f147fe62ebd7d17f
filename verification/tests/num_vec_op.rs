use exercises::num_vec_op::{avg, median, most};

#[test]
fn avg_of_sorted_sample() {
    assert_eq!(avg(&vec![-3, -3, -2, 2]), -1);
}

#[test]
fn avg_rounds_towards_zero() {
    assert_eq!(avg(&vec![1, 2]), 1);
    assert_eq!(avg(&vec![-1, -2]), -1);
    assert_eq!(avg(&vec![-7, 0, 0]), -2);
    assert_eq!(avg(&vec![7, 0, 0]), 2);
    assert_eq!(avg(&vec![-1, 0]), 0);
}

#[test]
fn avg_of_one_element() {
    assert_eq!(avg(&vec![5]), 5);
    assert_eq!(avg(&vec![i32::MIN]), i32::MIN);
    assert_eq!(avg(&vec![i32::MAX]), i32::MAX);
}

#[test]
fn avg_of_large_elements() {
    assert_eq!(avg(&vec![i32::MAX, i32::MAX, i32::MAX]), i32::MAX);
    assert_eq!(avg(&vec![i32::MIN, i32::MIN]), i32::MIN);
    assert_eq!(avg(&vec![i32::MAX, i32::MIN]), 0);
    assert_eq!(avg(&vec![i32::MAX, i32::MAX - 1]), i32::MAX - 1);
}

#[test]
fn median_is_the_middle_element() {
    assert_eq!(median(&vec![-3, -3, -2, 2]), -2);
    assert_eq!(median(&vec![1, 2, 3]), 2);
    assert_eq!(median(&vec![9]), 9);
    assert_eq!(median(&vec![4, 8]), 8);
}

#[test]
fn median_takes_the_list_as_it_is() {
    assert_eq!(median(&vec![5, 1, 9, 0, 2]), 9);
}

#[test]
fn most_of_sorted_sample() {
    assert_eq!(most(&vec![-3, -3, -2, 2]), -3);
}

#[test]
fn most_of_empty_list_is_zero() {
    assert_eq!(most(&Vec::new()), 0);
}

#[test]
fn most_of_one_element() {
    assert_eq!(most(&vec![7]), 7);
    assert_eq!(most(&vec![0]), 0);
    assert_eq!(most(&vec![-1]), -1);
}

#[test]
fn most_counts_scattered_occurrences() {
    assert_eq!(most(&vec![1, 2, 1, 3, 1, 2, 4]), 1);
    assert_eq!(most(&vec![5, 4, 4, 5, 4]), 4);
    assert_eq!(most(&vec![i32::MIN, 3, i32::MIN]), i32::MIN);
}

#[test]
fn most_on_a_tie_gives_one_of_the_most_frequent() {
    for _ in 0..50 {
        let r = most(&vec![1, 2, 2, 1, 3]);
        assert!(r == 1 || r == 2);
    }
}
