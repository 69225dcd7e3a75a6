use collections::stats::{mean_median_mode, StatsError};

fn mean_of(sum: i128, count: usize) -> f64 {
    sum as f64 / count as f64
}

#[test]
fn single_element() {
    let stats = mean_median_mode(&vec![4]).expect("non-empty");
    assert_eq!(mean_of(stats.sum, stats.count), 4.0);
    assert_eq!(stats.median, 4);
    assert_eq!(stats.mode, 4);
}

#[test]
fn even_length_uses_floor_of_middle_average() {
    let stats = mean_median_mode(&vec![1, 2, 3, 4]).expect("non-empty");
    assert_eq!(mean_of(stats.sum, stats.count), 2.5);
    assert_eq!(stats.median, 2);
    // all values tie at one occurrence; the smallest wins the tie-break
    assert_eq!(stats.mode, 1);
}

#[test]
fn repeated_value_wins_the_mode() {
    let stats = mean_median_mode(&vec![1, 2, 2, 3, 4]).expect("non-empty");
    assert_eq!(mean_of(stats.sum, stats.count), 2.4);
    assert_eq!(stats.median, 2);
    assert_eq!(stats.mode, 2);
}

#[test]
fn empty_input_is_an_explicit_error() {
    assert_eq!(mean_median_mode(&Vec::new()), Err(StatsError::EmptyInput));
}

#[test]
fn stats_of_the_driver_example() {
    let numbers = vec![1, 2, 3, 4, 5, 6, 7, 8, 9, 10, 4, 4, 6, 6, 6, 6];
    let stats = mean_median_mode(&numbers).expect("non-empty");
    assert_eq!(stats.sum, 87);
    assert_eq!(stats.count, 16);
    assert_eq!(mean_of(stats.sum, stats.count), 5.4375);
    assert_eq!(stats.median, 6);
    assert_eq!(stats.mode, 6);
}

#[test]
fn median_truncates_toward_zero_for_negatives() {
    let stats = mean_median_mode(&vec![-4, -3]).expect("non-empty");
    assert_eq!(stats.median, -3);
    assert_eq!(stats.sum, -7);
}

#[test]
fn unsorted_input_is_sorted_for_the_median() {
    let stats = mean_median_mode(&vec![9, 1, 5]).expect("non-empty");
    assert_eq!(stats.median, 5);
}
