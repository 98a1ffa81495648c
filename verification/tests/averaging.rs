use loadcell::average::average;
use loadcell::error::AcquisitionError;
use loadcell::measurement::{tare, weigh};

#[test]
fn average_of_nothing_is_an_error() {
    assert_eq!(average(&vec![]), Err(AcquisitionError::InsufficientSamples));
}

#[test]
fn average_of_one_is_that_sample() {
    assert_eq!(average(&vec![42]), Ok(42));
    assert_eq!(average(&vec![-7]), Ok(-7));
    assert_eq!(average(&vec![i32::MIN]), Ok(i32::MIN));
    assert_eq!(average(&vec![i32::MAX]), Ok(i32::MAX));
}

#[test]
fn average_truncates_toward_zero() {
    assert_eq!(average(&vec![1, 2]), Ok(1));
    assert_eq!(average(&vec![-1, -2]), Ok(-1));
    assert_eq!(average(&vec![-1, 0]), Ok(0));
    assert_eq!(average(&vec![7, 7, 8]), Ok(7));
    assert_eq!(average(&vec![-7, -7, -8]), Ok(-7));
    assert_eq!(average(&vec![-10, 3]), Ok(-3));
}

#[test]
fn average_does_not_overflow() {
    assert_eq!(average(&vec![i32::MAX, i32::MAX, i32::MAX]), Ok(i32::MAX));
    assert_eq!(average(&vec![i32::MIN, i32::MIN, i32::MIN]), Ok(i32::MIN));
    assert_eq!(average(&vec![i32::MIN, i32::MAX]), Ok(0));
    assert_eq!(average(&vec![8388607; 1000]), Ok(8388607));
    assert_eq!(average(&vec![-8388608; 1000]), Ok(-8388608));
}

#[test]
fn average_lies_between_the_extremes() {
    let windows: Vec<Vec<i32>> = vec![
        vec![3, -9, 27, 0, 5],
        vec![-5, -6, -7, -100],
        vec![8388607, -8388608, 12, 1],
        vec![1, 1, 1, 2],
    ];
    for w in windows {
        let mean = average(&w).unwrap();
        let lo = *w.iter().min().unwrap();
        let hi = *w.iter().max().unwrap();
        assert!(lo <= mean && mean <= hi);
    }
}

#[test]
fn tare_of_the_unloaded_window() {
    let unloaded = vec![1000, 1002, 998, 1001, 999, 1000, 1003, 997];
    assert_eq!(tare(&unloaded), Ok(1000));
    assert_eq!(tare(&vec![]), Err(AcquisitionError::InsufficientSamples));
}

#[test]
fn weight_is_zero_on_the_unloaded_window() {
    let unloaded = vec![1000, 1002, 998, 1001, 999, 1000, 1003, 997];
    let offset = tare(&unloaded).unwrap();
    assert_eq!(weigh(&unloaded, offset), Ok(0));
    assert_eq!(weigh(&unloaded, offset), Ok(0));
}

#[test]
fn weight_follows_a_constant_offset() {
    let unloaded = vec![1000, 1002, 998, 1001, 999, 1000, 1003, 997];
    let loaded: Vec<i32> = unloaded.iter().map(|v| v + 500).collect();
    let offset = tare(&unloaded).unwrap();
    assert_eq!(weigh(&loaded, offset), Ok(500));
    let lighter: Vec<i32> = unloaded.iter().map(|v| v - 1500).collect();
    assert_eq!(weigh(&lighter, offset), Ok(-1500));
}

#[test]
fn offset_across_zero_is_within_one() {
    let unloaded = vec![-1, -2];
    let loaded = vec![2, 1];
    let offset = tare(&unloaded).unwrap();
    assert_eq!(offset, -1);
    assert_eq!(weigh(&loaded, offset), Ok(2));
}

#[test]
fn weigh_rejects_an_empty_window_and_spans_the_range() {
    assert_eq!(weigh(&vec![], 5), Err(AcquisitionError::InsufficientSamples));
    assert_eq!(weigh(&vec![i32::MAX], i32::MIN), Ok(4294967295));
    assert_eq!(weigh(&vec![i32::MIN], i32::MAX), Ok(-4294967295));
}

#[test]
fn weigh_is_repeatable() {
    let window = vec![120, 130, 125, 119];
    assert_eq!(weigh(&window, 100), weigh(&window, 100));
    assert_eq!(weigh(&window, 100), Ok(23));
}
