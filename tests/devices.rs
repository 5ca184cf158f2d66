use burn_train::split_batch;

#[test]
fn batch_split_evenly() {
    assert_eq!(split_batch(8, 2), vec![(0, 4), (4, 8)]);
}

#[test]
fn batch_split_remainder_to_first_devices() {
    assert_eq!(split_batch(10, 3), vec![(0, 4), (4, 7), (7, 10)]);
}

#[test]
fn batch_smaller_than_device_count() {
    assert_eq!(split_batch(2, 4), vec![(0, 1), (1, 2), (2, 2), (2, 2)]);
    assert_eq!(split_batch(0, 1), vec![(0, 0)]);
}
