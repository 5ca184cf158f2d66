use burn_train::should_update;

fn update_steps(steps: usize, k: Option<usize>) -> Vec<usize> {
    (1..=steps).filter(|s| should_update(*s, steps, k)).collect()
}

#[test]
fn accumulation_updates_ceil_of_steps_over_factor() {
    assert_eq!(update_steps(10, Some(3)), vec![3, 6, 9, 10]);
    assert_eq!(update_steps(9, Some(3)), vec![3, 6, 9]);
    assert_eq!(update_steps(2, Some(5)), vec![2]);
}

#[test]
fn accumulation_sums_gradients_per_update() {
    let grads = [1i64, 2, 3, 4, 5, 6, 7];
    let mut fed = Vec::new();
    let mut held = 0i64;
    for (i, g) in grads.iter().enumerate() {
        held += g;
        if should_update(i + 1, grads.len(), Some(3)) {
            fed.push(held);
            held = 0;
        }
    }
    assert_eq!(fed, vec![6, 15, 7]);
}

#[test]
fn no_accumulation_updates_every_step() {
    assert_eq!(update_steps(4, None), vec![1, 2, 3, 4]);
    assert_eq!(update_steps(4, Some(1)), vec![1, 2, 3, 4]);
}
