use burn_train::{checkpoint_file, to_decimal, ArtifactKind};

#[test]
fn decimal_writing() {
    assert_eq!(to_decimal(0), "0");
    assert_eq!(to_decimal(7), "7");
    assert_eq!(to_decimal(10), "10");
    assert_eq!(to_decimal(120), "120");
    assert_eq!(to_decimal(usize::MAX), usize::MAX.to_string());
}

#[test]
fn checkpoint_file_names() {
    let dir = "run/checkpoint".to_string();
    assert_eq!(checkpoint_file(&dir, ArtifactKind::Model, 3), "run/checkpoint/model-3");
    assert_eq!(checkpoint_file(&dir, ArtifactKind::Optim, 12), "run/checkpoint/optim-12");
    assert_eq!(
        checkpoint_file(&dir, ArtifactKind::Scheduler, 105),
        "run/checkpoint/scheduler-105"
    );
}
