use burn_train::{ArtifactKind, Checkpoint, CheckpointError, Checkpointer, LearnerCheckpointer, TrainingRecord};

fn record(v: u8) -> TrainingRecord {
    TrainingRecord { model: vec![v], optim: vec![v, 1], scheduler: vec![v, 2] }
}

#[test]
fn retention_keeps_most_recent_epochs() {
    let mut c = Checkpointer::new(2);
    for e in 1..=5usize {
        assert_eq!(c.save(e, vec![e as u8]), Ok(()));
    }
    c.flush();
    assert_eq!(c.retained_epochs(), vec![4, 5]);
}

#[test]
fn retention_with_three_kept_after_six_saves() {
    let mut c = Checkpointer::new(3);
    for e in 1..=6usize {
        c.save(e * 10, vec![e as u8]).unwrap();
        c.write_next();
    }
    assert_eq!(c.retained_epochs(), vec![40, 50, 60]);
}

#[test]
fn fewer_saves_than_retention_keeps_all() {
    let mut c = Checkpointer::new(4);
    c.save(1, vec![1]).unwrap();
    c.save(2, vec![2]).unwrap();
    c.flush();
    assert_eq!(c.retained_epochs(), vec![1, 2]);
}

#[test]
fn writes_wait_in_queue_until_applied() {
    let mut c = Checkpointer::new(2);
    c.save(1, vec![1]).unwrap();
    c.save(2, vec![2]).unwrap();
    assert_eq!(c.retained_epochs(), Vec::<usize>::new());
    assert!(c.write_next());
    assert_eq!(c.retained_epochs(), vec![1]);
    assert!(c.write_next());
    assert!(!c.write_next());
    assert_eq!(c.retained_epochs(), vec![1, 2]);
}

#[test]
fn load_round_trip_of_queued_write() {
    let mut c = Checkpointer::new(2);
    c.save(7, vec![9, 8, 7]).unwrap();
    assert_eq!(c.get(7), None);
    assert_eq!(c.load(7), Ok(vec![9, 8, 7]));
}

#[test]
fn load_evicted_epoch_is_not_found() {
    let mut c = Checkpointer::new(2);
    for e in 1..=3usize {
        c.save(e, vec![e as u8]).unwrap();
    }
    assert_eq!(c.load(1), Err(CheckpointError::NotFound));
    assert_eq!(c.load(2), Ok(vec![2]));
    assert_eq!(c.load(3), Ok(vec![3]));
}

#[test]
fn load_never_written_epoch_is_not_found() {
    let mut c = Checkpointer::new(2);
    c.save(1, vec![1]).unwrap();
    assert_eq!(c.load(5), Err(CheckpointError::NotFound));
}

#[test]
fn save_of_older_epoch_is_refused() {
    let mut c = Checkpointer::new(2);
    c.save(3, vec![3]).unwrap();
    assert_eq!(c.save(3, vec![4]), Err(CheckpointError::EpochNotIncreasing));
    assert_eq!(c.save(2, vec![2]), Err(CheckpointError::EpochNotIncreasing));
    assert_eq!(c.load(3), Ok(vec![3]));
}

#[test]
fn learner_checkpointer_round_trip() {
    let mut c = LearnerCheckpointer::new(2);
    c.save(1, record(10)).unwrap();
    c.save(2, record(20)).unwrap();
    let r = c.load(2).unwrap();
    assert_eq!(r.model, vec![20]);
    assert_eq!(r.optim, vec![20, 1]);
    assert_eq!(r.scheduler, vec![20, 2]);
}

#[test]
fn learner_checkpointer_refuses_mixed_epochs() {
    let mut c = LearnerCheckpointer::new(2);
    c.save(1, record(1)).unwrap();
    c.model.save(2, vec![2]).unwrap();
    assert!(matches!(
        c.load(2),
        Err(CheckpointError::ArtifactNotFound { kind: ArtifactKind::Optim })
    ));
    assert!(c.load(1).is_ok());
}

#[test]
fn learner_checkpointer_save_out_of_order() {
    let mut c = LearnerCheckpointer::new(2);
    c.save(2, record(2)).unwrap();
    assert!(matches!(c.save(1, record(1)), Err(CheckpointError::EpochNotIncreasing)));
}

#[test]
fn failed_write_keeps_retained_checkpoints() {
    let mut c = Checkpointer::new(2);
    c.save(1, vec![1]).unwrap();
    c.save(2, vec![2]).unwrap();
    c.flush();
    c.save(3, vec![3]).unwrap();
    assert!(c.drop_next());
    assert!(!c.drop_next());
    assert_eq!(c.retained_epochs(), vec![1, 2]);
    assert_eq!(c.load(3), Err(CheckpointError::NotFound));
    assert_eq!(c.load(1), Ok(vec![1]));
    c.save(4, vec![4]).unwrap();
    c.flush();
    assert_eq!(c.retained_epochs(), vec![2, 4]);
}

#[test]
fn restored_checkpointer_evicts_earlier_run() {
    let found = vec![
        Checkpoint { epoch: 3, payload: vec![3] },
        Checkpoint { epoch: 4, payload: vec![4] },
    ];
    let mut c = Checkpointer::restored(2, found).unwrap();
    assert_eq!(c.load(4), Ok(vec![4]));
    assert_eq!(c.save(4, vec![9]), Err(CheckpointError::EpochNotIncreasing));
    c.save(5, vec![5]).unwrap();
    c.flush();
    assert_eq!(c.retained_epochs(), vec![4, 5]);
}

#[test]
fn restored_refuses_bad_history() {
    let unordered = vec![
        Checkpoint { epoch: 4, payload: vec![] },
        Checkpoint { epoch: 3, payload: vec![] },
    ];
    assert!(Checkpointer::restored(2, unordered).is_none());
    let too_many = vec![
        Checkpoint { epoch: 1, payload: vec![] },
        Checkpoint { epoch: 2, payload: vec![] },
        Checkpoint { epoch: 3, payload: vec![] },
    ];
    assert!(Checkpointer::restored(2, too_many).is_none());
}
