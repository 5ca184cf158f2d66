use burn_train::{
    Action, ArtifactKind, CheckpointError, ConfigError, LearnerBuilder, LearnerCheckpointer,
    LearnerSetup, Outcome, RunState, TrainingInterrupter, TrainingRecord,
};

const STEPS: u64 = 4;

fn encode(v: u64) -> TrainingRecord {
    TrainingRecord {
        model: v.to_le_bytes().to_vec(),
        optim: vec![],
        scheduler: vec![],
    }
}

fn decode(r: &TrainingRecord) -> u64 {
    let mut b = [0u8; 8];
    b.copy_from_slice(&r.model);
    u64::from_le_bytes(b)
}

/// Runs a model that adds one to a scalar per step; `interrupt_in` sets the interrupter
/// during that epoch. Returns the outcome, the scalar and the epochs that ran.
fn run(
    setup: &mut LearnerSetup,
    interrupt_in: Option<usize>,
) -> (Outcome, u64, Vec<usize>) {
    let mut value = 0u64;
    let mut ran = Vec::new();
    let mut scheduler_steps = 0usize;
    let mut action = setup.learner.begin();
    loop {
        match action {
            Action::Load { epoch } => {
                let loaded = setup.checkpointer.as_mut().unwrap().load(epoch);
                if let Ok(r) = &loaded {
                    value = decode(r);
                }
                let failed = match loaded {
                    Ok(_) => None,
                    Err(CheckpointError::ArtifactNotFound { kind }) => Some(kind),
                    Err(_) => Some(ArtifactKind::Model),
                };
                action = setup.learner.loaded(failed);
            }
            Action::RunEpoch { epoch } => {
                ran.push(epoch);
                for step in 1..=STEPS {
                    value += 1;
                    if interrupt_in == Some(epoch) && step == 2 {
                        setup.interrupter.stop();
                    }
                }
                let end = setup.learner.epoch_finished(setup.interrupter.should_stop());
                assert!(end.advance_scheduler);
                scheduler_steps += 1;
                if let Some(e) = end.save {
                    setup.checkpointer.as_mut().unwrap().save(e, encode(value)).unwrap();
                }
                action = end.next;
            }
            Action::Finish { outcome } => {
                if let Some(c) = setup.checkpointer.as_mut() {
                    c.model.flush();
                    c.optim.flush();
                    c.scheduler.flush();
                }
                assert_eq!(scheduler_steps, ran.len());
                return (outcome, value, ran);
            }
        }
    }
}

#[test]
fn scenario_three_epochs_keep_two() {
    let mut setup = LearnerBuilder::new("/tmp/run")
        .num_epochs(3)
        .with_file_checkpointer(2)
        .build()
        .unwrap();
    let (outcome, value, ran) = run(&mut setup, None);
    assert_eq!(outcome, Outcome::Completed { last_epoch: 3 });
    assert_eq!(ran, vec![1, 2, 3]);
    let c = setup.checkpointer.as_mut().unwrap();
    assert_eq!(c.model.retained_epochs(), vec![2, 3]);
    assert_eq!(decode(&c.load(3).unwrap()), 3 * STEPS);
    assert_eq!(value, 3 * STEPS);
    assert!(c.load(1).is_err());
}

#[test]
fn scenario_resume_from_epoch_two() {
    let mut setup = LearnerBuilder::new("/tmp/run")
        .num_epochs(4)
        .checkpoint(2)
        .with_file_checkpointer(2)
        .build()
        .unwrap();
    {
        let c = setup.checkpointer.as_mut().unwrap();
        c.save(1, encode(STEPS)).unwrap();
        c.save(2, encode(2 * STEPS)).unwrap();
    }
    let (outcome, value, ran) = run(&mut setup, None);
    assert_eq!(outcome, Outcome::Completed { last_epoch: 4 });
    assert_eq!(ran, vec![3, 4]);
    assert_eq!(value, 4 * STEPS);
}

#[test]
fn scenario_resume_without_checkpoint_fails() {
    let mut setup = LearnerBuilder::new("/tmp/run")
        .num_epochs(4)
        .checkpoint(2)
        .with_file_checkpointer(2)
        .build()
        .unwrap();
    let (outcome, _, ran) = run(&mut setup, None);
    assert_eq!(outcome, Outcome::ResumeFailed { epoch: 2, artifact: ArtifactKind::Model });
    assert!(ran.is_empty());
}

#[test]
fn scenario_interrupt_during_epoch_two() {
    let mut setup = LearnerBuilder::new("/tmp/run")
        .num_epochs(5)
        .with_file_checkpointer(2)
        .build()
        .unwrap();
    let (outcome, value, ran) = run(&mut setup, Some(2));
    assert_eq!(outcome, Outcome::Interrupted { last_epoch: 2 });
    assert_eq!(ran, vec![1, 2]);
    assert_eq!(value, 2 * STEPS);
    let c = setup.checkpointer.as_mut().unwrap();
    assert_eq!(decode(&c.load(2).unwrap()), 2 * STEPS);
}

#[test]
fn interrupt_in_last_epoch_reports_interrupted() {
    let mut setup = LearnerBuilder::new("/tmp/run").num_epochs(2).build().unwrap();
    let (outcome, _, ran) = run(&mut setup, Some(2));
    assert_eq!(outcome, Outcome::Interrupted { last_epoch: 2 });
    assert_eq!(ran, vec![1, 2]);
    assert!(setup.checkpointer.is_none());
}

#[test]
fn zero_epochs_complete_at_once() {
    let mut setup = LearnerBuilder::new("/tmp/run").num_epochs(0).build().unwrap();
    let (outcome, _, ran) = run(&mut setup, None);
    assert_eq!(outcome, Outcome::Completed { last_epoch: 0 });
    assert!(ran.is_empty());
}

#[test]
fn step_failure_ends_run() {
    let mut setup = LearnerBuilder::new("/tmp/run").num_epochs(3).build().unwrap();
    assert_eq!(setup.learner.begin(), Action::RunEpoch { epoch: 1 });
    let failed = Outcome::StepFailed { epoch: 1, step: 3, device: Some(1) };
    assert_eq!(setup.learner.step_failed(3, Some(1)), Action::Finish { outcome: failed });
    assert_eq!(setup.learner.state, RunState::Finished { outcome: failed });
}

#[test]
fn learner_decides_optimizer_steps() {
    let setup = LearnerBuilder::new("/tmp/run").grads_accumulation(2).build().unwrap();
    let steps: Vec<usize> = (1..=5).filter(|s| setup.learner.updates_optimizer(*s, 5)).collect();
    assert_eq!(steps, vec![2, 4, 5]);
}

#[test]
fn build_rejects_bad_configuration() {
    assert!(matches!(
        LearnerBuilder::new("d").devices(vec![]).build(),
        Err(ConfigError::NoDevice)
    ));
    assert!(matches!(
        LearnerBuilder::new("d").grads_accumulation(0).build(),
        Err(ConfigError::ZeroAccumulation)
    ));
    assert!(matches!(
        LearnerBuilder::new("d").with_file_checkpointer(0).build(),
        Err(ConfigError::ZeroRetention)
    ));
}

#[test]
fn build_sets_paths_and_metrics() {
    let s = LearnerBuilder::new("out")
        .metric_train("loss".to_string())
        .metric_valid_plot("accuracy".to_string())
        .devices(vec![0, 1])
        .build()
        .unwrap();
    assert_eq!(s.checkpoint_dir, "out/checkpoint");
    assert_eq!(s.train_log, "out/train");
    assert_eq!(s.valid_log, "out/valid");
    assert_eq!(s.experiment_log, Some("out/experiment.log".to_string()));
    assert_eq!(s.metrics.len(), 2);
    assert_eq!(s.metrics[0].name, "loss");
    assert!(!s.metrics[0].plot);
    assert!(s.metrics[1].plot);
    assert_eq!(s.learner.config.num_devices, 2);
    assert_eq!(s.learner.config.num_epochs, 1);
    let quiet = LearnerBuilder::new("out").log_to_file(false).metric_loggers().renderer().build().unwrap();
    assert_eq!(quiet.experiment_log, None);
    assert!(quiet.custom_loggers && quiet.custom_renderer);
}

#[test]
fn interrupter_handles_share_flag() {
    let b = LearnerBuilder::new("out");
    let handle: TrainingInterrupter = b.interrupter();
    let s = b.build().unwrap();
    assert!(!s.interrupter.should_stop());
    handle.stop();
    assert!(s.interrupter.should_stop());
    let _ = LearnerCheckpointer::new(1);
}

#[test]
fn resume_names_missing_artifact() {
    let mut setup = LearnerBuilder::new("/tmp/run")
        .num_epochs(4)
        .checkpoint(2)
        .with_file_checkpointer(2)
        .build()
        .unwrap();
    {
        let c = setup.checkpointer.as_mut().unwrap();
        c.save(2, encode(8)).unwrap();
        let _ = c.scheduler.drop_next();
    }
    let (outcome, _, ran) = run(&mut setup, None);
    assert_eq!(outcome, Outcome::ResumeFailed { epoch: 2, artifact: ArtifactKind::Scheduler });
    assert!(ran.is_empty());
}
