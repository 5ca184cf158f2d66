//! Training-loop orchestration: the epoch state machine of a run, checkpoint retention,
//! gradient accumulation, ordered metric delivery, the split of work over devices and the
//! configuration of a run.
pub mod accumulation;
pub mod builder;
pub mod checkpoint;
pub mod devices;
pub mod interrupter;
pub mod learner;
pub mod metrics;
pub mod naming;

pub use accumulation::should_update;
pub use builder::{ConfigError, LearnerBuilder, LearnerSetup, MetricRegistration};
pub use checkpoint::{Checkpoint, CheckpointError, Checkpointer, LearnerCheckpointer, TrainingRecord};
pub use devices::split_batch;
pub use interrupter::TrainingInterrupter;
pub use learner::{Action, EpochEnd, Learner, LearnerConfig, Outcome, RunState};
pub use metrics::{MetricQueue, Split};
pub use naming::{checkpoint_file, to_decimal, ArtifactKind};
