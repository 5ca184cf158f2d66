use vstd::prelude::*;
use vstd::string::StringExecFns;
use crate::checkpoint::LearnerCheckpointer;
use crate::learner::{Learner, LearnerConfig, RunState};
use crate::interrupter::TrainingInterrupter;
use crate::metrics::Split;

verus! {

/// A metric to compute on one split, by name; plotted ones feed a live plot series.
#[derive(Debug)]
pub struct MetricRegistration {
    pub name: String,
    pub split: Split,
    pub plot: bool,
}

/// Why a configuration cannot start a run.
#[derive(Debug, Clone, Copy, PartialEq, Eq, Structural)]
pub enum ConfigError {
    /// The device list is empty.
    NoDevice,
    /// The gradient accumulation factor is zero.
    ZeroAccumulation,
    /// The checkpointer would keep no checkpoint.
    ZeroRetention,
}

/// Everything a run needs, produced by [`LearnerBuilder::build`].
pub struct LearnerSetup {
    pub learner: Learner,
    /// Present when a file checkpointer was configured.
    pub checkpointer: Option<LearnerCheckpointer>,
    pub devices: Vec<usize>,
    pub metrics: Vec<MetricRegistration>,
    /// Directory under which the checkpoint files are written.
    pub checkpoint_dir: String,
    pub train_log: String,
    pub valid_log: String,
    /// Where the run's diagnostics are written, when logging to a file.
    pub experiment_log: Option<String>,
    pub custom_loggers: bool,
    pub custom_renderer: bool,
    /// The flag the run polls at each epoch's end.
    pub interrupter: TrainingInterrupter,
}

/// Configures a run.
pub struct LearnerBuilder {
    pub directory: String,
    pub num_epochs: usize,
    pub checkpoint: Option<usize>,
    pub grad_accumulation: Option<usize>,
    /// Indices of the compute devices to run on.
    pub devices: Vec<usize>,
    /// Retention of the file checkpointer, when one is configured.
    pub num_keep: Option<usize>,
    pub metrics: Vec<MetricRegistration>,
    pub custom_loggers: bool,
    pub custom_renderer: bool,
    pub log_to_file: bool,
    pub interrupter: TrainingInterrupter,
}

/// `dir` followed by `suffix`.
pub open spec fn under(dir: Seq<char>, suffix: Seq<char>) -> Seq<char> {
    dir + suffix
}

fn join(dir: &String, suffix: &str) -> (r: String)
    ensures
        r@ == under(dir@, suffix@),
{
    dir.clone().concat(suffix)
}

impl LearnerBuilder {
    /// A builder for a run writing under `directory`: one epoch, the default device, no
    /// checkpointer, no metric, logging to a file.
    pub fn new(directory: &str) -> (r: LearnerBuilder)
        ensures
            r.directory@ == directory@,
            r.num_epochs == 1,
            r.checkpoint.is_none(),
            r.grad_accumulation.is_none(),
            r.devices@ == seq![0usize],
            r.num_keep.is_none(),
            r.metrics@.len() == 0,
            !r.custom_loggers && !r.custom_renderer,
            r.log_to_file,
    {
        LearnerBuilder {
            directory: String::from_str(directory),
            num_epochs: 1,
            checkpoint: None,
            grad_accumulation: None,
            devices: vec![0usize],
            num_keep: None,
            metrics: Vec::new(),
            custom_loggers: false,
            custom_renderer: false,
            log_to_file: true,
            interrupter: TrainingInterrupter::new(),
        }
    }

    fn register(self, name: String, split: Split, plot: bool) -> (r: LearnerBuilder)
        ensures
            r == (LearnerBuilder { metrics: r.metrics, ..self }),
            r.metrics@ == self.metrics@.push(MetricRegistration { name, split, plot }),
    {
        let mut metrics = self.metrics;
        metrics.push(MetricRegistration { name, split, plot });
        LearnerBuilder { metrics, ..self }
    }

    /// Replaces the default file loggers with loggers supplied to the run.
    pub fn metric_loggers(self) -> (r: LearnerBuilder)
        ensures
            r == (LearnerBuilder { custom_loggers: true, ..self }),
    {
        LearnerBuilder { custom_loggers: true, ..self }
    }

    /// Replaces the default renderer with one supplied to the run.
    pub fn renderer(self) -> (r: LearnerBuilder)
        ensures
            r == (LearnerBuilder { custom_renderer: true, ..self }),
    {
        LearnerBuilder { custom_renderer: true, ..self }
    }

    /// Registers a training metric.
    pub fn metric_train(self, name: String) -> (r: LearnerBuilder)
        ensures
            r == (LearnerBuilder { metrics: r.metrics, ..self }),
            r.metrics@ == self.metrics@.push(
                MetricRegistration { name, split: Split::Train, plot: false },
            ),
    {
        self.register(name, Split::Train, false)
    }

    /// Registers a validation metric.
    pub fn metric_valid(self, name: String) -> (r: LearnerBuilder)
        ensures
            r == (LearnerBuilder { metrics: r.metrics, ..self }),
            r.metrics@ == self.metrics@.push(
                MetricRegistration { name, split: Split::Valid, plot: false },
            ),
    {
        self.register(name, Split::Valid, false)
    }

    /// Registers a numeric training metric shown on a plot.
    pub fn metric_train_plot(self, name: String) -> (r: LearnerBuilder)
        ensures
            r == (LearnerBuilder { metrics: r.metrics, ..self }),
            r.metrics@ == self.metrics@.push(
                MetricRegistration { name, split: Split::Train, plot: true },
            ),
    {
        self.register(name, Split::Train, true)
    }

    /// Registers a numeric validation metric shown on a plot.
    pub fn metric_valid_plot(self, name: String) -> (r: LearnerBuilder)
        ensures
            r == (LearnerBuilder { metrics: r.metrics, ..self }),
            r.metrics@ == self.metrics@.push(
                MetricRegistration { name, split: Split::Valid, plot: true },
            ),
    {
        self.register(name, Split::Valid, true)
    }

    /// Sums the gradients of `accumulation` steps per optimizer update; the sum is not
    /// scaled, so a lower learning rate may compensate.
    pub fn grads_accumulation(self, accumulation: usize) -> (r: LearnerBuilder)
        ensures
            r == (LearnerBuilder { grad_accumulation: Some(accumulation), ..self }),
    {
        LearnerBuilder { grad_accumulation: Some(accumulation), ..self }
    }

    /// The number of epochs the run lasts.
    pub fn num_epochs(self, num_epochs: usize) -> (r: LearnerBuilder)
        ensures
            r == (LearnerBuilder { num_epochs, ..self }),
    {
        LearnerBuilder { num_epochs, ..self }
    }

    /// Runs on the devices with these indices.
    pub fn devices(self, devices: Vec<usize>) -> (r: LearnerBuilder)
        ensures
            r == (LearnerBuilder { devices, ..self }),
    {
        LearnerBuilder { devices, ..self }
    }

    /// The epoch whose checkpoint the run resumes from.
    pub fn checkpoint(self, checkpoint: usize) -> (r: LearnerBuilder)
        ensures
            r == (LearnerBuilder { checkpoint: Some(checkpoint), ..self }),
    {
        LearnerBuilder { checkpoint: Some(checkpoint), ..self }
    }

    /// Whether the run's diagnostics go to `experiment.log` in the directory.
    pub fn log_to_file(self, enabled: bool) -> (r: LearnerBuilder)
        ensures
            r == (LearnerBuilder { log_to_file: enabled, ..self }),
    {
        LearnerBuilder { log_to_file: enabled, ..self }
    }

    /// A handle on the flag that interrupts the run.
    pub fn interrupter(&self) -> (r: TrainingInterrupter)
        ensures
            r == self.interrupter,
    {
        self.interrupter.share()
    }

    /// Saves the model, optimizer and scheduler at each epoch's end, keeping the `num_keep`
    /// most recent checkpoints of each. Keep at least two: the newest may be cut short by a
    /// crash while it is written.
    pub fn with_file_checkpointer(self, num_keep: usize) -> (r: LearnerBuilder)
        ensures
            r == (LearnerBuilder { num_keep: Some(num_keep), ..self }),
    {
        LearnerBuilder { num_keep: Some(num_keep), ..self }
    }

    /// Which configuration error, if any, the builder holds.
    pub open spec fn spec_error(&self) -> Option<ConfigError> {
        if self.devices@.len() == 0 {
            Some(ConfigError::NoDevice)
        } else if self.grad_accumulation == Some(0usize) {
            Some(ConfigError::ZeroAccumulation)
        } else if self.num_keep == Some(0usize) {
            Some(ConfigError::ZeroRetention)
        } else {
            None
        }
    }

    /// Checks the configuration and assembles the run; fails before any run starts on an
    /// empty device list, a zero accumulation factor or a zero retention.
    pub fn build(self) -> (r: Result<LearnerSetup, ConfigError>)
        ensures
            match self.spec_error() {
                Some(e) => r == Err::<LearnerSetup, ConfigError>(e),
                None => r matches Ok(s) && {
                    &&& s.learner.wf()
                    &&& s.learner.state == RunState::Idle
                    &&& s.learner.config == (LearnerConfig {
                        num_epochs: self.num_epochs,
                        checkpoint: self.checkpoint,
                        grad_accumulation: self.grad_accumulation,
                        checkpointing: self.num_keep.is_some(),
                        num_devices: self.devices@.len() as usize,
                    })
                    &&& match self.num_keep {
                        Some(k) => s.checkpointer matches Some(c) && c.wf() && c.model.num_keep
                            == k && c.optim.num_keep == k && c.scheduler.num_keep == k
                            && c.model.submitted().len() == 0 && c.optim.submitted().len() == 0
                            && c.scheduler.submitted().len() == 0,
                        None => s.checkpointer.is_none(),
                    }
                    &&& s.devices == self.devices
                    &&& s.metrics == self.metrics
                    &&& s.checkpoint_dir@ == under(self.directory@, "/checkpoint"@)
                    &&& s.train_log@ == under(self.directory@, "/train"@)
                    &&& s.valid_log@ == under(self.directory@, "/valid"@)
                    &&& if self.log_to_file {
                        s.experiment_log matches Some(p) && p@ == under(
                            self.directory@,
                            "/experiment.log"@,
                        )
                    } else {
                        s.experiment_log.is_none()
                    }
                    &&& s.custom_loggers == self.custom_loggers
                    &&& s.custom_renderer == self.custom_renderer
                    &&& s.interrupter == self.interrupter
                },
            },
    {
        if self.devices.len() == 0 {
            return Err(ConfigError::NoDevice);
        }
        if self.grad_accumulation == Some(0usize) {
            return Err(ConfigError::ZeroAccumulation);
        }
        let checkpointer = match self.num_keep {
            Some(k) => {
                if k == 0 {
                    return Err(ConfigError::ZeroRetention);
                }
                Some(LearnerCheckpointer::new(k))
            },
            None => None,
        };
        let config = LearnerConfig {
            num_epochs: self.num_epochs,
            checkpoint: self.checkpoint,
            grad_accumulation: self.grad_accumulation,
            checkpointing: self.num_keep.is_some(),
            num_devices: self.devices.len(),
        };
        let experiment_log = if self.log_to_file {
            Some(join(&self.directory, "/experiment.log"))
        } else {
            None
        };
        Ok(LearnerSetup {
            learner: Learner::new(config),
            checkpointer,
            checkpoint_dir: join(&self.directory, "/checkpoint"),
            train_log: join(&self.directory, "/train"),
            valid_log: join(&self.directory, "/valid"),
            experiment_log,
            devices: self.devices,
            metrics: self.metrics,
            custom_loggers: self.custom_loggers,
            custom_renderer: self.custom_renderer,
            interrupter: self.interrupter,
        })
    }
}

} // verus!
