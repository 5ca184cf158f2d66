use vstd::prelude::*;
use crate::accumulation::{should_update, updates_after};
use crate::naming::ArtifactKind;

verus! {

/// The settings a run is executed with.
#[derive(Debug, Clone, Copy, PartialEq, Eq, Structural)]
pub struct LearnerConfig {
    /// Last epoch of the run (epochs are counted from 1).
    pub num_epochs: usize,
    /// Epoch whose checkpoint the run resumes from.
    pub checkpoint: Option<usize>,
    /// Number of steps whose gradients are summed per optimizer update.
    pub grad_accumulation: Option<usize>,
    /// Whether a checkpointer persists the state at each epoch's end.
    pub checkpointing: bool,
    /// Number of compute devices; each step is split across them.
    pub num_devices: usize,
}

/// How a run ended.
#[derive(Debug, Clone, Copy, PartialEq, Eq, Structural)]
pub enum Outcome {
    /// Every configured epoch ran; `last_epoch` is the last one.
    Completed { last_epoch: usize },
    /// The interrupter was set; the run stopped once `last_epoch` was complete.
    Interrupted { last_epoch: usize },
    /// The checkpoint of `epoch` to resume from could not be loaded: `artifact` is missing or
    /// unreadable.
    ResumeFailed { epoch: usize, artifact: ArtifactKind },
    /// Step `step` of `epoch` failed, on `device` when one device's computation failed.
    StepFailed { epoch: usize, step: usize, device: Option<usize> },
}

/// Where a run stands.
#[derive(Debug, Clone, Copy, PartialEq, Eq, Structural)]
pub enum RunState {
    Idle,
    /// Waiting for the state of `epoch` to be loaded.
    Resuming { epoch: usize },
    /// Running the steps of `epoch`.
    Running { epoch: usize },
    /// The run is over; pending checkpoint and metric work is flushed before returning.
    Finished { outcome: Outcome },
}

/// What the executor of the run does next.
#[derive(Debug, Clone, Copy, PartialEq, Eq, Structural)]
pub enum Action {
    /// Load the checkpoint of `epoch` synchronously, then report whether it succeeded.
    Load { epoch: usize },
    /// Run every step of `epoch`, then report the epoch's end.
    RunEpoch { epoch: usize },
    /// Flush pending checkpoint and metric work, then return `outcome` to the caller.
    Finish { outcome: Outcome },
}

/// Bookkeeping owed at the end of an epoch, before the next action.
#[derive(Debug, Clone, Copy, PartialEq, Eq, Structural)]
pub struct EpochEnd {
    /// Whether the learning-rate scheduler advances (once) for the finished epoch.
    pub advance_scheduler: bool,
    /// Epoch whose state is handed to the checkpointer, if one is configured.
    pub save: Option<usize>,
    pub next: Action,
}

/// The decisions of a training run: which epoch runs, when the state is loaded and saved,
/// and when the run ends.
pub struct Learner {
    pub config: LearnerConfig,
    pub state: RunState,
}

/// The action that starts epoch `epoch` of a run of `num_epochs`, or ends the run when the
/// epochs are exhausted (`last` is then the last epoch run).
pub open spec fn start_from(epoch: usize, num_epochs: usize) -> (RunState, Action) {
    if epoch as int > num_epochs as int {
        let o = Outcome::Completed { last_epoch: (epoch - 1) as usize };
        (RunState::Finished { outcome: o }, Action::Finish { outcome: o })
    } else {
        (RunState::Running { epoch }, Action::RunEpoch { epoch })
    }
}

impl LearnerConfig {
    /// The configuration checks: at least one device and a positive accumulation factor.
    pub open spec fn valid(&self) -> bool {
        &&& self.num_devices >= 1
        &&& self.grad_accumulation matches Some(k) ==> k >= 1
    }
}

impl Learner {
    pub open spec fn wf(&self) -> bool {
        &&& self.config.valid()
        &&& match self.state {
            RunState::Running { epoch } => 1 <= epoch <= self.config.num_epochs,
            RunState::Resuming { epoch } => self.config.checkpoint == Some(epoch),
            _ => true,
        }
    }

    /// Whether the optimizer steps after step `step` (from 1) of an epoch of `steps` steps.
    pub fn updates_optimizer(&self, step: usize, steps: usize) -> (r: bool)
        requires
            self.wf(),
        ensures
            r == updates_after(
                step as int,
                steps as int,
                match self.config.grad_accumulation {
                    Some(k) => k as int,
                    None => 1,
                },
            ),
    {
        should_update(step, steps, self.config.grad_accumulation)
    }

    /// Result of [`Learner::begin`] on an idle learner.
    pub open spec fn spec_begin(&self) -> (RunState, Action) {
        match self.config.checkpoint {
            Some(c) => (RunState::Resuming { epoch: c }, Action::Load { epoch: c }),
            None => start_from(1, self.config.num_epochs),
        }
    }

    /// Result of [`Learner::loaded`] while resuming from `epoch`.
    pub open spec fn spec_loaded(
        epoch: usize,
        failed: Option<ArtifactKind>,
        num_epochs: usize,
    ) -> (RunState, Action) {
        if let Some(artifact) = failed {
            let o = Outcome::ResumeFailed { epoch, artifact };
            (RunState::Finished { outcome: o }, Action::Finish { outcome: o })
        } else if epoch >= num_epochs {
            let o = Outcome::Completed { last_epoch: epoch };
            (RunState::Finished { outcome: o }, Action::Finish { outcome: o })
        } else {
            start_from((epoch + 1) as usize, num_epochs)
        }
    }

    /// Result of [`Learner::epoch_finished`] at the end of `epoch`.
    pub open spec fn spec_epoch_finished(
        epoch: usize,
        interrupted: bool,
        num_epochs: usize,
    ) -> (RunState, Action) {
        if interrupted {
            let o = Outcome::Interrupted { last_epoch: epoch };
            (RunState::Finished { outcome: o }, Action::Finish { outcome: o })
        } else if epoch >= num_epochs {
            let o = Outcome::Completed { last_epoch: epoch };
            (RunState::Finished { outcome: o }, Action::Finish { outcome: o })
        } else {
            (RunState::Running { epoch: (epoch + 1) as usize }, Action::RunEpoch {
                epoch: (epoch + 1) as usize,
            })
        }
    }

    /// An idle learner for `config`.
    pub fn new(config: LearnerConfig) -> (r: Learner)
        requires
            config.valid(),
        ensures
            r.config == config,
            r.state == RunState::Idle,
            r.wf(),
    {
        Learner { config, state: RunState::Idle }
    }

    /// Starts the run: resuming loads the configured checkpoint first; otherwise epoch 1 runs.
    pub fn begin(&mut self) -> (r: Action)
        requires
            old(self).wf(),
            old(self).state == RunState::Idle,
        ensures
            final(self).config == old(self).config,
            final(self).wf(),
            (final(self).state, r) == old(self).spec_begin(),
    {
        let (s, a) = match self.config.checkpoint {
            Some(c) => (RunState::Resuming { epoch: c }, Action::Load { epoch: c }),
            None => Self::start(1, self.config.num_epochs),
        };
        self.state = s;
        a
    }

    fn start(epoch: usize, num_epochs: usize) -> (r: (RunState, Action))
        requires
            epoch >= 1,
        ensures
            r == start_from(epoch, num_epochs),
    {
        if epoch > num_epochs {
            let o = Outcome::Completed { last_epoch: epoch - 1 };
            (RunState::Finished { outcome: o }, Action::Finish { outcome: o })
        } else {
            (RunState::Running { epoch }, Action::RunEpoch { epoch })
        }
    }

    /// Reports whether the checkpoint being resumed from was loaded (`failed` names the
    /// artifact that could not be). A failed load ends the run; a successful one continues
    /// with the epoch after it.
    pub fn loaded(&mut self, failed: Option<ArtifactKind>) -> (r: Action)
        requires
            old(self).wf(),
            old(self).state matches RunState::Resuming { .. },
        ensures
            final(self).config == old(self).config,
            final(self).wf(),
            match old(self).state {
                RunState::Resuming { epoch } => (final(self).state, r) == Self::spec_loaded(
                    epoch,
                    failed,
                    old(self).config.num_epochs,
                ),
                _ => false,
            },
    {
        let epoch = match self.state {
            RunState::Resuming { epoch } => epoch,
            _ => 0,
        };
        let (s, a) = if let Some(artifact) = failed {
            let o = Outcome::ResumeFailed { epoch, artifact };
            (RunState::Finished { outcome: o }, Action::Finish { outcome: o })
        } else if epoch >= self.config.num_epochs {
            let o = Outcome::Completed { last_epoch: epoch };
            (RunState::Finished { outcome: o }, Action::Finish { outcome: o })
        } else {
            Self::start(epoch + 1, self.config.num_epochs)
        };
        self.state = s;
        a
    }

    /// Reports the end of the running epoch, with whether the interrupter was found set. The
    /// scheduler advances once, and the epoch's state is saved when a checkpointer is
    /// configured; then the run either goes on with the next epoch or ends.
    pub fn epoch_finished(&mut self, interrupted: bool) -> (r: EpochEnd)
        requires
            old(self).wf(),
            old(self).state matches RunState::Running { .. },
        ensures
            final(self).config == old(self).config,
            final(self).wf(),
            match old(self).state {
                RunState::Running { epoch } => {
                    &&& r.advance_scheduler
                    &&& r.save == (if old(self).config.checkpointing {
                        Some(epoch)
                    } else {
                        None::<usize>
                    })
                    &&& (final(self).state, r.next) == Self::spec_epoch_finished(
                        epoch,
                        interrupted,
                        old(self).config.num_epochs,
                    )
                },
                _ => false,
            },
    {
        let epoch = match self.state {
            RunState::Running { epoch } => epoch,
            _ => 0,
        };
        let save = if self.config.checkpointing {
            Some(epoch)
        } else {
            None
        };
        let (s, a) = if interrupted {
            let o = Outcome::Interrupted { last_epoch: epoch };
            (RunState::Finished { outcome: o }, Action::Finish { outcome: o })
        } else if epoch >= self.config.num_epochs {
            let o = Outcome::Completed { last_epoch: epoch };
            (RunState::Finished { outcome: o }, Action::Finish { outcome: o })
        } else {
            (RunState::Running { epoch: epoch + 1 }, Action::RunEpoch { epoch: epoch + 1 })
        };
        self.state = s;
        EpochEnd { advance_scheduler: true, save, next: a }
    }

    /// Reports that step `step` of the running epoch failed, on `device` when one device's
    /// computation failed: the run ends, with no retry and no fewer devices.
    pub fn step_failed(&mut self, step: usize, device: Option<usize>) -> (r: Action)
        requires
            old(self).wf(),
            old(self).state matches RunState::Running { .. },
        ensures
            final(self).config == old(self).config,
            final(self).wf(),
            match old(self).state {
                RunState::Running { epoch } => {
                    &&& r == Action::Finish { outcome: Outcome::StepFailed { epoch, step, device } }
                    &&& final(self).state == RunState::Finished {
                        outcome: Outcome::StepFailed { epoch, step, device },
                    }
                },
                _ => false,
            },
    {
        let epoch = match self.state {
            RunState::Running { epoch } => epoch,
            _ => 0,
        };
        let o = Outcome::StepFailed { epoch, step, device };
        self.state = RunState::Finished { outcome: o };
        Action::Finish { outcome: o }
    }
}

/// Interruption: when the interrupter is found set at the end of epoch `epoch`, the run ends
/// right after that epoch, reporting it as the last one, which lies within the configured
/// number of epochs.
pub proof fn lemma_interrupt_ends_after_epoch(l: Learner, epoch: usize)
    requires
        l.wf(),
        l.state == (RunState::Running { epoch }),
    ensures
        Learner::spec_epoch_finished(epoch, true, l.config.num_epochs) == (
            RunState::Finished { outcome: Outcome::Interrupted { last_epoch: epoch } },
            Action::Finish { outcome: Outcome::Interrupted { last_epoch: epoch } },
        ),
        1 <= epoch <= l.config.num_epochs,
{
}

/// Resuming: once the checkpoint of epoch `c` is loaded, the run goes on with epoch `c + 1`
/// and never runs an epoch up to `c` again.
pub proof fn lemma_resume_continues_after(c: usize, num_epochs: usize)
    requires
        c < num_epochs,
    ensures
        Learner::spec_loaded(c, None, num_epochs) == (
            RunState::Running { epoch: (c + 1) as usize },
            Action::RunEpoch { epoch: (c + 1) as usize },
        ),
        forall|e: usize, i: bool|
            c < e ==> (#[trigger] Learner::spec_epoch_finished(e, i, num_epochs).1 matches Action::RunEpoch { epoch }
                ==> epoch > c),
{
}

} // verus!
