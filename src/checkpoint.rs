use vstd::prelude::*;
use crate::naming::ArtifactKind;

verus! {

/// One persisted artifact state, tagged by the epoch that produced it.
pub struct Checkpoint {
    pub epoch: usize,
    pub payload: Vec<u8>,
}

/// The mathematical value of a checkpoint: its epoch and its bytes.
pub open spec fn ckpt_view(c: Checkpoint) -> (usize, Seq<u8>) {
    (c.epoch, c.payload@)
}

/// Why a checkpoint operation was refused.
#[derive(Debug, Clone, Copy, PartialEq, Eq, Structural)]
pub enum CheckpointError {
    /// No retained checkpoint holds the requested epoch.
    NotFound,
    /// The artifact `kind` has no retained checkpoint for the requested epoch, so the state of
    /// the run cannot be loaded without mixing epochs.
    ArtifactNotFound { kind: ArtifactKind },
    /// A save named an epoch that is not newer than every epoch already submitted.
    EpochNotIncreasing,
}

/// Epochs strictly increase along the sequence.
pub open spec fn strictly_increasing(s: Seq<(usize, Seq<u8>)>) -> bool {
    forall|i: int, j: int| 0 <= i < j < s.len() ==> #[trigger] s[i].0 < #[trigger] s[j].0
}

/// One applied write: append the new checkpoint, then evict the oldest while more than
/// `num_keep` are retained.
pub open spec fn apply_write(
    kept: Seq<(usize, Seq<u8>)>,
    c: (usize, Seq<u8>),
    num_keep: nat,
) -> Seq<(usize, Seq<u8>)> {
    let grown = kept.push(c);
    if grown.len() > num_keep {
        grown.drop_first()
    } else {
        grown
    }
}

/// The retained checkpoints after applying the writes of `queue` in order.
pub open spec fn apply_writes(
    kept: Seq<(usize, Seq<u8>)>,
    queue: Seq<(usize, Seq<u8>)>,
    num_keep: nat,
) -> Seq<(usize, Seq<u8>)>
    decreases queue.len(),
{
    if queue.len() == 0 {
        kept
    } else {
        apply_writes(apply_write(kept, queue[0], num_keep), queue.drop_first(), num_keep)
    }
}

/// The most recent `num_keep` elements of `s` (all of them when there are fewer).
pub open spec fn most_recent(s: Seq<(usize, Seq<u8>)>, num_keep: nat) -> Seq<(usize, Seq<u8>)> {
    if s.len() > num_keep {
        s.subrange(s.len() - num_keep, s.len() as int)
    } else {
        s
    }
}

/// The payload of the checkpoint for `epoch`, if one is in `s`.
pub open spec fn find_epoch(s: Seq<(usize, Seq<u8>)>, epoch: usize) -> Option<Seq<u8>>
    decreases s.len(),
{
    if s.len() == 0 {
        None
    } else if s.last().0 == epoch {
        Some(s.last().1)
    } else {
        find_epoch(s.drop_last(), epoch)
    }
}

/// The state of a run at an epoch's end, one serialized payload per artifact.
pub struct TrainingRecord {
    pub model: Vec<u8>,
    pub optim: Vec<u8>,
    pub scheduler: Vec<u8>,
}

/// Checkpoints of one artifact kind: those written (retained, at most `num_keep`) and those
/// submitted but not yet written, in submission order.
pub struct Checkpointer {
    pub num_keep: usize,
    pub written: Vec<Checkpoint>,
    pub queued: Vec<Checkpoint>,
}

impl Checkpointer {
    pub open spec fn written_view(&self) -> Seq<(usize, Seq<u8>)> {
        self.written@.map_values(|c: Checkpoint| ckpt_view(c))
    }

    pub open spec fn queued_view(&self) -> Seq<(usize, Seq<u8>)> {
        self.queued@.map_values(|c: Checkpoint| ckpt_view(c))
    }

    /// Every checkpoint submitted and still relevant, oldest first.
    pub open spec fn submitted(&self) -> Seq<(usize, Seq<u8>)> {
        self.written_view() + self.queued_view()
    }

    /// What is retained once every queued write has been applied.
    pub open spec fn settled(&self) -> Seq<(usize, Seq<u8>)> {
        apply_writes(self.written_view(), self.queued_view(), self.num_keep as nat)
    }

    pub open spec fn wf(&self) -> bool {
        &&& self.num_keep >= 1
        &&& self.written@.len() <= self.num_keep
        &&& strictly_increasing(self.submitted())
    }

    /// A checkpointer that keeps the `num_keep` most recent checkpoints.
    pub fn new(num_keep: usize) -> (r: Checkpointer)
        requires
            num_keep >= 1,
        ensures
            r.wf(),
            r.num_keep == num_keep,
            r.written_view() == Seq::<(usize, Seq<u8>)>::empty(),
            r.queued_view() == Seq::<(usize, Seq<u8>)>::empty(),
    {
        let r = Checkpointer { num_keep, written: Vec::new(), queued: Vec::new() };
        assert(r.submitted() =~= Seq::<(usize, Seq<u8>)>::empty());
        r
    }

    /// A checkpointer that already retains `found`, the checkpoints left by an earlier run,
    /// oldest first. Refused with `None` when their epochs do not strictly increase or when
    /// there are more than `num_keep` of them.
    pub fn restored(num_keep: usize, found: Vec<Checkpoint>) -> (r: Option<Checkpointer>)
        requires
            num_keep >= 1,
        ensures
            match r {
                Some(c) => {
                    &&& c.wf()
                    &&& c.num_keep == num_keep
                    &&& c.written_view() == found@.map_values(|c: Checkpoint| ckpt_view(c))
                    &&& c.queued_view() == Seq::<(usize, Seq<u8>)>::empty()
                },
                None => found@.len() > num_keep || !strictly_increasing(
                    found@.map_values(|c: Checkpoint| ckpt_view(c)),
                ),
            },
    {
        let ghost v = found@.map_values(|c: Checkpoint| ckpt_view(c));
        if found.len() > num_keep {
            return None;
        }
        let mut i: usize = 1;
        while i < found.len()
            invariant
                v == found@.map_values(|c: Checkpoint| ckpt_view(c)),
                1 <= i,
                found@.len() > 0 ==> i <= found@.len(),
                forall|a: int, b: int| 0 <= a < b < i && b < v.len() ==> #[trigger] v[a].0 < #[trigger] v[b].0,
            decreases found@.len() - i,
        {
            if found[i - 1].epoch >= found[i].epoch {
                assert(v[i - 1].0 >= v[i as int].0);
                return None;
            }
            proof {
                assert forall|a: int, b: int| 0 <= a < b < i + 1 && b < v.len() implies #[trigger] v[a].0
                    < #[trigger] v[b].0 by {
                    if b == i && a < i - 1 {
                        assert(v[a].0 < v[i - 1].0);
                    }
                }
            }
            i = i + 1;
        }
        let c = Checkpointer { num_keep, written: found, queued: Vec::new() };
        assert(c.submitted() =~= v);
        Some(c)
    }

    /// Epoch of the newest submitted checkpoint, if any.
    pub open spec fn last_submitted(&self) -> Option<usize> {
        if self.submitted().len() == 0 {
            None
        } else {
            Some(self.submitted().last().0)
        }
    }

    /// Whether a save of `epoch` is refused: it is not newer than the newest submitted epoch.
    pub open spec fn refuses(&self, epoch: usize) -> bool {
        match self.last_submitted() {
            Some(last) => epoch <= last,
            None => false,
        }
    }

    /// Submits the checkpoint of `epoch` for writing and returns at once; the write is applied
    /// later, after every write submitted before it. An epoch that is not newer than every
    /// epoch already submitted is refused.
    pub fn save(&mut self, epoch: usize, payload: Vec<u8>) -> (r: Result<(), CheckpointError>)
        requires
            old(self).wf(),
        ensures
            final(self).wf(),
            final(self).num_keep == old(self).num_keep,
            final(self).written_view() == old(self).written_view(),
            old(self).refuses(epoch) ==> {
                &&& r == Err::<(), CheckpointError>(CheckpointError::EpochNotIncreasing)
                &&& final(self).queued_view() == old(self).queued_view()
            },
            !old(self).refuses(epoch) ==> {
                &&& r == Ok::<(), CheckpointError>(())
                &&& final(self).queued_view() == old(self).queued_view().push((epoch, payload@))
            },
    {
        let ql = self.queued.len();
        let wl = self.written.len();
        let newest: Option<usize> = if ql > 0 {
            Some(self.queued[ql - 1].epoch)
        } else if wl > 0 {
            Some(self.written[wl - 1].epoch)
        } else {
            None
        };
        proof {
            assert(self.submitted().len() == wl + ql);
            if ql > 0 {
                assert(self.submitted().last() == self.queued_view()[ql - 1]);
            } else if wl > 0 {
                assert(self.submitted().last() == self.written_view()[wl - 1]);
            }
        }
        match newest {
            Some(last) => {
                if epoch <= last {
                    return Err(CheckpointError::EpochNotIncreasing);
                }
            },
            None => {},
        }
        let ghost before = self.submitted();
        self.queued.push(Checkpoint { epoch, payload });
        proof {
            assert(self.queued_view() =~= old(self).queued_view().push((epoch, payload@)));
            assert(self.submitted() =~= before.push((epoch, payload@)));
        }
        Ok(())
    }

    /// Applies the oldest queued write, if any: the checkpoint joins the retained ones, and
    /// only then is the oldest retained checkpoint evicted when more than `num_keep` remain.
    pub fn write_next(&mut self) -> (r: bool)
        requires
            old(self).wf(),
        ensures
            final(self).wf(),
            final(self).num_keep == old(self).num_keep,
            r == (old(self).queued_view().len() > 0),
            final(self).settled() == old(self).settled(),
            r ==> final(self).written_view() == apply_write(
                old(self).written_view(),
                old(self).queued_view()[0],
                old(self).num_keep as nat,
            ),
            r ==> final(self).queued_view() == old(self).queued_view().drop_first(),
            !r ==> *final(self) == *old(self),
    {
        if self.queued.len() == 0 {
            return false;
        }
        let ghost w0 = self.written_view();
        let ghost q0 = self.queued_view();
        let c = self.queued.remove(0);
        assert(self.queued_view() =~= q0.drop_first());
        self.written.push(c);
        assert(self.written_view() =~= w0.push(q0[0]));
        if self.written.len() > self.num_keep {
            self.written.remove(0);
            assert(self.written_view() =~= w0.push(q0[0]).drop_first());
            assert(self.submitted() =~= (w0 + q0).drop_first());
        } else {
            assert(self.submitted() =~= w0 + q0);
        }
        true
    }

    /// Gives up the oldest queued write, if any, because it failed: the retained checkpoints
    /// stay as they were, and none is evicted.
    pub fn drop_next(&mut self) -> (r: bool)
        requires
            old(self).wf(),
        ensures
            final(self).wf(),
            final(self).num_keep == old(self).num_keep,
            r == (old(self).queued_view().len() > 0),
            final(self).written_view() == old(self).written_view(),
            r ==> final(self).queued_view() == old(self).queued_view().drop_first(),
            !r ==> *final(self) == *old(self),
    {
        if self.queued.len() == 0 {
            return false;
        }
        let ghost w0 = self.written_view();
        let ghost q0 = self.queued_view();
        self.queued.remove(0);
        proof {
            assert(self.queued_view() =~= q0.drop_first());
            let s0 = w0 + q0;
            let s1 = self.submitted();
            assert forall|i: int, j: int| 0 <= i < j < s1.len() implies #[trigger] s1[i].0
                < #[trigger] s1[j].0 by {
                let a = if i < w0.len() { i } else { i + 1 };
                let b = if j < w0.len() { j } else { j + 1 };
                assert(s1[i] == s0[a] && s1[j] == s0[b]);
            }
        }
        true
    }

    /// Applies every queued write, in submission order.
    pub fn flush(&mut self)
        requires
            old(self).wf(),
        ensures
            final(self).wf(),
            final(self).num_keep == old(self).num_keep,
            final(self).written_view() == old(self).settled(),
            final(self).queued_view() == Seq::<(usize, Seq<u8>)>::empty(),
    {
        while self.queued.len() > 0
            invariant
                self.wf(),
                self.num_keep == old(self).num_keep,
                self.settled() == old(self).settled(),
            decreases self.queued.len(),
        {
            self.write_next();
        }
        assert(self.queued_view() =~= Seq::<(usize, Seq<u8>)>::empty());
    }

    /// Loads the checkpoint of `epoch`: waits for the queued writes first, then fails with
    /// `NotFound` when that epoch was never written or has been evicted.
    pub fn load(&mut self, epoch: usize) -> (r: Result<Vec<u8>, CheckpointError>)
        requires
            old(self).wf(),
        ensures
            final(self).wf(),
            final(self).num_keep == old(self).num_keep,
            final(self).written_view() == old(self).settled(),
            final(self).queued_view() == Seq::<(usize, Seq<u8>)>::empty(),
            match find_epoch(old(self).settled(), epoch) {
                Some(p) => r.is_ok() && r.unwrap()@ == p,
                None => r == Err::<Vec<u8>, CheckpointError>(CheckpointError::NotFound),
            },
    {
        self.flush();
        match self.get(epoch) {
            Some(p) => Ok(p),
            None => Err(CheckpointError::NotFound),
        }
    }

    /// The payload of the written checkpoint for `epoch`, without waiting for queued writes.
    pub fn get(&self, epoch: usize) -> (r: Option<Vec<u8>>)
        ensures
            match find_epoch(self.written_view(), epoch) {
                Some(p) => r.is_some() && r.unwrap()@ == p,
                None => r.is_none(),
            },
    {
        let mut i: usize = self.written.len();
        assert(self.written_view().subrange(0, i as int) =~= self.written_view());
        while i > 0
            invariant
                i <= self.written@.len(),
                find_epoch(self.written_view(), epoch) == find_epoch(
                    self.written_view().subrange(0, i as int),
                    epoch,
                ),
            decreases i,
        {
            let ghost pre = self.written_view().subrange(0, i as int);
            assert(pre.drop_last() =~= self.written_view().subrange(0, i - 1));
            if self.written[i - 1].epoch == epoch {
                let p = self.written[i - 1].payload.clone();
                assert(p@ =~= self.written[i - 1].payload@);
                return Some(p);
            }
            i = i - 1;
        }
        assert(self.written_view().subrange(0, 0) =~= Seq::<(usize, Seq<u8>)>::empty());
        None
    }

    /// Epochs of the retained (written) checkpoints, oldest first.
    pub fn retained_epochs(&self) -> (r: Vec<usize>)
        ensures
            r@ == self.written_view().map_values(|c: (usize, Seq<u8>)| c.0),
    {
        let mut r: Vec<usize> = Vec::new();
        let mut i: usize = 0;
        while i < self.written.len()
            invariant
                i <= self.written@.len(),
                r@ == self.written_view().subrange(0, i as int).map_values(|c: (usize, Seq<u8>)| c.0),
            decreases self.written@.len() - i,
        {
            r.push(self.written[i].epoch);
            assert(self.written_view().subrange(0, i + 1) =~= self.written_view().subrange(0, i as int).push(self.written_view()[i as int]));
            i = i + 1;
        }
        assert(self.written_view().subrange(0, i as int) =~= self.written_view());
        r
    }
}

/// The three checkpointers of a run (model, optimizer, scheduler), saved and loaded together
/// by epoch; each writes independently of the others.
pub struct LearnerCheckpointer {
    pub model: Checkpointer,
    pub optim: Checkpointer,
    pub scheduler: Checkpointer,
}

impl LearnerCheckpointer {
    pub open spec fn wf(&self) -> bool {
        &&& self.model.wf()
        &&& self.optim.wf()
        &&& self.scheduler.wf()
    }

    /// Three empty checkpointers, each keeping `num_keep` checkpoints.
    pub fn new(num_keep: usize) -> (r: LearnerCheckpointer)
        requires
            num_keep >= 1,
        ensures
            r.wf(),
            r.model.num_keep == num_keep && r.optim.num_keep == num_keep
                && r.scheduler.num_keep == num_keep,
            r.model.submitted().len() == 0 && r.optim.submitted().len() == 0
                && r.scheduler.submitted().len() == 0,
    {
        LearnerCheckpointer {
            model: Checkpointer::new(num_keep),
            optim: Checkpointer::new(num_keep),
            scheduler: Checkpointer::new(num_keep),
        }
    }

    /// Submits the three payloads of `epoch` to their checkpointers; fails when any of them
    /// refuses the epoch (the others still take theirs).
    pub fn save(&mut self, epoch: usize, record: TrainingRecord) -> (r: Result<(), CheckpointError>)
        requires
            old(self).wf(),
        ensures
            final(self).wf(),
            final(self).model.num_keep == old(self).model.num_keep,
            final(self).optim.num_keep == old(self).optim.num_keep,
            final(self).scheduler.num_keep == old(self).scheduler.num_keep,
            final(self).model.written_view() == old(self).model.written_view(),
            final(self).optim.written_view() == old(self).optim.written_view(),
            final(self).scheduler.written_view() == old(self).scheduler.written_view(),
            final(self).model.queued_view() == (if old(self).model.refuses(epoch) {
                old(self).model.queued_view()
            } else {
                old(self).model.queued_view().push((epoch, record.model@))
            }),
            final(self).optim.queued_view() == (if old(self).optim.refuses(epoch) {
                old(self).optim.queued_view()
            } else {
                old(self).optim.queued_view().push((epoch, record.optim@))
            }),
            final(self).scheduler.queued_view() == (if old(self).scheduler.refuses(epoch) {
                old(self).scheduler.queued_view()
            } else {
                old(self).scheduler.queued_view().push((epoch, record.scheduler@))
            }),
            r == (if old(self).model.refuses(epoch) || old(self).optim.refuses(epoch)
                || old(self).scheduler.refuses(epoch) {
                Err::<(), CheckpointError>(CheckpointError::EpochNotIncreasing)
            } else {
                Ok(())
            }),
    {
        let TrainingRecord { model, optim, scheduler } = record;
        let a = self.model.save(epoch, model);
        let b = self.optim.save(epoch, optim);
        let c = self.scheduler.save(epoch, scheduler);
        if a.is_err() || b.is_err() || c.is_err() {
            Err(CheckpointError::EpochNotIncreasing)
        } else {
            Ok(())
        }
    }

    /// Loads the three payloads of `epoch`, waiting for queued writes first. Fails, naming the
    /// first artifact (model, optimizer, scheduler) that lacks that epoch, rather than mixing
    /// epochs.
    pub fn load(&mut self, epoch: usize) -> (r: Result<TrainingRecord, CheckpointError>)
        requires
            old(self).wf(),
        ensures
            final(self).wf(),
            final(self).model.written_view() == old(self).model.settled(),
            final(self).optim.written_view() == old(self).optim.settled(),
            final(self).scheduler.written_view() == old(self).scheduler.settled(),
            match (
                find_epoch(old(self).model.settled(), epoch),
                find_epoch(old(self).optim.settled(), epoch),
                find_epoch(old(self).scheduler.settled(), epoch),
            ) {
                (Some(m), Some(o), Some(s)) => r.is_ok() && r.unwrap().model@ == m
                    && r.unwrap().optim@ == o && r.unwrap().scheduler@ == s,
                (None, _, _) => r == Err::<TrainingRecord, CheckpointError>(
                    CheckpointError::ArtifactNotFound { kind: ArtifactKind::Model },
                ),
                (Some(_), None, _) => r == Err::<TrainingRecord, CheckpointError>(
                    CheckpointError::ArtifactNotFound { kind: ArtifactKind::Optim },
                ),
                (Some(_), Some(_), None) => r == Err::<TrainingRecord, CheckpointError>(
                    CheckpointError::ArtifactNotFound { kind: ArtifactKind::Scheduler },
                ),
            },
    {
        let a = self.model.load(epoch);
        let b = self.optim.load(epoch);
        let c = self.scheduler.load(epoch);
        match (a, b, c) {
            (Ok(model), Ok(optim), Ok(scheduler)) => Ok(TrainingRecord { model, optim, scheduler }),
            (Err(_), _, _) => Err(CheckpointError::ArtifactNotFound { kind: ArtifactKind::Model }),
            (Ok(_), Err(_), _) => Err(CheckpointError::ArtifactNotFound { kind: ArtifactKind::Optim }),
            (Ok(_), Ok(_), Err(_)) => Err(
                CheckpointError::ArtifactNotFound { kind: ArtifactKind::Scheduler },
            ),
        }
    }
}

proof fn lemma_most_recent_absorbs(u: Seq<(usize, Seq<u8>)>, rest: Seq<(usize, Seq<u8>)>, k: nat)
    requires
        k >= 1,
        u.len() <= k + 1,
    ensures
        most_recent(most_recent(u, k) + rest, k) == most_recent(u + rest, k),
{
    if u.len() == k + 1 {
        let a = u.drop_first() + rest;
        let b = u + rest;
        assert(b.subrange(b.len() - k, b.len() as int) =~= a.subrange(a.len() - k, a.len() as int));
        assert(most_recent(u, k) =~= u.drop_first());
    }
}

/// Applying queued writes to at most `k` retained checkpoints retains the `k` most recent
/// checkpoints of all of them.
pub proof fn lemma_writes_keep_most_recent(
    kept: Seq<(usize, Seq<u8>)>,
    queue: Seq<(usize, Seq<u8>)>,
    k: nat,
)
    requires
        k >= 1,
        kept.len() <= k,
    ensures
        apply_writes(kept, queue, k) == most_recent(kept + queue, k),
    decreases queue.len(),
{
    if queue.len() == 0 {
        assert(kept + queue =~= kept);
    } else {
        let grown = kept.push(queue[0]);
        let next = apply_write(kept, queue[0], k);
        if grown.len() > k {
            assert(grown.drop_first() =~= grown.subrange(grown.len() - k, grown.len() as int));
        }
        assert(next == most_recent(grown, k));
        lemma_writes_keep_most_recent(next, queue.drop_first(), k);
        lemma_most_recent_absorbs(grown, queue.drop_first(), k);
        assert(grown + queue.drop_first() =~= kept + queue);
    }
}

/// Once written, a checkpointer retains the `num_keep` most recent checkpoints submitted.
pub proof fn lemma_settled_is_most_recent(c: Checkpointer)
    requires
        c.wf(),
    ensures
        c.settled() == most_recent(c.submitted(), c.num_keep as nat),
{
    lemma_writes_keep_most_recent(c.written_view(), c.queued_view(), c.num_keep as nat);
}

/// Retention: after `n >= num_keep` saves into an empty checkpointer with `num_keep >= 2`,
/// exactly `num_keep` checkpoints remain once written, and they are the most recent ones.
pub proof fn lemma_retention_after_saves(num_keep: nat, saves: Seq<(usize, Seq<u8>)>)
    requires
        num_keep >= 2,
        saves.len() >= num_keep,
    ensures
        apply_writes(Seq::empty(), saves, num_keep).len() == num_keep,
        apply_writes(Seq::empty(), saves, num_keep) == saves.subrange(
            saves.len() - num_keep,
            saves.len() as int,
        ),
{
    lemma_writes_keep_most_recent(Seq::empty(), saves, num_keep);
    assert(Seq::<(usize, Seq<u8>)>::empty() + saves =~= saves);
}

proof fn lemma_find_absent(s: Seq<(usize, Seq<u8>)>, epoch: usize)
    requires
        forall|i: int| 0 <= i < s.len() ==> #[trigger] s[i].0 != epoch,
    ensures
        find_epoch(s, epoch) == None::<Seq<u8>>,
    decreases s.len(),
{
    if s.len() > 0 {
        assert(s.last() == s[s.len() - 1]);
        lemma_find_absent(s.drop_last(), epoch);
    }
}

/// Round trip: once `(epoch, payload)` is saved, loading `epoch` yields `payload`.
pub proof fn lemma_load_after_save(c: Checkpointer, epoch: usize, payload: Seq<u8>)
    requires
        c.wf(),
    ensures
        find_epoch(
            apply_writes(c.written_view(), c.queued_view().push((epoch, payload)), c.num_keep as nat),
            epoch,
        ) == Some(payload),
{
    let k = c.num_keep as nat;
    let all = c.written_view() + c.queued_view().push((epoch, payload));
    lemma_writes_keep_most_recent(c.written_view(), c.queued_view().push((epoch, payload)), k);
    assert(most_recent(all, k).last() == (epoch, payload));
}

/// Loading an epoch that no retained checkpoint holds fails: one never submitted, or one
/// evicted because `num_keep` newer checkpoints were submitted after it.
pub proof fn lemma_load_missing(c: Checkpointer, epoch: usize)
    requires
        c.wf(),
        forall|i: int|
            0 <= i < c.submitted().len() && #[trigger] c.submitted()[i].0 == epoch
                ==> i < c.submitted().len() - c.num_keep,
    ensures
        find_epoch(c.settled(), epoch) == None::<Seq<u8>>,
{
    let k = c.num_keep as nat;
    let s = c.submitted();
    lemma_settled_is_most_recent(c);
    let m = most_recent(s, k);
    assert forall|j: int| 0 <= j < m.len() implies #[trigger] m[j].0 != epoch by {
        if s.len() > k {
            assert(m[j] == s[j + s.len() - k]);
        } else {
            assert(m[j] == s[j]);
        }
    }
    lemma_find_absent(m, epoch);
}

} // verus!
