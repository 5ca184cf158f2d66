use vstd::prelude::*;

verus! {

/// Which data a metric was computed on.
#[derive(Debug, Clone, Copy, PartialEq, Eq, Structural)]
pub enum Split {
    Train,
    Valid,
}

/// `a` comes strictly before `b` in (epoch, step) order.
pub open spec fn before(a: (usize, usize), b: (usize, usize)) -> bool {
    a.0 < b.0 || (a.0 == b.0 && a.1 < b.1)
}

/// Positions strictly increase in (epoch, step) order along the sequence.
pub open spec fn ordered(s: Seq<(usize, usize)>) -> bool {
    forall|i: int, j: int| 0 <= i < j < s.len() ==> before(#[trigger] s[i], #[trigger] s[j])
}

/// Delivers the metric results of one split to its logger in the order their steps were
/// submitted, although the results may be computed, and completed, in any order.
pub struct MetricQueue<T> {
    /// Number of results delivered so far; the ticket of `pending[i]` is `delivered + i`.
    pub delivered: usize,
    /// Position of the newest submitted step.
    pub last: Option<(usize, usize)>,
    /// (epoch, step) of each submitted step not yet delivered, oldest first.
    pub pending: Vec<(usize, usize)>,
    /// Result of each pending step, once known: `Some(None)` when its metric computation
    /// faulted and the value is dropped.
    pub results: Vec<Option<Option<T>>>,
}

impl<T> MetricQueue<T> {
    pub open spec fn wf(&self) -> bool {
        &&& self.pending@.len() == self.results@.len()
        &&& ordered(self.pending@)
        &&& self.pending@.len() > 0 ==> self.last == Some(self.pending@.last())
        &&& self.last matches Some(l) ==> forall|i: int|
            0 <= i < self.pending@.len() ==> !before(l, #[trigger] self.pending@[i])
    }

    /// Number of leading pending steps whose result is computed.
    pub open spec fn ready_prefix(&self, n: int) -> bool {
        &&& 0 <= n <= self.results@.len()
        &&& forall|i: int| 0 <= i < n ==> (#[trigger] self.results@[i]).is_some()
        &&& n < self.results@.len() ==> self.results@[n].is_none()
    }

    /// An empty queue.
    pub fn new() -> (r: MetricQueue<T>)
        ensures
            r.wf(),
            r.delivered == 0,
            r.last.is_none(),
            r.pending@.len() == 0,
    {
        MetricQueue { delivered: 0, last: None, pending: Vec::new(), results: Vec::new() }
    }

    /// Submits step `step` of epoch `epoch` and returns its ticket; positions must strictly
    /// increase, and one that does not is refused with `None`.
    pub fn submit(&mut self, epoch: usize, step: usize) -> (r: Option<usize>)
        requires
            old(self).wf(),
            old(self).delivered + old(self).pending@.len() < usize::MAX,
        ensures
            final(self).wf(),
            final(self).delivered == old(self).delivered,
            match old(self).last {
                Some(l) if !before(l, (epoch, step)) => {
                    &&& r.is_none()
                    &&& *final(self) == *old(self)
                },
                _ => {
                    &&& r == Some((old(self).delivered + old(self).pending@.len()) as usize)
                    &&& final(self).pending@ == old(self).pending@.push((epoch, step))
                    &&& final(self).results@ == old(self).results@.push(None)
                    &&& final(self).last == Some((epoch, step))
                },
            },
    {
        match self.last {
            Some(l) => {
                if !(l.0 < epoch || (l.0 == epoch && l.1 < step)) {
                    return None;
                }
            },
            None => {},
        }
        let ticket = self.delivered + self.pending.len();
        self.pending.push((epoch, step));
        self.results.push(None);
        self.last = Some((epoch, step));
        Some(ticket)
    }

    /// Records the computed result of the step with `ticket`. Returns false, and changes
    /// nothing, when that step is not pending or already has its result.
    pub fn complete(&mut self, ticket: usize, value: T) -> (r: bool)
        requires
            old(self).wf(),
        ensures
            final(self).wf(),
            final(self).delivered == old(self).delivered,
            final(self).last == old(self).last,
            final(self).pending@ == old(self).pending@,
            r == (old(self).delivered <= ticket < old(self).delivered + old(self).pending@.len()
                && old(self).results@[ticket - old(self).delivered].is_none()),
            r ==> final(self).results@ == old(self).results@.update(
                ticket - old(self).delivered,
                Some(Some(value)),
            ),
            !r ==> final(self).results@ == old(self).results@,
    {
        if ticket < self.delivered || ticket - self.delivered >= self.results.len() {
            return false;
        }
        let i = ticket - self.delivered;
        if self.results[i].is_some() {
            return false;
        }
        self.results.set(i, Some(Some(value)));
        true
    }

    /// Records that the metric computation of the step with `ticket` faulted: its value is
    /// dropped, and the step no longer holds back the steps after it. Returns false, and
    /// changes nothing, when that step is not pending or already has its result.
    pub fn fault(&mut self, ticket: usize) -> (r: bool)
        requires
            old(self).wf(),
        ensures
            final(self).wf(),
            final(self).delivered == old(self).delivered,
            final(self).last == old(self).last,
            final(self).pending@ == old(self).pending@,
            r == (old(self).delivered <= ticket < old(self).delivered + old(self).pending@.len()
                && old(self).results@[ticket - old(self).delivered].is_none()),
            r ==> final(self).results@ == old(self).results@.update(
                ticket - old(self).delivered,
                Some(None),
            ),
            !r ==> final(self).results@ == old(self).results@,
    {
        if ticket < self.delivered || ticket - self.delivered >= self.results.len() {
            return false;
        }
        let i = ticket - self.delivered;
        if self.results[i].is_some() {
            return false;
        }
        self.results.set(i, Some(None));
        true
    }

    /// Takes out, in submission order, the results of the oldest pending steps up to the
    /// first one still being computed, each with its (epoch, step); a faulted step comes out
    /// with no value.
    pub fn drain(&mut self) -> (r: Vec<(usize, usize, Option<T>)>)
        requires
            old(self).wf(),
            old(self).delivered + old(self).pending@.len() <= usize::MAX,
        ensures
            final(self).wf(),
            final(self).last == old(self).last,
            old(self).ready_prefix(r@.len() as int),
            final(self).delivered == old(self).delivered + r@.len(),
            old(self).pending@ == r@.map_values(|e: (usize, usize, Option<T>)| (e.0, e.1))
                + final(self).pending@,
            final(self).results@ == old(self).results@.subrange(
                r@.len() as int,
                old(self).results@.len() as int,
            ),
            forall|i: int|
                0 <= i < r@.len() ==> old(self).results@[i] == Some(#[trigger] r@[i].2),
            ordered(r@.map_values(|e: (usize, usize, Option<T>)| (e.0, e.1))),
            forall|i: int, j: int|
                0 <= i < r@.len() && 0 <= j < final(self).pending@.len() ==> before(
                    (#[trigger] r@[i].0, r@[i].1),
                    #[trigger] final(self).pending@[j],
                ),
    {
        let mut r: Vec<(usize, usize, Option<T>)> = Vec::new();
        let ghost p0 = self.pending@;
        let ghost res0 = self.results@;
        while self.results.len() > 0 && self.results[0].is_some()
            invariant
                self.wf(),
                self.last == old(self).last,
                self.pending@.len() == self.results@.len(),
                self.delivered == old(self).delivered + r@.len(),
                old(self).delivered + old(self).pending@.len() <= usize::MAX,
                r@.len() <= p0.len(),
                p0 == old(self).pending@,
                res0 == old(self).results@,
                res0.len() == p0.len(),
                p0 == r@.map_values(|e: (usize, usize, Option<T>)| (e.0, e.1)) + self.pending@,
                self.results@ == res0.subrange(r@.len() as int, res0.len() as int),
                forall|i: int| 0 <= i < r@.len() ==> res0[i] == Some(#[trigger] r@[i].2),
            decreases self.results@.len(),
        {
            let ghost keys = r@.map_values(|e: (usize, usize, Option<T>)| (e.0, e.1));
            let pos = self.pending.remove(0);
            let res = self.results.remove(0);
            match res {
                Some(v) => {
                    r.push((pos.0, pos.1, v));
                },
                None => {},
            }
            self.delivered = self.delivered + 1;
            proof {
                assert(r@.map_values(|e: (usize, usize, Option<T>)| (e.0, e.1)) =~= keys.push(pos));
                assert(p0 =~= r@.map_values(|e: (usize, usize, Option<T>)| (e.0, e.1)) + self.pending@);
                assert(self.results@ =~= res0.subrange(r@.len() as int, res0.len() as int));
                assert forall|i: int| 0 <= i < self.pending@.len() implies !before(
                    self.last.unwrap(),
                    #[trigger] self.pending@[i],
                ) by {
                    assert(self.pending@[i] == old(self).pending@[i + r@.len()]);
                }
            }
        }
        proof {
            let keys = r@.map_values(|e: (usize, usize, Option<T>)| (e.0, e.1));
            assert forall|i: int, j: int| 0 <= i < j < keys.len() implies before(
                #[trigger] keys[i],
                #[trigger] keys[j],
            ) by {
                assert(keys[i] == p0[i] && keys[j] == p0[j]);
            }
            assert forall|i: int, j: int|
                0 <= i < r@.len() && 0 <= j < self.pending@.len() implies before(
                    (#[trigger] r@[i].0, r@[i].1),
                    #[trigger] self.pending@[j],
                ) by {
                assert(keys[i] == p0[i] && self.pending@[j] == p0[j + r@.len()]);
            }
            assert forall|i: int| 0 <= i < r@.len() implies (#[trigger] res0[i]).is_some() by {
                assert(res0[i] == Some(r@[i].2));
            }
        }
        r
    }
}

} // verus!
