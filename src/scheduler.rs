use vstd::prelude::*;
use crate::error::PipelineError;

verus! {

/// The bookkeeping of a bounded-concurrency run over `total` groups.
///
/// Groups are handed out in order, `0 .. total`. At most `limit` of them are
/// outstanding at once; as soon as one completes, the next may start. After
/// the first failure no further group is handed out, and the run is over once
/// what is outstanding has drained.
#[derive(Debug, Clone, Copy, PartialEq, Eq, Structural)]
pub struct Scheduler {
    /// Number of groups in the run.
    pub total: usize,
    /// Concurrency ceiling.
    pub limit: usize,
    /// Number of groups handed out so far; also the index of the next one.
    pub next: usize,
    /// Number of groups handed out and not yet completed.
    pub outstanding: usize,
    /// Index of the first group that failed, if any.
    pub failed: Option<usize>,
}

impl Scheduler {
    pub open spec fn wf(&self) -> bool {
        &&& self.limit >= 1
        &&& self.next <= self.total
        &&& self.outstanding <= self.next
        &&& self.outstanding <= self.limit
        &&& (self.failed matches Some(g) ==> g < self.next)
    }

    /// Whether a new group may be handed out now.
    pub open spec fn may_submit(&self) -> bool {
        self.failed.is_none() && self.next < self.total && self.outstanding < self.limit
    }

    /// Whether the run is over: nothing is outstanding, and either every group
    /// was handed out or one failed.
    pub open spec fn finished(&self) -> bool {
        self.outstanding == 0 && (self.failed.is_some() || self.next == self.total)
    }

    /// Starts a run over `total` groups with at most `limit` outstanding; a
    /// zero limit is refused.
    pub fn new(total: usize, limit: usize) -> (r: Result<Scheduler, PipelineError>)
        ensures
            limit == 0 <==> r == Err::<Scheduler, PipelineError>(PipelineError::ConcurrencyConfig),
            limit >= 1 ==> r == Ok::<Scheduler, PipelineError>(
                Scheduler { total, limit, next: 0, outstanding: 0, failed: None },
            ),
            r matches Ok(s) ==> s.wf(),
    {
        if limit == 0 {
            Err(PipelineError::ConcurrencyConfig)
        } else {
            Ok(Scheduler { total, limit, next: 0, outstanding: 0, failed: None })
        }
    }

    /// Hands out the next group if the window has room, no group has failed
    /// and groups are left; otherwise returns `None` and changes nothing.
    pub fn next_submission(&mut self) -> (r: Option<usize>)
        requires
            old(self).wf(),
        ensures
            final(self).wf(),
            old(self).may_submit() ==> r == Some(old(self).next) && *final(self) == (Scheduler {
                next: (old(self).next + 1) as usize,
                outstanding: (old(self).outstanding + 1) as usize,
                ..*old(self)
            }),
            !old(self).may_submit() ==> r.is_none() && *final(self) == *old(self),
            old(self).failed.is_some() ==> r.is_none(),
    {
        if self.failed.is_none() && self.next < self.total && self.outstanding < self.limit {
            let g = self.next;
            self.next = self.next + 1;
            self.outstanding = self.outstanding + 1;
            Some(g)
        } else {
            None
        }
    }

    /// Records that the outstanding group `group` completed, successfully or
    /// not. The first failure is the one kept.
    pub fn complete(&mut self, group: usize, succeeded: bool)
        requires
            old(self).wf(),
            old(self).outstanding >= 1,
            group < old(self).next,
        ensures
            final(self).wf(),
            final(self).total == old(self).total,
            final(self).limit == old(self).limit,
            final(self).next == old(self).next,
            final(self).outstanding == old(self).outstanding - 1,
            final(self).failed == (if old(self).failed.is_none() && !succeeded {
                Some(group)
            } else {
                old(self).failed
            }),
    {
        self.outstanding = self.outstanding - 1;
        if self.failed.is_none() && !succeeded {
            self.failed = Some(group);
        }
    }

    /// Whether the run is over.
    pub fn is_finished(&self) -> (r: bool)
        ensures
            r == self.finished(),
    {
        self.outstanding == 0 && (self.failed.is_some() || self.next == self.total)
    }
}

/// In every reachable state the number of outstanding groups is at most the
/// smaller of the concurrency ceiling and the number of groups.
pub proof fn lemma_window_bound(s: Scheduler)
    requires
        s.wf(),
    ensures
        s.outstanding <= s.limit,
        s.outstanding <= s.total,
{
}

/// A run that finished without a failure handed out every group, each one
/// once: the groups handed out are exactly `0 .. total`.
pub proof fn lemma_finished_covers_all(s: Scheduler)
    requires
        s.wf(),
        s.finished(),
        s.failed.is_none(),
    ensures
        s.next == s.total,
        s.outstanding == 0,
{
}

/// Once a group has failed, no call hands out another group: the number of
/// groups handed out stays where it was.
pub proof fn lemma_no_submission_after_failure(s: Scheduler)
    requires
        s.wf(),
        s.failed.is_some(),
    ensures
        !s.may_submit(),
{
}

} // verus!
