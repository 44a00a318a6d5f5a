//! Filling a list on a site, one entry per request: the entries go in their
//! order, the first refused request ends the run as a failure, and the run
//! succeeds once every entry has been accepted.

use vstd::prelude::*;
use crate::http::{is_success, status_is_success};

verus! {

/// What to do next while filling a list.
#[derive(Clone, Copy, Debug, PartialEq, Eq)]
pub enum FillStep {
    /// Send the request that adds the entry at this position.
    Send(usize),
    /// Stop; `true` when every entry was added.
    Finished(bool),
}

/// A run that adds `total` entries to a list, of which the first `added`
/// have been accepted.
#[derive(Clone, Copy, Debug)]
pub struct Filling {
    pub total: usize,
    pub added: usize,
}

impl Filling {
    /// No more entries are accepted than there are.
    pub open spec fn wf(self) -> bool {
        self.added <= self.total
    }

    /// The step that follows when the first `added` entries are in.
    pub open spec fn next_step(self) -> FillStep {
        if self.added < self.total {
            FillStep::Send(self.added)
        } else {
            FillStep::Finished(true)
        }
    }

    /// The run and the step that follow the answer `status` to the entry at
    /// position `added`.
    pub open spec fn after(self, status: u16) -> (Filling, FillStep) {
        if is_success(status) {
            let next = Filling { total: self.total, added: (self.added + 1) as usize };
            (next, next.next_step())
        } else {
            (self, FillStep::Finished(false))
        }
    }

    /// A run over `total` entries, none sent yet.
    pub fn new(total: usize) -> (f: Filling)
        ensures
            f.total == total,
            f.added == 0,
            f.wf(),
    {
        Filling { total, added: 0 }
    }

    /// What to do now: send the next entry, or report success when none is left.
    pub fn next(&self) -> (step: FillStep)
        requires
            self.wf(),
        ensures
            step == self.next_step(),
            self.added < self.total ==> step == FillStep::Send(self.added),
            self.added == self.total ==> step == FillStep::Finished(true),
    {
        if self.added < self.total {
            FillStep::Send(self.added)
        } else {
            FillStep::Finished(true)
        }
    }

    /// Takes in the status of the answer to the entry just sent (the one at
    /// position `added`). An accepted entry counts and the run moves on; a
    /// refused one ends the run as a failure.
    pub fn on_response(&mut self, status: u16) -> (step: FillStep)
        requires
            old(self).added < old(self).total,
        ensures
            final(self).wf(),
            (*final(self), step) == old(self).after(status),
            final(self).total == old(self).total,
            200 <= status < 300 ==> final(self).added == old(self).added + 1
                && (final(self).added < final(self).total ==> step == FillStep::Send(final(self).added))
                && (final(self).added == final(self).total ==> step == FillStep::Finished(true)),
            !(200 <= status < 300) ==> final(self).added == old(self).added
                && step == FillStep::Finished(false),
    {
        if status_is_success(status) {
            self.added = self.added + 1;
            self.next()
        } else {
            FillStep::Finished(false)
        }
    }
}


/// Where a run over `total` entries stands after the answers `statuses`,
/// given to the entries in order: the run, and what it asks for next.
pub open spec fn run(total: usize, statuses: Seq<u16>) -> (Filling, FillStep)
    decreases statuses.len(),
{
    if statuses.len() == 0 {
        let start = Filling { total, added: 0 };
        (start, start.next_step())
    } else {
        let (f, step) = run(total, statuses.drop_last());
        match step {
            FillStep::Send(_) => f.after(statuses.last()),
            FillStep::Finished(_) => (f, step),
        }
    }
}

/// A list of `total` entries is filled, entry `k` being sent k-th, and the
/// run ends in success exactly when the first `total` answers all succeed,
/// in failure at the first answer that does not, and asks for more while
/// fewer answers have come.
pub proof fn lemma_fill_run(total: usize, statuses: Seq<u16>)
    ensures
        ({
            let (f, step) = run(total, statuses);
            let n = statuses.len();
            &&& f.total == total
            &&& f.wf()
            &&& (forall|k: int| 0 <= k < f.added ==> is_success(#[trigger] statuses[k]))
            &&& match step {
                FillStep::Send(position) => {
                    &&& position == f.added
                    &&& f.added == n
                    &&& n < total
                },
                FillStep::Finished(true) => {
                    &&& f.added == total
                    &&& total <= n
                },
                FillStep::Finished(false) => {
                    &&& f.added < total
                    &&& f.added < n
                    &&& !is_success(statuses[f.added as int])
                },
            }
        }),
    decreases statuses.len(),
{
    if statuses.len() > 0 {
        lemma_fill_run(total, statuses.drop_last());
        let (f, step) = run(total, statuses.drop_last());
        assert(forall|k: int| 0 <= k < statuses.len() - 1 ==> statuses.drop_last()[k] == statuses[k]);
    }
}

} // verus!
