//! Estimating the time spent on each commit.
use vstd::prelude::*;
use crate::commit::{Commit, CommitModel};
use crate::decoder::{CommitIterator, opt_seq, opt_view};
use crate::timestamp::gap_minutes;

verus! {

/// The time that one changed line (inserted or deleted) is taken to cost.
pub const SECONDS_PER_CHANGED_LINE: u64 = 30;

/// The time that a commit's changes are taken to have cost, in seconds.
pub open spec fn workload_seconds(c: CommitModel) -> int {
    (c.insertion_count + c.deletion_count) * SECONDS_PER_CHANGED_LINE
}

/// The whole minutes, in seconds, from `next` to `c`; none where `next` is not
/// before `c`.
pub open spec fn capacity_seconds(c: CommitModel, next: CommitModel) -> int {
    gap_minutes(c.date, next.date) * 60
}

/// A commit's estimate: its workload, bounded by the time since the commit
/// that follows it in the sequence, where there is one.
pub open spec fn estimate(c: CommitModel, next: Option<CommitModel>) -> int {
    match next {
        Some(n) => if capacity_seconds(c, n) < workload_seconds(c) {
            capacity_seconds(c, n)
        } else {
            workload_seconds(c)
        },
        None => workload_seconds(c),
    }
}

/// The commit that follows position `i` of `s`, if any.
pub open spec fn following(s: Seq<CommitModel>, i: int) -> Option<CommitModel> {
    if i + 1 < s.len() {
        Some(s[i + 1])
    } else {
        None
    }
}

/// Each commit of a newest-first sequence with its estimate in seconds.
pub open spec fn estimates(s: Seq<CommitModel>) -> Seq<(CommitModel, int)> {
    Seq::new(s.len(), |i: int| (s[i], estimate(s[i], following(s, i))))
}

/// Pairs each commit with its estimated time, in seconds.
///
/// The commits are taken to come newest first, so that the commit after one
/// in the sequence was made before it.
pub struct Counter {
    commits: CommitIterator,
    next_commit: Option<Commit>,
}

impl Counter {
    /// The commits still to be estimated.
    pub closed spec fn view(&self) -> Seq<CommitModel> {
        opt_seq(opt_view(self.next_commit)) + self.commits@
    }

    pub closed spec fn wf(&self) -> bool {
        self.commits.wf()
    }

    pub fn new(commits: CommitIterator) -> (r: Counter)
        requires
            commits.wf(),
        ensures
            r.wf(),
            r@ == commits@,
    {
        let r = Counter { commits, next_commit: None };
        assert(r@ =~= commits@);
        r
    }

    /// The estimate of `commit`, in whole seconds, where `next` is the commit
    /// that follows it.
    pub fn count_hours(commit: &Commit, next: &Option<Commit>) -> (r: u64)
        ensures
            r as int == estimate(commit@, opt_view(*next)),
    {
        let workload: u64 = (commit.insertion_count as u64 + commit.deletion_count as u64)
            * SECONDS_PER_CHANGED_LINE;
        match next {
            Some(n) => {
                let capacity: u128 = commit.date.minutes_since(&n.date) as u128 * 60;
                if capacity < workload as u128 {
                    capacity as u64
                } else {
                    workload
                }
            },
            None => workload,
        }
    }

    /// The next commit with its estimate, or `None` once there is none left.
    pub fn next(&mut self) -> (r: Option<(Commit, u64)>)
        requires
            old(self).wf(),
        ensures
            final(self).wf(),
            match r {
                Some((c, h)) => old(self)@.len() > 0 && c@ == old(self)@[0] && h as int
                    == estimates(old(self)@)[0].1 && final(self)@ == old(self)@.drop_first(),
                None => old(self)@.len() == 0 && final(self)@.len() == 0,
            },
    {
        let ghost rem = self@;
        let commit = match self.next_commit.take() {
            Some(c) => Some(c),
            None => self.commits.next(),
        };
        let ghost mid = self.commits@;
        self.next_commit = self.commits.next();
        assert(self@ =~= mid);
        match commit {
            Some(c) => {
                assert(rem.drop_first() =~= mid);
                let h = Self::count_hours(&c, &self.next_commit);
                assert(following(rem, 0) == opt_view(self.next_commit));
                Some((c, h))
            },
            None => None,
        }
    }
}

} // verus!
