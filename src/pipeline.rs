//! The whole pipeline: log lines to hours per day.
use vstd::prelude::*;
use crate::commit::{Commit, CommitModel, views_of};
use crate::counter::{Counter, estimates};
use crate::days::{HoursReport, day_hours, days_view, entries_view, tally_days, total_hours};
use crate::decoder::decode;
use crate::query::{CommitQuery, select};

verus! {

/// The estimates of a newest-first sequence of commits, in seconds.
pub open spec fn estimated(s: Seq<CommitModel>) -> Seq<(CommitModel, u64)> {
    estimates(s).map_values(|p: (CommitModel, int)| (p.0, p.1 as u64))
}

/// The commits that an author list selects from a log, newest first.
pub open spec fn selected(authors: Seq<Seq<char>>, lines: Seq<Seq<char>>) -> Seq<CommitModel> {
    select(authors, decode(lines))
}

/// The hours per day that a log gives for an author list.
pub open spec fn report_days(authors: Seq<Seq<char>>, lines: Seq<Seq<char>>) -> Seq<(int, int)> {
    day_hours(estimated(selected(authors, lines)))
}

/// Decodes the log `lines`, keeps the commits that `query` accepts, estimates
/// each, and sums the estimates per calendar day.
pub fn report_hours(query: &CommitQuery, lines: Vec<String>) -> (r: HoursReport)
    ensures
        days_view(r.days@) == report_days(views_of(query.authors@), views_of(lines@)),
        r.total == total_hours(report_days(views_of(query.authors@), views_of(lines@))),
{
    let ghost all = selected(views_of(query.authors@), views_of(lines@));
    let commits = query.run(lines);
    let mut counter = Counter::new(commits);
    let mut entries: Vec<(Commit, u64)> = Vec::new();
    loop
        invariant
            counter.wf(),
            0 <= entries@.len() <= all.len(),
            counter@ == all.skip(entries@.len() as int),
            entries_view(entries@) =~= estimated(all).take(entries@.len() as int),
        ensures
            entries@.len() == all.len(),
            entries_view(entries@) =~= estimated(all).take(entries@.len() as int),
        decreases counter@.len(),
    {
        let ghost k = entries@.len() as int;
        let ghost rem = counter@;
        match counter.next() {
            Some(p) => {
                proof {
                    assert(rem.drop_first() =~= all.skip(k + 1));
                    assert(rem[0] == all[k]);
                    assert(rem.len() > 1 ==> rem[1] == all[k + 1]);
                    assert(estimates(rem)[0].1 == estimates(all)[k].1);
                }
                entries.push(p);
                assert(entries_view(entries@) =~= estimated(all).take(k + 1));
            },
            None => {
                assert(all.skip(k).len() == 0);
                break;
            },
        }
    }
    assert(estimated(all).take(entries@.len() as int) =~= estimated(all));
    tally_days(&entries)
}

} // verus!
