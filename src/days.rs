//! Summing the estimates per calendar day.
use vstd::prelude::*;
use itertools::Itertools;
use crate::commit::{Commit, CommitModel};
use crate::timestamp::local_day;

verus! {

/// Consecutive items with equal keys gathered into one group each, with the
/// key and the values in their order.
pub open spec fn runs(s: Seq<(i64, u64)>) -> Seq<(i64, Seq<u64>)>
    decreases s.len(),
{
    if s.len() == 0 {
        Seq::empty()
    } else {
        let r = runs(s.drop_last());
        let (k, v) = s.last();
        if r.len() > 0 && r.last().0 == k {
            r.update(r.len() - 1, (k, r.last().1.push(v)))
        } else {
            r.push((k, seq![v]))
        }
    }
}

pub open spec fn groups_view(g: Seq<(i64, Vec<u64>)>) -> Seq<(i64, Seq<u64>)> {
    g.map_values(|p: (i64, Vec<u64>)| (p.0, p.1@))
}

/// Relies on `itertools::Itertools::chunk_by`: consecutive items that map to
/// the same key form one group, groups and items in their order.
#[verifier::external_body]
fn chunk_by_key(items: Vec<(i64, u64)>) -> (r: Vec<(i64, Vec<u64>)>)
    ensures
        groups_view(r@) == runs(items@),
{
    let chunks = items.into_iter().chunk_by(|p| p.0);
    let r = chunks.into_iter().map(|(k, g)| (k, g.map(|p| p.1).collect())).collect();
    r
}

/// The sum of a sequence of values.
pub open spec fn sum(s: Seq<u64>) -> int
    decreases s.len(),
{
    if s.len() == 0 {
        0
    } else {
        sum(s.drop_last()) + s.last()
    }
}

/// Seconds rounded up to whole hours.
pub open spec fn ceil_hours(seconds: int) -> int {
    (seconds + 3599) / 3600
}

/// The calendar day of each estimate's commit, with the estimate.
pub open spec fn keyed(entries: Seq<(CommitModel, u64)>) -> Seq<(i64, u64)> {
    entries.map_values(|e: (CommitModel, u64)| (local_day(e.0.date) as i64, e.1))
}

/// Each run of same-day estimates as its day and its hours, rounded up.
pub open spec fn day_hours(entries: Seq<(CommitModel, u64)>) -> Seq<(int, int)> {
    runs(keyed(entries)).map_values(|g: (i64, Seq<u64>)| (g.0 as int, ceil_hours(sum(g.1))))
}

/// The sum of the hours of a list of days.
pub open spec fn total_hours(d: Seq<(int, int)>) -> int
    decreases d.len(),
{
    if d.len() == 0 {
        0
    } else {
        total_hours(d.drop_last()) + d.last().1
    }
}

/// The number of items in a list of groups.
pub open spec fn total_len(g: Seq<(i64, Seq<u64>)>) -> int
    decreases g.len(),
{
    if g.len() == 0 {
        0
    } else {
        total_len(g.drop_last()) + g.last().1.len()
    }
}

proof fn lemma_runs_len(s: Seq<(i64, u64)>)
    ensures
        total_len(runs(s)) == s.len(),
    decreases s.len(),
{
    if s.len() > 0 {
        lemma_runs_len(s.drop_last());
        let r = runs(s.drop_last());
        let (k, v) = s.last();
        if r.len() > 0 && r.last().0 == k {
            let r2 = r.update(r.len() - 1, (k, r.last().1.push(v)));
            assert(r2.drop_last() =~= r.drop_last());
        }
        else {
            assert(r.push((k, seq![v])).drop_last() =~= r);
        }
    }
}

proof fn lemma_total_len_prefix(g: Seq<(i64, Seq<u64>)>, j: int)
    requires
        0 <= j <= g.len(),
    ensures
        total_len(g.take(j)) <= total_len(g),
    decreases g.len(),
{
    if j == g.len() {
        assert(g.take(j) =~= g);
    } else {
        lemma_total_len_prefix(g.drop_last(), j);
        assert(g.drop_last().take(j) =~= g.take(j));
    }
}

/// The hours of one calendar day; the day is counted from 1970-01-01.
#[derive(Clone, Copy, Debug, PartialEq, Eq, Structural)]
pub struct DayTotal {
    pub day: i64,
    pub hours: u128,
}

/// The hours per day, in the order of the runs of same-day commits, and
/// their total.
pub struct HoursReport {
    pub days: Vec<DayTotal>,
    pub total: u128,
}

pub open spec fn days_view(d: Seq<DayTotal>) -> Seq<(int, int)> {
    d.map_values(|t: DayTotal| (t.day as int, t.hours as int))
}

pub open spec fn entries_view(e: Seq<(Commit, u64)>) -> Seq<(CommitModel, u64)> {
    e.map_values(|p: (Commit, u64)| (p.0@, p.1))
}

const MAX_U64: u128 = 0xFFFF_FFFF_FFFF_FFFF;

/// The sum of a group's values, in seconds.
fn group_seconds(values: &Vec<u64>) -> (r: u128)
    ensures
        r == sum(values@),
        r <= values@.len() * MAX_U64,
{
    let mut acc: u128 = 0;
    let mut j: usize = 0;
    while j < values.len()
        invariant
            j <= values@.len(),
            acc == sum(values@.take(j as int)),
            acc <= j * MAX_U64,
        decreases values.len() - j,
    {
        assert(values@.take(j + 1).drop_last() =~= values@.take(j as int));
        let v = values[j];
        assert(acc + v <= (j + 1) * MAX_U64 <= 0x1_0000_0000_0000_0000 * MAX_U64) by (nonlinear_arith)
            requires
                acc <= j * MAX_U64,
                v <= MAX_U64,
                j < 0x1_0000_0000_0000_0000,
                MAX_U64 == 0xFFFF_FFFF_FFFF_FFFF,
        ;
        acc = acc + v as u128;
        j = j + 1;
    }
    assert(values@.take(j as int) =~= values@);
    acc
}

/// Groups the estimates (in seconds) by the calendar day of their commits,
/// run by run in the given order, and rounds each day up to whole hours.
pub fn tally_days(entries: &Vec<(Commit, u64)>) -> (r: HoursReport)
    ensures
        days_view(r.days@) == day_hours(entries_view(entries@)),
        r.total == total_hours(day_hours(entries_view(entries@))),
        r.total == total_hours(days_view(r.days@)),
{
    let ghost ev = entries_view(entries@);
    let mut keys: Vec<(i64, u64)> = Vec::new();
    let mut i: usize = 0;
    while i < entries.len()
        invariant
            i <= entries@.len(),
            ev == entries_view(entries@),
            keys@ =~= keyed(ev.take(i as int)),
        decreases entries.len() - i,
    {
        let day = entries[i].0.date.local_day();
        keys.push((day, entries[i].1));
        i = i + 1;
        assert(keys@ =~= keyed(ev.take(i as int)));
    }
    assert(ev.take(i as int) =~= ev);
    let n = keys.len();
    let ghost ks = keys@;
    let groups = chunk_by_key(keys);
    let ghost gv = groups_view(groups@);
    proof {
        lemma_runs_len(ks);
    }
    let mut days: Vec<DayTotal> = Vec::new();
    let mut total: u128 = 0;
    let mut g: usize = 0;
    while g < groups.len()
        invariant
            g <= groups@.len(),
            gv == groups_view(groups@),
            gv == runs(ks),
            ks == keyed(ev),
            total_len(gv) == n,
            days_view(days@) =~= day_hours(ev).take(g as int),
            total == total_hours(day_hours(ev).take(g as int)),
            total <= total_len(gv.take(g as int)) * MAX_U64,
        decreases groups.len() - g,
    {
        let seconds = group_seconds(&groups[g].1);
        let ghost before = total_len(gv.take(g as int));
        let ghost len = gv[g as int].1.len();
        proof {
            assert(gv.take(g + 1).drop_last() =~= gv.take(g as int));
            assert(gv[g as int].1 == groups@[g as int].1@);
            lemma_total_len_prefix(gv, g + 1);
            lemma_total_len_prefix(gv, g as int);
            assert(total_len(gv.take(g + 1)) == before + len);
            assert(seconds <= MAX_U64 * MAX_U64) by (nonlinear_arith)
                requires
                    seconds <= len * MAX_U64,
                    len <= n,
                    n <= MAX_U64,
                    0 <= before,
            ;
        }
        let hours: u128 = (seconds + 3599) / 3600;
        proof {
            assert(hours <= seconds) by (nonlinear_arith)
                requires
                    hours == (seconds + 3599) / 3600,
            ;
            assert(total + hours <= (before + len) * MAX_U64) by (nonlinear_arith)
                requires
                    total <= before * MAX_U64,
                    hours <= len * MAX_U64,
            ;
            assert((before + len) * MAX_U64 <= n * MAX_U64) by (nonlinear_arith)
                requires
                    before + len <= n,
                    MAX_U64 > 0,
            ;
            assert(n * MAX_U64 <= MAX_U64 * MAX_U64) by (nonlinear_arith)
                requires
                    n <= MAX_U64,
            ;
            assert(day_hours(ev).take(g + 1).drop_last() =~= day_hours(ev).take(g as int));
        }
        days.push(DayTotal { day: groups[g].0, hours });
        total = total + hours;
        g = g + 1;
    }
    assert(day_hours(ev).take(g as int) =~= day_hours(ev));
    HoursReport { days, total }
}

} // verus!
