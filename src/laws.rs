//! Properties of the pipeline that hold for all inputs.
use vstd::prelude::*;
use crate::commit::{CommitModel, parse_line_spec};
use crate::counter::{capacity_seconds, estimate, estimates, workload_seconds};
use crate::days::runs;
use crate::decoder::{DecodeState, decode, decode_from, initial_state, opt_seq};
use crate::pipeline::{report_days, selected};
use crate::query::lemma_select_all;
use crate::timestamp::nanos_between;

verus! {

/// A summary line directly followed by a change summary decodes to exactly
/// one commit, whose counts are the two numbers of the change summary; the
/// rest of the log decodes as if it stood alone.
pub proof fn lemma_summary_then_changes(
    summary: Seq<char>,
    changes: Seq<char>,
    rest: Seq<Seq<char>>,
)
    requires
        parse_line_spec(summary) is NewCommit,
        parse_line_spec(changes) is Modifications,
    ensures
        decode(seq![summary, changes] + rest) == seq![
            parse_line_spec(summary)->NewCommit_0.with_counts(
                parse_line_spec(changes)->Modifications_0,
                parse_line_spec(changes)->Modifications_1,
            ),
        ] + decode(rest),
{
    let ls = seq![summary, changes] + rest;
    let tail = seq![changes] + rest;
    assert(ls[0] == summary);
    assert(ls.drop_first() =~= tail);
    assert(tail[0] == changes);
    assert(tail.drop_first() =~= rest);
    let c = parse_line_spec(summary)->NewCommit_0;
    let st = DecodeState { pending: Some(c) };
    assert(decode_from(initial_state(), ls) == opt_seq(None) + decode_from(st, tail));
    assert(opt_seq(None) + decode_from(st, tail) =~= decode_from(st, tail));
}

/// A change summary with no commit waiting for it is skipped: the lines
/// after it decode as if it were not there.
pub proof fn lemma_stray_changes_skipped(changes: Seq<char>, rest: Seq<Seq<char>>)
    requires
        parse_line_spec(changes) is Modifications,
    ensures
        decode(seq![changes] + rest) == decode(rest),
{
    let ls = seq![changes] + rest;
    assert(ls[0] == changes);
    assert(ls.drop_first() =~= rest);
    assert(opt_seq(None) + decode(rest) =~= decode(rest));
}

/// A summary line directly followed by another summary line gives a commit
/// with no insertions and no deletions; the second summary goes on pending.
pub proof fn lemma_summary_then_summary(first: Seq<char>, second: Seq<char>, rest: Seq<Seq<char>>)
    requires
        parse_line_spec(first) is NewCommit,
        parse_line_spec(second) is NewCommit,
    ensures
        decode(seq![first, second] + rest) == seq![parse_line_spec(first)->NewCommit_0]
            + decode_from(
            DecodeState { pending: Some(parse_line_spec(second)->NewCommit_0) },
            rest,
        ),
        parse_line_spec(first)->NewCommit_0.insertion_count == 0,
        parse_line_spec(first)->NewCommit_0.deletion_count == 0,
{
    let ls = seq![first, second] + rest;
    let tail = seq![second] + rest;
    assert(ls[0] == first);
    assert(ls.drop_first() =~= tail);
    assert(tail[0] == second);
    assert(tail.drop_first() =~= rest);
    let c = parse_line_spec(first)->NewCommit_0;
    let st = DecodeState { pending: Some(c) };
    assert(decode_from(initial_state(), ls) == opt_seq(None) + decode_from(st, tail));
    assert(opt_seq(None) + decode_from(st, tail) =~= decode_from(st, tail));
}

/// A summary line at the end of the log gives a commit with no insertions
/// and no deletions.
pub proof fn lemma_summary_at_end(summary: Seq<char>)
    requires
        parse_line_spec(summary) is NewCommit,
    ensures
        decode(seq![summary]) == seq![parse_line_spec(summary)->NewCommit_0],
        parse_line_spec(summary)->NewCommit_0.insertion_count == 0,
        parse_line_spec(summary)->NewCommit_0.deletion_count == 0,
{
    let ls = seq![summary];
    assert(ls[0] == summary);
    assert(ls.drop_first() =~= Seq::<Seq<char>>::empty());
    let c = parse_line_spec(summary)->NewCommit_0;
    let st = DecodeState { pending: Some(c) };
    assert(decode_from(st, Seq::<Seq<char>>::empty()) == seq![c]);
    assert(opt_seq(None) + seq![c] =~= seq![c]);
}

/// Running the pipeline again on the same log with the same authors gives
/// the same days, in the same order, with the same hours.
pub proof fn lemma_same_log_same_report(
    authors: Seq<Seq<char>>,
    first_run: Seq<Seq<char>>,
    second_run: Seq<Seq<char>>,
)
    requires
        first_run == second_run,
    ensures
        report_days(authors, first_run) == report_days(authors, second_run),
        selected(authors, first_run) == selected(authors, second_run),
{
}

/// With no authors given, every decoded commit is kept, in order.
pub proof fn lemma_no_authors_keeps_all(lines: Seq<Seq<char>>)
    ensures
        selected(Seq::empty(), lines) == decode(lines),
{
    lemma_select_all(decode(lines));
}

/// An estimate is never negative, and where the following commit is not
/// earlier than the commit itself there is no time for it at all.
pub proof fn lemma_estimate_never_negative(c: CommitModel, next: Option<CommitModel>)
    ensures
        estimate(c, next) >= 0,
        next is Some && nanos_between(c.date, next->0.date) <= 0 ==> capacity_seconds(
            c,
            next->0,
        ) == 0 && estimate(c, next) == 0,
{
}

/// The last commit of a sequence, which no other follows, gets its whole
/// workload.
pub proof fn lemma_last_commit_unbounded(s: Seq<CommitModel>)
    requires
        s.len() > 0,
    ensures
        estimates(s)[s.len() - 1].1 == workload_seconds(s.last()),
{
}

/// The values of groups, one group after the other.
pub open spec fn flatten(g: Seq<(i64, Seq<u64>)>) -> Seq<u64>
    decreases g.len(),
{
    if g.len() == 0 {
        Seq::empty()
    } else {
        flatten(g.drop_last()) + g.last().1
    }
}

/// The runs of a keyed sequence hold its values in their order, none is
/// empty, two neighbouring runs have different keys, and the last run has
/// the key of the last item.
pub proof fn lemma_runs_keep_order(s: Seq<(i64, u64)>)
    ensures
        flatten(runs(s)) == s.map_values(|p: (i64, u64)| p.1),
        forall|i: int| 0 <= i < runs(s).len() ==> #[trigger] runs(s)[i].1.len() > 0,
        forall|i: int| 0 <= i < runs(s).len() - 1 ==> #[trigger] runs(s)[i].0 != runs(s)[i + 1].0,
        s.len() > 0 ==> runs(s).len() > 0 && runs(s).last().0 == s.last().0,
    decreases s.len(),
{
    if s.len() > 0 {
        let p = s.drop_last();
        lemma_runs_keep_order(p);
        let r = runs(p);
        let (k, v) = s.last();
        assert(s.map_values(|q: (i64, u64)| q.1) =~= p.map_values(|q: (i64, u64)| q.1).push(v));
        if r.len() > 0 && r.last().0 == k {
            let r2 = r.update(r.len() - 1, (k, r.last().1.push(v)));
            assert(r2.drop_last() =~= r.drop_last());
            assert(flatten(r2) =~= flatten(r).push(v));
        } else {
            let r2 = r.push((k, seq![v]));
            assert(r2.drop_last() =~= r);
            assert(flatten(r2) =~= flatten(r).push(v));
        }
    } else {
        assert(s.map_values(|q: (i64, u64)| q.1) =~= Seq::<u64>::empty());
    }
}

} // verus!
