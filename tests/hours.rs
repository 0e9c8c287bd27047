use git_hours::commit::parse_u32;
use git_hours::{
    report_hours, parse_line, tally_days, Commit, CommitIterator, CommitQuery, Counter, DayTotal,
    ParseLineResult, Timestamp,
};

const DAY_2024_01_01: i64 = 19723;

fn lines(v: &[&str]) -> Vec<String> {
    v.iter().map(|s| s.to_string()).collect()
}

fn scenario_lines() -> Vec<String> {
    lines(&[
        "COMMIT\tabc123\tAlice\t2024-01-01T09:00:00+00:00\t2024-01-01T09:00:00+00:00",
        "1 file changed, 10 insertions(+), 0 deletions(-)",
        "COMMIT\tdef456\tAlice\t2024-01-01T09:00:00+00:00\t2024-01-01T09:00:00+00:00",
        "3 files changed, 40 insertions(+), 2 deletions(-)",
    ])
}

fn ts(s: &str) -> Timestamp {
    Timestamp::parse_rfc3339(s).unwrap()
}

fn commit(hash: &str, author: &str, date: &str, ins: u32, del: u32) -> Commit {
    Commit {
        hash: hash.to_string(),
        author: author.to_string(),
        date: ts(date),
        insertion_count: ins,
        deletion_count: del,
    }
}

fn collect(mut it: CommitIterator) -> Vec<Commit> {
    let mut out = Vec::new();
    while let Some(c) = it.next() {
        out.push(c);
    }
    out
}

#[test]
fn rfc3339_utc_parses() {
    let t = ts("2024-01-01T09:00:00+00:00");
    assert_eq!(t, Timestamp { seconds: 1704099600, nanos: 0, offset: 0 });
    assert_eq!(t.local_day(), DAY_2024_01_01);
}

#[test]
fn rfc3339_keeps_offset() {
    let t = ts("2024-01-01T01:00:00+02:00");
    assert_eq!(t.seconds, 1704063600);
    assert_eq!(t.offset, 7200);
    assert_eq!(t.local_day(), DAY_2024_01_01);
}

#[test]
fn rfc3339_rejects_garbage() {
    assert!(Timestamp::parse_rfc3339("yesterday").is_none());
    assert!(Timestamp::parse_rfc3339("").is_none());
}

#[test]
fn local_day_before_epoch() {
    assert_eq!(ts("1969-12-31T23:00:00+00:00").local_day(), -1);
    assert_eq!(ts("1970-01-01T00:00:00+00:00").local_day(), 0);
}

#[test]
fn minutes_since_truncates_and_clamps() {
    let a = ts("2024-01-01T09:00:00+00:00");
    let b = ts("2024-01-01T09:30:59+00:00");
    assert_eq!(b.minutes_since(&a), 30);
    assert_eq!(a.minutes_since(&b), 0);
    assert_eq!(a.minutes_since(&a), 0);
    let c = ts("2024-01-01T09:00:30+00:00");
    assert_eq!(c.minutes_since(&a), 0);
}

#[test]
fn parse_u32_limits() {
    assert_eq!(parse_u32("0"), Some(0));
    assert_eq!(parse_u32("4294967295"), Some(u32::MAX));
    assert_eq!(parse_u32("4294967296"), None);
    assert_eq!(parse_u32(""), None);
    assert_eq!(parse_u32("12a"), None);
}

#[test]
fn parse_summary_line() {
    match parse_line("COMMIT\tabc123\tAlice\t2024-01-01T09:00:00+00:00\t2024-01-01T10:00:00+00:00") {
        ParseLineResult::NewCommit(c) => {
            assert_eq!(c.hash, "abc123");
            assert_eq!(c.author, "Alice");
            assert_eq!(c.date, ts("2024-01-01T09:00:00+00:00"));
            assert_eq!(c.insertion_count, 0);
            assert_eq!(c.deletion_count, 0);
        }
        _ => panic!("expected a commit"),
    }
}

#[test]
fn parse_summary_without_commit_date() {
    assert!(matches!(
        parse_line("COMMIT\tabc\tBob\t2024-01-01T09:00:00+00:00"),
        ParseLineResult::NewCommit(_)
    ));
}

#[test]
fn parse_summary_with_bad_dates_is_unknown() {
    assert!(matches!(
        parse_line("COMMIT\tabc\tBob\tnot-a-date\t2024-01-01T09:00:00+00:00"),
        ParseLineResult::Unknown
    ));
    assert!(matches!(
        parse_line("COMMIT\tabc\tBob\t2024-01-01T09:00:00+00:00\tnever"),
        ParseLineResult::Unknown
    ));
    assert!(matches!(parse_line("COMMIT\tabc"), ParseLineResult::Unknown));
}

#[test]
fn parse_modification_line() {
    assert!(matches!(
        parse_line(" 3 files changed, 40 insertions(+), 2 deletions(-)"),
        ParseLineResult::Modifications(40, 2)
    ));
    assert!(matches!(
        parse_line("1 file changed, 10 insertions(+), 0 deletions(-)"),
        ParseLineResult::Modifications(10, 0)
    ));
}

#[test]
fn parse_other_lines_are_unknown() {
    assert!(matches!(parse_line(""), ParseLineResult::Unknown));
    assert!(matches!(parse_line("1 file changed, 5 insertions(+)"), ParseLineResult::Unknown));
    assert!(matches!(
        parse_line("9999999999 insertions(+), 1 deletions(-)"),
        ParseLineResult::Unknown
    ));
}

#[test]
fn decode_scenario_attaches_counts() {
    let cs = collect(CommitIterator::new(Vec::new(), scenario_lines()));
    assert_eq!(cs.len(), 2);
    assert_eq!(cs[0].hash, "abc123");
    assert_eq!((cs[0].insertion_count, cs[0].deletion_count), (10, 0));
    assert_eq!(cs[1].hash, "def456");
    assert_eq!((cs[1].insertion_count, cs[1].deletion_count), (40, 2));
}

#[test]
fn decode_summary_without_changes_has_zero_counts() {
    let ls = lines(&[
        "COMMIT\ta\tAlice\t2024-01-01T09:00:00+00:00\t2024-01-01T09:00:00+00:00",
        "COMMIT\tb\tAlice\t2024-01-01T08:00:00+00:00\t2024-01-01T08:00:00+00:00",
        "unrelated",
        "2 files changed, 7 insertions(+), 1 deletions(-)",
        "COMMIT\tc\tAlice\t2024-01-01T07:00:00+00:00\t2024-01-01T07:00:00+00:00",
    ]);
    let cs = collect(CommitIterator::new(Vec::new(), ls));
    let got: Vec<(&str, u32, u32)> =
        cs.iter().map(|c| (c.hash.as_str(), c.insertion_count, c.deletion_count)).collect();
    assert_eq!(got, vec![("a", 0, 0), ("b", 7, 1), ("c", 0, 0)]);
}

#[test]
fn decode_stray_changes_are_skipped() {
    let ls = lines(&[
        "1 file changed, 1 insertions(+), 1 deletions(-)",
        "COMMIT\ta\tAlice\t2024-01-01T09:00:00+00:00\t2024-01-01T09:00:00+00:00",
        "COMMIT\tb\tAlice\tbad-date\t2024-01-01T08:00:00+00:00",
        "1 file changed, 4 insertions(+), 4 deletions(-)",
        "COMMIT\tc\tAlice\t2024-01-01T07:00:00+00:00\t2024-01-01T07:00:00+00:00",
        "1 file changed, 2 insertions(+), 3 deletions(-)",
    ]);
    let cs = collect(CommitIterator::new(Vec::new(), ls));
    let got: Vec<(&str, u32, u32)> =
        cs.iter().map(|c| (c.hash.as_str(), c.insertion_count, c.deletion_count)).collect();
    // The summary of `b` is unknown and skipped, so the change line after it
    // belongs to `a`, which is still waiting for its counts.
    assert_eq!(got, vec![("a", 4, 4), ("c", 2, 3)]);
}

#[test]
fn decode_lone_stray_change_then_summary() {
    let ls = lines(&[
        "1 file changed, 1 insertions(+), 1 deletions(-)",
        "COMMIT\ta\tAlice\t2024-01-01T09:00:00+00:00\t2024-01-01T09:00:00+00:00",
    ]);
    let cs = collect(CommitIterator::new(Vec::new(), ls));
    assert_eq!(cs.len(), 1);
    assert_eq!(cs[0].hash, "a");
    assert_eq!((cs[0].insertion_count, cs[0].deletion_count), (0, 0));
}

#[test]
fn decode_empty_log() {
    assert!(collect(CommitIterator::new(Vec::new(), Vec::new())).is_empty());
}

#[test]
fn decoding_twice_gives_the_same_commits() {
    let a = collect(CommitIterator::new(Vec::new(), scenario_lines()));
    let b = collect(CommitIterator::new(Vec::new(), scenario_lines()));
    let key = |c: &Commit| (c.hash.clone(), c.author.clone(), c.date, c.insertion_count, c.deletion_count);
    assert_eq!(a.iter().map(key).collect::<Vec<_>>(), b.iter().map(key).collect::<Vec<_>>());
}

#[test]
fn filter_by_author_is_exact() {
    let ls = lines(&[
        "COMMIT\ta\tAlice\t2024-01-01T09:00:00+00:00\t2024-01-01T09:00:00+00:00",
        "COMMIT\tb\tBob\t2024-01-01T08:00:00+00:00\t2024-01-01T08:00:00+00:00",
        "COMMIT\tc\talice\t2024-01-01T07:00:00+00:00\t2024-01-01T07:00:00+00:00",
    ]);
    let mut q = CommitQuery::new("/repo");
    q.author("Alice");
    let cs = collect(q.run(ls.clone()));
    assert_eq!(cs.len(), 1);
    assert_eq!(cs[0].hash, "a");
    let all = collect(CommitQuery::new("/repo").run(ls));
    assert_eq!(all.iter().map(|c| c.hash.as_str()).collect::<Vec<_>>(), vec!["a", "b", "c"]);
}

#[test]
fn query_builder_sets_fields() {
    let mut q = CommitQuery::new("/repo");
    assert_eq!(q.working_dir, "/repo");
    assert_eq!(q.skip, 0);
    assert_eq!(q.limit, None);
    assert!(q.authors.is_empty());
    q.skip(3);
    q.limit(5);
    q.author("A");
    q.authors(&["B", "C"]);
    assert_eq!(q.skip, 3);
    assert_eq!(q.limit, Some(5));
    assert_eq!(q.authors, vec!["A".to_string(), "B".to_string(), "C".to_string()]);
}

#[test]
fn count_hours_bounds_workload_by_gap() {
    let c = commit("x", "A", "2024-01-01T09:05:00+00:00", 10, 0);
    let earlier = commit("y", "A", "2024-01-01T09:00:00+00:00", 0, 0);
    let close = commit("z", "A", "2024-01-01T09:03:00+00:00", 0, 0);
    let later = commit("w", "A", "2024-01-01T10:00:00+00:00", 0, 0);
    assert_eq!(Counter::count_hours(&c, &None), 300);
    assert_eq!(Counter::count_hours(&c, &Some(earlier)), 300);
    assert_eq!(Counter::count_hours(&c, &Some(close)), 120);
    assert_eq!(Counter::count_hours(&c, &Some(later)), 0);
    let both = commit("v", "A", "2024-01-01T09:05:00+00:00", 3, 4);
    assert_eq!(Counter::count_hours(&both, &None), 210);
}

#[test]
fn counter_scenario_estimates() {
    let mut counter = Counter::new(CommitIterator::new(Vec::new(), scenario_lines()));
    let (a, ha) = counter.next().unwrap();
    assert_eq!(a.hash, "abc123");
    assert_eq!(ha, 0);
    let (b, hb) = counter.next().unwrap();
    assert_eq!(b.hash, "def456");
    assert_eq!(hb, 42 * 30);
    assert!(counter.next().is_none());
    assert!(counter.next().is_none());
}

#[test]
fn scenario_report_is_one_hour() {
    let r = report_hours(&CommitQuery::new("/repo"), scenario_lines());
    assert_eq!(r.days, vec![DayTotal { day: DAY_2024_01_01, hours: 1 }]);
    assert_eq!(r.total, 1);
}

#[test]
fn report_empty_log() {
    let r = report_hours(&CommitQuery::new("/repo"), Vec::new());
    assert!(r.days.is_empty());
    assert_eq!(r.total, 0);
}

#[test]
fn tally_groups_runs_not_dates() {
    let entries = vec![
        (commit("a", "A", "2024-01-02T10:00:00+00:00", 0, 0), 3600),
        (commit("b", "A", "2024-01-02T09:00:00+00:00", 0, 0), 1),
        (commit("c", "A", "2024-01-01T09:00:00+00:00", 0, 0), 7200),
        (commit("d", "A", "2024-01-02T08:00:00+00:00", 0, 0), 0),
    ];
    let r = tally_days(&entries);
    assert_eq!(
        r.days,
        vec![
            DayTotal { day: DAY_2024_01_01 + 1, hours: 2 },
            DayTotal { day: DAY_2024_01_01, hours: 2 },
            DayTotal { day: DAY_2024_01_01 + 1, hours: 0 },
        ]
    );
    assert_eq!(r.total, 4);
    assert_eq!(r.days.iter().map(|d| d.hours).sum::<u128>(), r.total);
}

#[test]
fn tally_uses_local_day() {
    let entries = vec![
        (commit("a", "A", "2024-01-01T23:30:00-02:00", 0, 0), 100),
        (commit("b", "A", "2024-01-02T00:30:00+00:00", 0, 0), 100),
    ];
    let r = tally_days(&entries);
    assert_eq!(
        r.days,
        vec![DayTotal { day: DAY_2024_01_01, hours: 1 }, DayTotal { day: DAY_2024_01_01 + 1, hours: 1 }]
    );
    assert_eq!(r.total, 2);
}

#[test]
fn report_with_gaps_over_days() {
    let ls = lines(&[
        "COMMIT\ta\tAlice\t2024-01-02T12:00:00+00:00\t2024-01-02T12:00:00+00:00",
        " 1 file changed, 600 insertions(+), 0 deletions(-)",
        "COMMIT\tb\tAlice\t2024-01-02T10:00:00+00:00\t2024-01-02T10:00:00+00:00",
        " 1 file changed, 100 insertions(+), 20 deletions(-)",
        "COMMIT\tc\tAlice\t2024-01-01T09:00:00+00:00\t2024-01-01T09:00:00+00:00",
        " 1 file changed, 130 insertions(+), 0 deletions(-)",
    ]);
    // a: workload 18000 s, 2 h gap -> 7200; b: 3600 s, 25 h gap -> 3600; c: 3900 s.
    let r = report_hours(&CommitQuery::new("/repo"), ls);
    assert_eq!(
        r.days,
        vec![DayTotal { day: DAY_2024_01_01 + 1, hours: 3 }, DayTotal { day: DAY_2024_01_01, hours: 2 }]
    );
    assert_eq!(r.total, 5);
}
