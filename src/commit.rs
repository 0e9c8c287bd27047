//! Commit records and the classification of single log lines.
use vstd::prelude::*;
use crate::timestamp::{Timestamp, rfc3339_of};

verus! {

/// One commit of the history: its abbreviated hash, its author, the author
/// date, and the lines it inserted and deleted.
#[derive(Debug)]
pub struct Commit {
    pub hash: String,
    pub author: String,
    pub date: Timestamp,
    pub insertion_count: u32,
    pub deletion_count: u32,
}

/// The mathematical value of a [`Commit`].
pub struct CommitModel {
    pub hash: Seq<char>,
    pub author: Seq<char>,
    pub date: Timestamp,
    pub insertion_count: u32,
    pub deletion_count: u32,
}

impl View for Commit {
    type V = CommitModel;

    open spec fn view(&self) -> CommitModel {
        CommitModel {
            hash: self.hash@,
            author: self.author@,
            date: self.date,
            insertion_count: self.insertion_count,
            deletion_count: self.deletion_count,
        }
    }
}

impl CommitModel {
    /// The same commit with the given modification counts.
    pub open spec fn with_counts(self, insertions: u32, deletions: u32) -> CommitModel {
        CommitModel { insertion_count: insertions, deletion_count: deletions, ..self }
    }
}

/// What one log line says.
pub enum ParseLineResult {
    /// A commit summary; its counts are still 0.
    NewCommit(Commit),
    /// Insertions and deletions of the commit whose summary came before.
    Modifications(u32, u32),
    /// Anything else.
    Unknown,
}

/// The mathematical value of a [`ParseLineResult`].
pub enum LineModel {
    NewCommit(CommitModel),
    Modifications(u32, u32),
    Unknown,
}

impl View for ParseLineResult {
    type V = LineModel;

    open spec fn view(&self) -> LineModel {
        match self {
            ParseLineResult::NewCommit(c) => LineModel::NewCommit(c@),
            ParseLineResult::Modifications(i, d) => LineModel::Modifications(*i, *d),
            ParseLineResult::Unknown => LineModel::Unknown,
        }
    }
}

/// The tab-separated fields of a line; there is always at least one.
pub open spec fn split_tabs(s: Seq<char>) -> Seq<Seq<char>>
    decreases s.len(),
{
    if s.len() == 0 {
        seq![Seq::empty()]
    } else {
        let prev = split_tabs(s.drop_last());
        if s.last() == '\t' {
            prev.push(Seq::empty())
        } else {
            prev.update(prev.len() - 1, prev.last().push(s.last()))
        }
    }
}

pub proof fn lemma_split_tabs_nonempty(s: Seq<char>)
    ensures
        split_tabs(s).len() >= 1,
    decreases s.len(),
{
    if s.len() > 0 {
        lemma_split_tabs_nonempty(s.drop_last());
    }
}

pub open spec fn is_digit(c: char) -> bool {
    '0' <= c && c <= '9'
}

/// The value of a string of decimal digits.
pub open spec fn decimal_value(s: Seq<char>) -> int
    decreases s.len(),
{
    if s.len() == 0 {
        0
    } else {
        10 * decimal_value(s.drop_last()) + (s.last() as int - '0' as int)
    }
}

/// A non-empty string of decimal digits whose value fits in a `u32`.
pub open spec fn decimal_u32(s: Seq<char>) -> Option<u32> {
    if s.len() > 0 && (forall|i: int| 0 <= i < s.len() ==> is_digit(#[trigger] s[i]))
        && decimal_value(s) <= u32::MAX {
        Some(decimal_value(s) as u32)
    } else {
        None
    }
}

proof fn lemma_decimal_value_grows(s: Seq<char>, i: int)
    requires
        0 <= i <= s.len(),
        forall|j: int| 0 <= j < s.len() ==> is_digit(#[trigger] s[j]),
    ensures
        decimal_value(s.take(i)) <= decimal_value(s),
        decimal_value(s) >= 0,
    decreases s.len(),
{
    if s.len() > 0 {
        lemma_decimal_value_grows(s.drop_last(), if i == s.len() { 0 } else { i });
        if i < s.len() {
            assert(s.drop_last().take(i) == s.take(i));
        } else {
            assert(s.take(i) == s);
        }
    }
}

/// Reads a non-empty string of ASCII decimal digits whose value fits in a `u32`.
pub fn parse_u32(s: &str) -> (r: Option<u32>)
    ensures
        r == decimal_u32(s@),
{
    let n = s.unicode_len();
    if n == 0 {
        return None;
    }
    let mut acc: u64 = 0;
    let mut i: usize = 0;
    while i < n
        invariant
            n == s@.len(),
            i <= n,
            forall|j: int| 0 <= j < i ==> is_digit(#[trigger] s@[j]),
            acc as int == decimal_value(s@.take(i as int)),
            acc <= u32::MAX,
        decreases n - i,
    {
        let c = s.get_char(i);
        if !('0' <= c && c <= '9') {
            return None;
        }
        assert(s@.take(i + 1).drop_last() == s@.take(i as int));
        acc = acc * 10 + (c as u64 - '0' as u64);
        i = i + 1;
        if acc > u32::MAX as u64 {
            proof {
                if forall|j: int| 0 <= j < s@.len() ==> is_digit(#[trigger] s@[j]) {
                    lemma_decimal_value_grows(s@, i as int);
                }
            }
            return None;
        }
    }
    assert(s@.take(n as int) == s@);
    Some(acc as u32)
}

/// The views of a sequence of strings.
pub open spec fn views_of(v: Seq<String>) -> Seq<Seq<char>> {
    v.map_values(|x: String| x@)
}

/// Splits a line at each tab, as `str::split('\t')` does.
pub fn split_tabs_exec(s: &str) -> (r: Vec<String>)
    ensures
        views_of(r@) == split_tabs(s@),
{
    let n = s.unicode_len();
    let mut fields: Vec<String> = Vec::new();
    let mut start: usize = 0;
    let mut i: usize = 0;
    assert(s@.take(0) =~= Seq::<char>::empty());
    assert(views_of(fields@).push(s@.subrange(0, 0)) =~= seq![Seq::<char>::empty()]);
    while i < n
        invariant
            n == s@.len(),
            start <= i <= n,
            views_of(fields@).push(s@.subrange(start as int, i as int)) == split_tabs(
                s@.take(i as int),
            ),
        decreases n - i,
    {
        let c = s.get_char(i);
        let ghost prev = split_tabs(s@.take(i as int));
        let ghost old_fields = views_of(fields@);
        assert(s@.take(i + 1).drop_last() == s@.take(i as int));
        let ghost start_old = start;
        if c == '\t' {
            let field = String::from_str(s.substring_char(start, i));
            fields.push(field);
            start = i + 1;
            proof {
                assert(views_of(fields@) =~= old_fields.push(s@.subrange(start_old as int, i as int)));
                assert(s@.subrange(start as int, i + 1) =~= Seq::<char>::empty());
            }
        } else {
            proof {
                assert(s@.subrange(start as int, i + 1) == s@.subrange(start as int, i as int).push(
                    c,
                ));
                assert(s@.subrange(start as int, i + 1) =~= s@.subrange(start as int, i as int).push(c));
                assert(views_of(fields@).push(s@.subrange(start as int, i + 1)) =~= prev.update(
                    prev.len() - 1,
                    prev.last().push(c),
                ));
            }
        }
        i = i + 1;
        assert(views_of(fields@).push(s@.subrange(start as int, i as int)) == split_tabs(
            s@.take(i as int),
        ));
    }
    let last = String::from_str(s.substring_char(start, n));
    let ghost before = views_of(fields@);
    fields.push(last);
    assert(views_of(fields@) =~= before.push(s@.subrange(start as int, n as int)));
    assert(s@.take(n as int) =~= s@);
    assert(views_of(fields@) == split_tabs(s@));
    fields
}

/// The first field of a commit summary line.
pub const SUMMARY_MARKER: &'static str = "COMMIT";

/// A change summary: a count of insertions and, later on the line, one of deletions.
pub const MODIFICATIONS_PATTERN: &'static str = r"(\d+) insertions\(\+\).*?(\d+) deletions\(\-\)";

/// What the `regex` crate finds for the first two capture groups of the
/// leftmost match of `pattern` in `text`: `None` where nothing matches (or the
/// pattern does not compile).
pub uninterp spec fn regex_captures_of(pattern: Seq<char>, text: Seq<char>) -> Option<
    (Seq<char>, Seq<char>),
>;

pub open spec fn pair_view(r: Option<(String, String)>) -> Option<(Seq<char>, Seq<char>)> {
    match r {
        Some((a, b)) => Some((a@, b@)),
        None => None,
    }
}

/// Relies on `regex::Regex::new` and `Regex::captures`: the texts of capture
/// groups 1 and 2 of the leftmost match.
#[verifier::external_body]
fn first_two_captures(pattern: &str, text: &str) -> (r: Option<(String, String)>)
    ensures
        pair_view(r) == regex_captures_of(pattern@, text@),
{
    let re = match regex::Regex::new(pattern) {
        Ok(re) => re,
        Err(_) => return None,
    };
    let caps = re.captures(text)?;
    Some((caps.get(1)?.as_str().to_string(), caps.get(2)?.as_str().to_string()))
}

/// What a log line says.
///
/// A summary line is `COMMIT`, hash, author, author date and optionally the
/// commit date, separated by tabs; it is recognised only where each date
/// given is a valid RFC 3339 date-time. Any other line is a change summary
/// where the modification pattern matches it with two counts that fit in a
/// `u32`, and unknown otherwise.
pub open spec fn parse_line_spec(l: Seq<char>) -> LineModel {
    let f = split_tabs(l);
    if f[0] == SUMMARY_MARKER@ {
        if f.len() >= 4 && rfc3339_of(f[3]) is Some && (f.len() == 4 || rfc3339_of(f[4]) is Some) {
            LineModel::NewCommit(
                CommitModel {
                    hash: f[1],
                    author: f[2],
                    date: rfc3339_of(f[3])->0,
                    insertion_count: 0,
                    deletion_count: 0,
                },
            )
        } else {
            LineModel::Unknown
        }
    } else {
        match regex_captures_of(MODIFICATIONS_PATTERN@, l) {
            Some((a, b)) => match (decimal_u32(a), decimal_u32(b)) {
                (Some(i), Some(d)) => LineModel::Modifications(i, d),
                _ => LineModel::Unknown,
            },
            None => LineModel::Unknown,
        }
    }
}

/// Classifies one log line.
pub fn parse_line(line: &str) -> (r: ParseLineResult)
    ensures
        r@ == parse_line_spec(line@),
{
    let fields = split_tabs_exec(line);
    proof {
        lemma_split_tabs_nonempty(line@);
    }
    let marker = String::from_str(SUMMARY_MARKER);
    if fields[0] == marker {
        if fields.len() < 4 {
            return ParseLineResult::Unknown;
        }
        let author_date = match Timestamp::parse_rfc3339(fields[3].as_str()) {
            Some(d) => d,
            None => return ParseLineResult::Unknown,
        };
        if fields.len() >= 5 {
            if Timestamp::parse_rfc3339(fields[4].as_str()).is_none() {
                return ParseLineResult::Unknown;
            }
        }
        ParseLineResult::NewCommit(
            Commit {
                hash: fields[1].clone(),
                author: fields[2].clone(),
                date: author_date,
                insertion_count: 0,
                deletion_count: 0,
            },
        )
    } else {
        match first_two_captures(MODIFICATIONS_PATTERN, line) {
            Some((a, b)) => match (parse_u32(a.as_str()), parse_u32(b.as_str())) {
                (Some(i), Some(d)) => ParseLineResult::Modifications(i, d),
                _ => ParseLineResult::Unknown,
            },
            None => ParseLineResult::Unknown,
        }
    }
}

} // verus!
