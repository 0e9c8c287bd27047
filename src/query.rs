//! Which commits to read, and whose.
use vstd::prelude::*;
use crate::commit::{Commit, CommitModel, views_of};
use crate::decoder::CommitIterator;

verus! {

/// The selection of commits: the repository's directory, how many entries
/// to skip (kept, not applied), an optional bound on how many log entries to
/// read, and the accepted authors (none means everyone).
pub struct CommitQuery {
    pub working_dir: String,
    pub skip: u32,
    pub limit: Option<u32>,
    pub authors: Vec<String>,
}

/// Whether the author list accepts an author: an empty list accepts everyone,
/// otherwise the name must equal one of the list exactly.
pub open spec fn accepts(authors: Seq<Seq<char>>, author: Seq<char>) -> bool {
    authors.len() == 0 || authors.contains(author)
}

/// The commits of `s` that the author list accepts, in their order.
pub open spec fn select(authors: Seq<Seq<char>>, s: Seq<CommitModel>) -> Seq<CommitModel>
    decreases s.len(),
{
    if s.len() == 0 {
        s
    } else if accepts(authors, s[0].author) {
        seq![s[0]] + select(authors, s.drop_first())
    } else {
        select(authors, s.drop_first())
    }
}

/// An empty author list keeps every commit, in order.
pub proof fn lemma_select_all(s: Seq<CommitModel>)
    ensures
        select(Seq::empty(), s) == s,
    decreases s.len(),
{
    if s.len() > 0 {
        lemma_select_all(s.drop_first());
        assert(seq![s[0]] + s.drop_first() =~= s);
    }
}

/// Whether `authors` accepts `author`.
pub fn author_accepted(authors: &Vec<String>, author: &String) -> (r: bool)
    ensures
        r == accepts(views_of(authors@), author@),
{
    if authors.len() == 0 {
        return true;
    }
    let mut i: usize = 0;
    while i < authors.len()
        invariant
            i <= authors@.len(),
            forall|j: int| 0 <= j < i ==> authors@[j]@ != author@,
        decreases authors.len() - i,
    {
        if authors[i] == *author {
            assert(views_of(authors@)[i as int] == author@);
            return true;
        }
        i = i + 1;
    }
    proof {
        if views_of(authors@).contains(author@) {
            let k = choose|k: int| 0 <= k < views_of(authors@).len() && views_of(authors@)[k] == author@;
            assert(authors@[k]@ == author@);
        }
    }
    false
}

/// A copy of a list of strings.
fn copy_strings(v: &Vec<String>) -> (r: Vec<String>)
    ensures
        views_of(r@) == views_of(v@),
{
    let mut r: Vec<String> = Vec::new();
    let mut i: usize = 0;
    while i < v.len()
        invariant
            i <= v@.len(),
            views_of(r@) =~= views_of(v@.take(i as int)),
        decreases v.len() - i,
    {
        let x = v[i].clone();
        assert(x@ == v@[i as int]@);
        let ghost before = r@;
        r.push(x);
        assert(views_of(r@) =~= views_of(before).push(x@));
        assert(views_of(v@.take(i + 1)) =~= views_of(v@.take(i as int)).push(v@[i as int]@));
        assert(v@.take(i + 1) =~= v@.take(i as int).push(v@[i as int]));
        i = i + 1;
        assert(views_of(r@) =~= views_of(v@.take(i as int)));
    }
    assert(v@.take(v@.len() as int) =~= v@);
    r
}

impl CommitQuery {
    /// A query on the repository at `working_dir` that skips nothing, has no
    /// limit and accepts every author.
    pub fn new(working_dir: &str) -> (r: CommitQuery)
        ensures
            r.working_dir@ == working_dir@,
            r.skip == 0,
            r.limit is None,
            r.authors@.len() == 0,
    {
        CommitQuery {
            working_dir: String::from_str(working_dir),
            skip: 0,
            limit: None,
            authors: Vec::new(),
        }
    }

    /// Sets the number of entries to skip.
    pub fn skip(&mut self, skip: u32) -> (r: &Self)
        ensures
            final(self).skip == skip,
            final(self).working_dir == old(self).working_dir,
            final(self).limit == old(self).limit,
            final(self).authors == old(self).authors,
            *r == *final(self),
    {
        self.skip = skip;
        self
    }

    /// Bounds the number of log entries to read.
    pub fn limit(&mut self, limit: u32) -> (r: &Self)
        ensures
            final(self).limit == Some(limit),
            final(self).working_dir == old(self).working_dir,
            final(self).skip == old(self).skip,
            final(self).authors == old(self).authors,
            *r == *final(self),
    {
        self.limit = Some(limit);
        self
    }

    /// Adds an accepted author.
    pub fn author(&mut self, author: &str) -> (r: &Self)
        ensures
            views_of(final(self).authors@) == views_of(old(self).authors@).push(author@),
            final(self).working_dir == old(self).working_dir,
            final(self).skip == old(self).skip,
            final(self).limit == old(self).limit,
            *r == *final(self),
    {
        self.authors.push(String::from_str(author));
        assert(views_of(self.authors@) =~= views_of(old(self).authors@).push(author@));
        self
    }

    /// Adds accepted authors, in order.
    pub fn authors(&mut self, authors: &[&str]) -> (r: &Self)
        ensures
            views_of(final(self).authors@) == views_of(old(self).authors@) + authors@.map_values(
                |a: &str| a@,
            ),
            final(self).working_dir == old(self).working_dir,
            final(self).skip == old(self).skip,
            final(self).limit == old(self).limit,
            *r == *final(self),
    {
        let mut i: usize = 0;
        while i < authors.len()
            invariant
                i <= authors@.len(),
                views_of(self.authors@) =~= views_of(old(self).authors@) + authors@.take(
                    i as int,
                ).map_values(|a: &str| a@),
                self.working_dir == old(self).working_dir,
                self.skip == old(self).skip,
                self.limit == old(self).limit,
            decreases authors.len() - i,
        {
            self.author(authors[i]);
            i = i + 1;
            assert(authors@.take(i as int).map_values(|a: &str| a@) =~= authors@.take(
                i - 1,
            ).map_values(|a: &str| a@).push(authors@[i - 1]@));
        }
        assert(authors@.take(authors@.len() as int) =~= authors@);
        self
    }

    /// Whether the query accepts a commit by its author.
    pub fn match_commit(&self, commit: &Commit) -> (r: bool)
        ensures
            r == accepts(views_of(self.authors@), commit.author@),
    {
        author_accepted(&self.authors, &commit.author)
    }

    /// The commits that the log lines `lines` describe and this query accepts,
    /// decoded one at a time.
    pub fn run(&self, lines: Vec<String>) -> (r: CommitIterator)
        ensures
            r.wf(),
            r@ == select(views_of(self.authors@), crate::decoder::decode(views_of(lines@))),
    {
        CommitIterator::new(copy_strings(&self.authors), lines)
    }
}

} // verus!
