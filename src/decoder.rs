//! Decoding a commit log, line by line, into commits.
use vstd::prelude::*;
use crate::commit::{
    Commit, CommitModel, LineModel, ParseLineResult, parse_line, parse_line_spec, views_of,
};
use crate::query::{accepts, author_accepted, select};

verus! {

/// Where the decoder stands between two lines: the commit whose summary was
/// read and whose change summary may still follow.
pub struct DecodeState {
    pub pending: Option<CommitModel>,
}

pub open spec fn initial_state() -> DecodeState {
    DecodeState { pending: None }
}

/// The state after one more line, and the commit that the line completes.
/// Unknown lines, and change summaries with no commit waiting for them, are
/// skipped.
pub open spec fn step(st: DecodeState, line: Seq<char>) -> (DecodeState, Option<CommitModel>) {
    match parse_line_spec(line) {
        LineModel::Unknown => (st, None),
        LineModel::NewCommit(c) => (DecodeState { pending: Some(c) }, st.pending),
        LineModel::Modifications(i, d) => match st.pending {
            Some(c) => (DecodeState { pending: None }, Some(c.with_counts(i, d))),
            None => (st, None),
        },
    }
}

pub open spec fn opt_seq(e: Option<CommitModel>) -> Seq<CommitModel> {
    match e {
        Some(c) => seq![c],
        None => Seq::empty(),
    }
}

/// The commits that the lines `ls` complete from state `st`, ending with the
/// pending commit, if any, once the lines run out.
pub open spec fn decode_from(st: DecodeState, ls: Seq<Seq<char>>) -> Seq<CommitModel>
    decreases ls.len(),
{
    if ls.len() == 0 {
        opt_seq(st.pending)
    } else {
        let (next, e) = step(st, ls[0]);
        opt_seq(e) + decode_from(next, ls.drop_first())
    }
}

/// The commits of a whole log, in the order of their summary lines.
pub open spec fn decode(ls: Seq<Seq<char>>) -> Seq<CommitModel> {
    decode_from(initial_state(), ls)
}

proof fn lemma_select_prepend(authors: Seq<Seq<char>>, e: Option<CommitModel>, rest: Seq<CommitModel>)
    ensures
        select(authors, opt_seq(e) + rest) == (match e {
            Some(c) => if accepts(authors, c.author) {
                seq![c] + select(authors, rest)
            } else {
                select(authors, rest)
            },
            None => select(authors, rest),
        }),
{
    match e {
        Some(c) => {
            assert((seq![c] + rest).drop_first() =~= rest);
            assert((seq![c] + rest)[0] == c);
        },
        None => {
            assert(opt_seq(e) + rest =~= rest);
        },
    }
}

/// Decodes log lines into the commits that an author list accepts.
///
/// Each summary line gives one commit. Its counts come from the next
/// recognised line where that is a change summary; where it is another
/// summary, or the lines end, the counts stay 0. Unknown lines, and change
/// summaries with no commit waiting for them, are skipped. The lines are read
/// forward only, each once.
pub struct CommitIterator {
    authors: Vec<String>,
    lines: Vec<String>,
    pos: usize,
    pending: Option<Commit>,
}

pub open spec fn opt_view(c: Option<Commit>) -> Option<CommitModel> {
    match c {
        Some(c) => Some(c@),
        None => None,
    }
}

impl CommitIterator {
    pub closed spec fn state(&self) -> DecodeState {
        DecodeState { pending: opt_view(self.pending) }
    }

    pub closed spec fn wf(&self) -> bool {
        self.pos <= self.lines@.len()
    }

    /// The lines not read yet.
    pub closed spec fn unread(&self) -> Seq<Seq<char>> {
        views_of(self.lines@).skip(self.pos as int)
    }

    /// The commits still to come.
    pub closed spec fn view(&self) -> Seq<CommitModel> {
        select(
            views_of(self.authors@),
            decode_from(self.state(), self.unread()),
        )
    }

    /// A decoder over `lines` that yields the commits that `authors` accepts.
    pub fn new(authors: Vec<String>, lines: Vec<String>) -> (r: CommitIterator)
        ensures
            r.wf(),
            r@ == select(views_of(authors@), decode(views_of(lines@))),
            r.unread() == views_of(lines@),
    {
        let r = CommitIterator { authors, lines, pos: 0, pending: None };
        assert(views_of(r.lines@).skip(0) =~= views_of(r.lines@));
        r
    }

    /// The next accepted commit, or `None` once there is none left; then
    /// every line has been read. Lines are only ever read forward.
    pub fn next(&mut self) -> (r: Option<Commit>)
        requires
            old(self).wf(),
        ensures
            final(self).wf(),
            match r {
                Some(c) => old(self)@.len() > 0 && c@ == old(self)@[0] && final(self)@ == old(
                    self,
                )@.drop_first(),
                None => old(self)@.len() == 0 && final(self)@.len() == 0
                    && final(self).unread().len() == 0,
            },
            final(self).unread() == old(self).unread().skip(
                old(self).unread().len() - final(self).unread().len(),
            ),
    {
        loop
            invariant
                self.wf(),
                self@ == old(self)@,
                self.lines@ == old(self).lines@,
                old(self).pos <= self.pos,
                self.unread() == old(self).unread().skip(
                    old(self).unread().len() - self.unread().len(),
                ),
            decreases self.lines@.len() - self.pos,
        {
            let ghost authors = views_of(self.authors@);
            let ghost rest = views_of(self.lines@).skip(self.pos as int);
            if self.pos == self.lines.len() {
                let p = self.pending.take();
                proof {
                    lemma_select_prepend(authors, opt_view(p), Seq::empty());
                    assert(rest.len() == 0);
                    assert(opt_seq(opt_view(p)) + Seq::<CommitModel>::empty() =~= opt_seq(opt_view(p)));
                }
                match p {
                    Some(c) => {
                        if author_accepted(&self.authors, &c.author) {
                            return Some(c);
                        } else {
                            return None;
                        }
                    },
                    None => {
                        return None;
                    },
                }
            }
            let ghost st = self.state();
            let parsed = parse_line(self.lines[self.pos].as_str());
            self.pos = self.pos + 1;
            let ghost rest2 = views_of(self.lines@).skip(self.pos as int);
            assert(rest.drop_first() =~= rest2);
            assert(rest2 =~= old(self).unread().skip(self.pos - old(self).pos));
            assert(rest[0] == self.lines@[self.pos - 1]@);
            match parsed {
                ParseLineResult::Unknown => {
                    proof {
                        lemma_select_prepend(authors, None, decode_from(st, rest2));
                    }
                },
                ParseLineResult::NewCommit(c) => {
                    let prev = self.pending.take();
                    self.pending = Some(c);
                    proof {
                        lemma_select_prepend(authors, opt_view(prev), decode_from(self.state(), rest2));
                    }
                    match prev {
                        Some(p) => {
                            if author_accepted(&self.authors, &p.author) {
                                return Some(p);
                            }
                        },
                        None => {},
                    }
                },
                ParseLineResult::Modifications(i, d) => {
                    match self.pending.take() {
                        Some(p) => {
                            let mut p = p;
                            p.insertion_count = i;
                            p.deletion_count = d;
                            proof {
                                lemma_select_prepend(authors, Some(p@), decode_from(self.state(), rest2));
                            }
                            if author_accepted(&self.authors, &p.author) {
                                return Some(p);
                            }
                        },
                        None => {
                            proof {
                                lemma_select_prepend(authors, None, decode_from(self.state(), rest2));
                            }
                        },
                    }
                },
            }
        }
    }
}

} // verus!
