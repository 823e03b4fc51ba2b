//! The aggregator: a set of unique log lines, collected across every
//! configured (repository, branch, author) combination.

use vstd::prelude::*;

verus! {

/// A deduplicated collection of log lines. Well-formed states hold no two
/// lines with the same text, and every line is long enough to carry the
/// fixed-width stamp that the resorter compares.
#[derive(Debug)]
pub struct LogSet {
    pub lines: Vec<String>,
}

impl LogSet {
    /// The line texts, in insertion order.
    pub open spec fn views(self) -> Seq<Seq<char>> {
        Seq::new(self.lines@.len(), |i: int| self.lines@[i]@)
    }

    /// The mathematical content: the set of line texts.
    pub open spec fn content(self) -> Set<Seq<char>> {
        self.views().to_set()
    }

    pub open spec fn wf(self) -> bool {
        &&& forall|i: int| 0 <= i < self.lines@.len() ==> (#[trigger] self.lines@[i]@).len() >= 19
        &&& forall|i: int, j: int|
            0 <= i < j < self.lines@.len() ==> self.lines@[i]@ != self.lines@[j]@
    }

    pub fn new() -> (r: LogSet)
        ensures
            r.wf(),
            r.lines@.len() == 0,
            r.content() == Set::<Seq<char>>::empty(),
    {
        let r = LogSet { lines: Vec::new() };
        proof {
            assert(r.views() =~= Seq::<Seq<char>>::empty());
            r.views().lemma_cardinality_of_empty_set_is_0();
            assert(r.content() =~= Set::<Seq<char>>::empty());
        }
        r
    }

    pub fn len(&self) -> (r: usize)
        ensures
            r == self.lines@.len(),
    {
        self.lines.len()
    }

    /// In a well-formed set the number of stored lines is exactly the
    /// cardinality of the content: nothing is ever counted twice.
    pub proof fn lemma_len_is_cardinality(self)
        requires
            self.wf(),
        ensures
            self.content().len() == self.lines@.len(),
    {
        assert forall|i: int, j: int| 0 <= i < self.views().len() && 0 <= j < self.views().len()
            && i != j implies self.views()[i] != self.views()[j] by {
            if i < j {
                assert(self.lines@[i]@ != self.lines@[j]@);
            } else {
                assert(self.lines@[j]@ != self.lines@[i]@);
            }
        }
        self.views().unique_seq_to_set();
    }

    /// Adds one line, collapsing it with any already-present line of the
    /// same text: the content grows by at most that one element.
    pub fn insert(&mut self, line: String)
        requires
            old(self).wf(),
            line@.len() >= 19,
        ensures
            final(self).wf(),
            final(self).content() == old(self).content().insert(line@),
            old(self).content().contains(line@) ==> final(self).lines@ == old(self).lines@,
            !old(self).content().contains(line@) ==> final(self).lines@ == old(self).lines@.push(
                line,
            ),
    {
        let present = contains_line(&self.lines, line.as_str());
        proof {
            broadcast use vstd::seq_lib::group_seq_lib_default;

            assert(present == old(self).content().contains(line@)) by {
                if present {
                    let i = choose|i: int|
                        0 <= i < old(self).lines@.len() && old(self).lines@[i]@ == line@;
                    assert(old(self).views()[i] == line@);
                    assert(old(self).views().contains(line@));
                } else {
                    if old(self).content().contains(line@) {
                        let i = choose|i: int|
                            0 <= i < old(self).views().len() && old(self).views()[i] == line@;
                        assert(old(self).lines@[i]@ == line@);
                    }
                }
            }
        }
        if present {
            proof {
                assert(final(self).content() =~= old(self).content().insert(line@));
            }
        } else {
            self.lines.push(line);
            proof {
                assert(self.views() =~= old(self).views() + seq![line@]);
                Seq::lemma_to_set_insert_commutes(old(self).views(), line@);
                assert(self.content() =~= old(self).content().insert(line@));
            }
        }
    }

    /// Unions another collection into this one. Identical line texts from
    /// the two sources collapse to a single entry.
    pub fn extend_from(&mut self, other: &LogSet)
        requires
            old(self).wf(),
            other.wf(),
        ensures
            final(self).wf(),
            final(self).content() == old(self).content().union(other.content()),
    {
        let n = other.lines.len();
        let mut i: usize = 0;
        while i < n
            invariant
                n == other.lines@.len(),
                i <= n,
                other.wf(),
                self.wf(),
                self.content() == old(self).content().union(
                    other.views().take(i as int).to_set(),
                ),
            decreases n - i,
        {
            let line = other.lines[i].clone();
            assert(line@ == other.views()[i as int]);
            self.insert(line);
            proof {
                Seq::lemma_to_set_insert_commutes(
                    other.views().take(i as int),
                    other.views()[i as int],
                );
                assert(other.views().take(i + 1) =~= other.views().take(i as int) + seq![
                    other.views()[i as int],
                ]);
                assert(self.content() =~= old(self).content().union(
                    other.views().take(i + 1).to_set(),
                ));
            }
            i += 1;
        }
        proof {
            assert(other.views().take(n as int) =~= other.views());
        }
    }
}

/// Whether some stored line has exactly the given text.
fn contains_line(lines: &Vec<String>, line: &str) -> (r: bool)
    ensures
        r == exists|i: int| 0 <= i < lines@.len() && lines@[i]@ == line@,
{
    let n = lines.len();
    let mut i: usize = 0;
    while i < n
        invariant
            n == lines@.len(),
            i <= n,
            forall|j: int| 0 <= j < i ==> lines@[j]@ != line@,
        decreases n - i,
    {
        if crate::strfmt::str_eq(lines[i].as_str(), line) {
            assert(lines@[i as int]@ == line@);
            return true;
        }
        i += 1;
    }
    false
}

/// However many lines are formatted, and from however many sources, the
/// deduplicated content can never outgrow the raw count.
pub proof fn lemma_dedup_bound(lines: Seq<Seq<char>>)
    ensures
        lines.to_set().len() <= lines.len(),
{
    lines.lemma_cardinality_of_set();
}

/// Uniting the harvests of two sources can never outgrow their combined
/// counts: lines the sources share collapse to one entry, whichever
/// (repository, branch, author) combination produced them.
pub proof fn lemma_union_dedup_bound(a: LogSet, b: LogSet)
    ensures
        a.content().union(b.content()).len() <= a.lines@.len() + b.lines@.len(),
{
    broadcast use vstd::seq_lib::seq_to_set_is_finite;

    vstd::set_lib::lemma_len_union::<Seq<char>>(a.content(), b.content());
    a.views().lemma_cardinality_of_set();
    b.views().lemma_cardinality_of_set();
}

} // verus!
