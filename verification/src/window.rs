//! The time-window and identity filter: decides which commits of a branch
//! traversal belong in the digest.

use vstd::prelude::*;

verus! {

/// A commit record as read from the version-control backend: author name
/// (absent when the backend has none), unix timestamp in seconds, the
/// one-line summary (absent when none can be extracted), and the number of
/// parent commits.
pub struct CommitRef {
    pub author: Option<String>,
    pub timestamp: i64,
    pub summary: Option<String>,
    pub parent_count: usize,
}

/// The `(since, until)` time range bounding which commits count as recent
/// work. Well-formed only when `since < until`; both bounds are exclusive.
pub struct TimeWindow {
    pub since: i64,
    pub until: i64,
}

impl TimeWindow {
    pub open spec fn wf(self) -> bool {
        self.since < self.until
    }

    /// Builds a window from raw bounds; `None` exactly when the bounds are
    /// not in strict order.
    pub fn new(since: i64, until: i64) -> (r: Option<TimeWindow>)
        ensures
            since < until <==> (r is Some),
            r is Some ==> r->0 == (TimeWindow { since, until }) && r->0.wf(),
    {
        if since < until {
            Some(TimeWindow { since, until })
        } else {
            None
        }
    }
}

/// Whether a commit survives the filter: its timestamp lies strictly inside
/// the window, its author name is present and exactly the requested one, and
/// it does not have exactly two parents (the ordinary merge-commit shape;
/// commits with zero, one, or three or more parents pass).
pub open spec fn spec_accepts(w: TimeWindow, c: CommitRef, author: Seq<char>) -> bool {
    &&& w.since < c.timestamp < w.until
    &&& c.author is Some
    &&& c.author->0@ == author
    &&& c.parent_count != 2
}

/// Evaluates the filter predicate on one commit.
pub fn accepts(w: &TimeWindow, c: &CommitRef, author: &str) -> (r: bool)
    ensures
        r == spec_accepts(*w, *c, author@),
{
    if !(w.since < c.timestamp && c.timestamp < w.until) {
        return false;
    }
    if c.parent_count == 2 {
        return false;
    }
    match &c.author {
        Some(name) => crate::strfmt::str_eq(name.as_str(), author),
        None => false,
    }
}

/// A commit whose timestamp equals either bound of the window is excluded:
/// both comparisons are strict.
pub proof fn lemma_window_bounds_excluded(w: TimeWindow, c: CommitRef, author: Seq<char>)
    requires
        c.timestamp == w.until || c.timestamp == w.since,
    ensures
        !spec_accepts(w, c, author),
{
}

/// A commit with exactly two parents is excluded whatever else holds; one
/// that meets every other condition and has zero, one, or three or more
/// parents is included.
pub proof fn lemma_merge_commit_rule(w: TimeWindow, c: CommitRef, author: Seq<char>)
    ensures
        c.parent_count == 2 ==> !spec_accepts(w, c, author),
        (w.since < c.timestamp < w.until && c.author is Some && c.author->0@ == author
            && c.parent_count != 2) ==> spec_accepts(w, c, author),
{
}

/// A commit authored by anyone but the requested identity, or with no author
/// name at all, is excluded regardless of its timestamp or parent count.
pub proof fn lemma_author_mismatch_excluded(w: TimeWindow, c: CommitRef, author: Seq<char>)
    requires
        c.author is None || c.author->0@ != author,
    ensures
        !spec_accepts(w, c, author),
{
}

} // verus!
