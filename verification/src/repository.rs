//! The commit source and the harvesting pipeline: opens a repository,
//! resolves a branch locally then remotely, walks its history in
//! time-descending order, filters each commit through the window and
//! identity predicate, and collects the formatted survivors. All access to
//! the git backend goes through trusted wrappers around the git2 crate.

use vstd::prelude::*;
use crate::logset::LogSet;
use crate::window::{CommitRef, TimeWindow};

verus! {

#[verifier::external_type_specification]
#[verifier::external_body]
pub struct ExRepository(git2::Repository);

#[verifier::external_type_specification]
#[verifier::external_body]
pub struct ExOid(git2::Oid);

#[verifier::external_type_specification]
#[verifier::external_body]
pub struct ExGitError(git2::Error);

#[verifier::external_type_specification]
#[verifier::external_body]
pub struct ExBranch<'a>(git2::Branch<'a>);

#[verifier::external_type_specification]
#[verifier::external_body]
pub struct ExRevwalk<'a>(git2::Revwalk<'a>);

#[verifier::external_type_specification]
#[verifier::external_body]
pub struct ExCommit<'a>(git2::Commit<'a>);

/// Why a (repository, branch) pair yields no digest at all. Each is fatal
/// for the whole run: continuing would silently hand back an incomplete
/// digest.
#[derive(Clone, Copy, Debug, PartialEq, Eq, Structural)]
pub enum HarvestError {
    /// The configured location is not an openable repository.
    RepositoryOpenError,
    /// Neither a local nor a remote branch of the requested name resolves
    /// to a commit.
    BranchNotFoundError,
    /// The target date has no 23:59:59 in the local zone, or the computed
    /// bounds are not in strict order.
    InvalidWindowError,
}

/// Relies on git2's `Repository::open`: read-only access to the repository
/// at a path, `Err` when there is none.
#[verifier::external_body]
fn repo_open(path: &str) -> (r: Result<git2::Repository, git2::Error>) {
    git2::Repository::open(path)
}

/// Relies on git2's `Repository::find_branch`, looking the name up among
/// local or among remote branches.
#[verifier::external_body]
fn find_branch<'r>(repo: &'r git2::Repository, name: &str, remote: bool) -> (r: Result<
    git2::Branch<'r>,
    git2::Error,
>) {
    let kind = if remote {
        git2::BranchType::Remote
    } else {
        git2::BranchType::Local
    };
    repo.find_branch(name, kind)
}

/// Relies on git2's `Branch::get` and `Reference::target`: the commit id
/// the branch points at, `None` when the reference is not direct.
#[verifier::external_body]
fn branch_target(branch: &git2::Branch) -> (r: Option<git2::Oid>) {
    branch.get().target()
}

/// Relies on git2's `Repository::revwalk`: a fresh, empty history walk.
#[verifier::external_body]
fn repo_revwalk<'r>(repo: &'r git2::Repository) -> (r: Result<git2::Revwalk<'r>, git2::Error>) {
    repo.revwalk()
}

/// Relies on git2's `Revwalk::push`: marks a commit and its ancestry to be
/// walked.
#[verifier::external_body]
fn revwalk_push(walk: &mut git2::Revwalk, oid: git2::Oid) -> (r: Result<(), git2::Error>) {
    walk.push(oid)
}

/// Relies on git2's `Revwalk::set_sorting` with `Sort::TIME`: the walk
/// yields commits in commit-time-descending order.
#[verifier::external_body]
fn revwalk_set_sorting_time(walk: &mut git2::Revwalk) -> (r: Result<(), git2::Error>) {
    walk.set_sorting(git2::Sort::TIME)
}

/// Relies on git2's `Iterator` implementation for `Revwalk`: the next
/// commit id of the walk, `None` when the walk is exhausted.
#[verifier::external_body]
fn revwalk_next(walk: &mut git2::Revwalk) -> (r: Option<Result<git2::Oid, git2::Error>>) {
    walk.next()
}

/// Relies on git2's `Repository::find_commit`.
#[verifier::external_body]
fn find_commit<'r>(repo: &'r git2::Repository, oid: git2::Oid) -> (r: Result<
    git2::Commit<'r>,
    git2::Error,
>) {
    repo.find_commit(oid)
}

/// Relies on git2's `Commit::author` and `Signature::name`: the author
/// name, `None` when the signature has none or it is not valid text.
#[verifier::external_body]
fn commit_author_name(c: &git2::Commit) -> (r: Option<String>) {
    c.author().name().ok().map(|s| s.to_string())
}

/// Relies on git2's `Commit::time` and `Time::seconds`: the commit time as
/// a unix timestamp in seconds.
#[verifier::external_body]
fn commit_time_seconds(c: &git2::Commit) -> (r: i64) {
    c.time().seconds()
}

/// Relies on git2's `Commit::summary`: the first line of the commit
/// message, `None` when there is none or it is not valid text.
#[verifier::external_body]
fn commit_summary(c: &git2::Commit) -> (r: Option<String>) {
    match c.summary() {
        Ok(Some(s)) => Some(s.to_string()),
        _ => None,
    }
}

/// Relies on git2's `Commit::parent_count`.
#[verifier::external_body]
fn commit_parent_count(c: &git2::Commit) -> (r: usize) {
    c.parent_count()
}

/// Reads the four plain fields the filter and formatter look at out of one
/// backend commit.
fn read_commit(c: &git2::Commit) -> CommitRef {
    CommitRef {
        author: commit_author_name(c),
        timestamp: commit_time_seconds(c),
        summary: commit_summary(c),
        parent_count: commit_parent_count(c),
    }
}

/// A harvested set holds nothing but canonical log lines.
pub open spec fn all_log_lines(s: LogSet) -> bool {
    forall|l: Seq<char>| s.content().contains(l) ==> crate::strfmt::is_log_line(l)
}

/// Resolves a branch name to the commit id at its tip, trying the local
/// branch first and the remote one second.
fn branch_tip(repo: &git2::Repository, branch_name: &str) -> (r: Result<
    git2::Oid,
    HarvestError,
>)
    ensures
        r is Err ==> r->Err_0 == HarvestError::BranchNotFoundError,
{
    let branch = match find_branch(repo, branch_name, false) {
        Ok(b) => b,
        Err(_) => match find_branch(repo, branch_name, true) {
            Ok(b) => b,
            Err(_) => {
                return Err(HarvestError::BranchNotFoundError);
            },
        },
    };
    match branch_target(&branch) {
        Some(oid) => Ok(oid),
        None => Err(HarvestError::BranchNotFoundError),
    }
}

/// Runs one already-read commit through the filter and, when it survives
/// and its summary and local stamp are available, adds its formatted line
/// to the set. Returns whether a line was added.
pub fn process_commit(set: &mut LogSet, w: &TimeWindow, author: &str, c: &CommitRef) -> (added:
    bool)
    requires
        old(set).wf(),
    ensures
        final(set).wf(),
        !added ==> *final(set) == *old(set),
        !crate::window::spec_accepts(*w, *c, author@) ==> !added,
        c.summary is None ==> !added,
        added ==> crate::window::spec_accepts(*w, *c, author@) && c.summary is Some,
        added ==> exists|l: Seq<char>|
            crate::strfmt::is_log_line_for(l, c.summary->0@) && final(set).content() == old(
                set,
            ).content().insert(l),
{
    if !crate::window::accepts(w, c, author) {
        return false;
    }
    let summary = match &c.summary {
        Some(s) => s,
        None => {
            return false;
        },
    };
    let (y, mo, d, h, mi) = match crate::localtime::local_stamp_of(c.timestamp) {
        Some(stamp) => stamp,
        None => {
            return false;
        },
    };
    let line = crate::strfmt::format_line(y, mo, d, h, mi, summary.as_str());
    set.insert(line);
    proof {
        assert(line@ == crate::strfmt::line_chars(
            y as int,
            mo as int,
            d as int,
            h as int,
            mi as int,
            summary@,
        ));
        assert(crate::strfmt::is_log_line_for(line@, summary@));
        assert(set.content() == old(set).content().insert(line@));
    }
    true
}

/// Harvests one (repository, branch, author) triple: resolves the window
/// for the target date, walks the branch history, and collects the
/// formatted lines of every commit the filter accepts, deduplicated. An
/// explicit month or day outside its calendar range is always refused.
pub fn build_log_vec(
    git_dir: &str,
    branch_name: &str,
    year: Option<i32>,
    month: Option<u32>,
    day: Option<u32>,
    author: &str,
) -> (r: Result<LogSet, HarvestError>)
    ensures
        r is Ok ==> r->Ok_0.wf() && all_log_lines(r->Ok_0),
        r is Ok ==> (month is Some ==> 1 <= month->0 <= 12) && (day is Some ==> 1 <= day->0
            <= 31),
        ((month is Some && !(1 <= month->0 <= 12)) || (day is Some && !(1 <= day->0 <= 31)))
            ==> r == Err::<LogSet, HarvestError>(HarvestError::InvalidWindowError),
{
    let (y, mo, d) = crate::localtime::resolve_date(year, month, day);
    let w = match crate::localtime::window_for_date(y, mo, d) {
        Some(w) => w,
        None => {
            return Err(HarvestError::InvalidWindowError);
        },
    };
    let repo = match repo_open(git_dir) {
        Ok(r) => r,
        Err(_) => {
            return Err(HarvestError::RepositoryOpenError);
        },
    };
    let tip = match branch_tip(&repo, branch_name) {
        Ok(oid) => oid,
        Err(e) => {
            return Err(e);
        },
    };
    let mut walk = match repo_revwalk(&repo) {
        Ok(wk) => wk,
        Err(_) => {
            return Err(HarvestError::RepositoryOpenError);
        },
    };
    if revwalk_push(&mut walk, tip).is_err() {
        return Err(HarvestError::BranchNotFoundError);
    }
    if revwalk_set_sorting_time(&mut walk).is_err() {
        return Err(HarvestError::RepositoryOpenError);
    }
    let mut set = LogSet::new();
    let mut fuel: u64 = u64::MAX;
    while fuel > 0
        invariant
            set.wf(),
            all_log_lines(set),
        decreases fuel,
    {
        fuel = fuel - 1;
        match revwalk_next(&mut walk) {
            None => {
                break;
            },
            Some(Err(_)) => {},
            Some(Ok(oid)) => {
                match find_commit(&repo, oid) {
                    Err(_) => {},
                    Ok(c) => {
                        let cr = read_commit(&c);
                        let ghost pre = set;
                        let added = process_commit(&mut set, &w, author, &cr);
                        proof {
                            if added {
                                let l = choose|l: Seq<char>|
                                    crate::strfmt::is_log_line_for(l, cr.summary->0@)
                                        && set.content() == pre.content().insert(l);
                                assert(crate::strfmt::is_log_line(l));
                                assert forall|m: Seq<char>| set.content().contains(m)
                                    implies crate::strfmt::is_log_line(m) by {
                                    if m != l {
                                        assert(pre.content().contains(m));
                                    }
                                }
                            }
                        }
                    },
                }
            },
        }
    }
    Ok(set)
}

/// Unions the harvest of every configured (repository, branch, author)
/// combination, in configuration order, into one deduplicated set. The
/// first fatal error aborts the whole run, as the original does; with any
/// configuration list empty there is nothing to walk, and the harvest is
/// the empty set.
pub fn harvest_all(
    repos: &Vec<String>,
    branches: &Vec<String>,
    authors: &Vec<String>,
    year: Option<i32>,
    month: Option<u32>,
    day: Option<u32>,
) -> (r: Result<LogSet, HarvestError>)
    ensures
        r is Ok ==> r->Ok_0.wf() && all_log_lines(r->Ok_0),
        (repos@.len() == 0 || branches@.len() == 0 || authors@.len() == 0) ==> r is Ok
            && r->Ok_0.lines@.len() == 0,
{
    let mut logs = LogSet::new();
    let mut i: usize = 0;
    while i < repos.len()
        invariant
            logs.wf(),
            all_log_lines(logs),
            (repos@.len() == 0 || branches@.len() == 0 || authors@.len() == 0) ==> logs.lines@.len()
                == 0,
        decreases repos@.len() - i,
    {
        let mut j: usize = 0;
        while j < branches.len()
            invariant
                logs.wf(),
                all_log_lines(logs),
                i < repos@.len(),
                (repos@.len() == 0 || branches@.len() == 0 || authors@.len() == 0) ==> logs.lines@.len()
                == 0,
            decreases branches@.len() - j,
        {
            let mut k: usize = 0;
            while k < authors.len()
                invariant
                    logs.wf(),
                    all_log_lines(logs),
                    i < repos@.len(),
                    j < branches@.len(),
                    (repos@.len() == 0 || branches@.len() == 0 || authors@.len() == 0) ==> logs.lines@.len()
                == 0,
                decreases authors@.len() - k,
            {
                let triple = build_log_vec(
                    repos[i].as_str(),
                    branches[j].as_str(),
                    year,
                    month,
                    day,
                    authors[k].as_str(),
                );
                match triple {
                    Ok(set) => {
                        let ghost pre = logs;
                        logs.extend_from(&set);
                        proof {
                            assert forall|m: Seq<char>| logs.content().contains(m)
                                implies crate::strfmt::is_log_line(m) by {
                                assert(pre.content().contains(m) || set.content().contains(m));
                            }
                        }
                    },
                    Err(e) => {
                        return Err(e);
                    },
                }
                k += 1;
            }
            j += 1;
        }
        i += 1;
    }
    Ok(logs)
}

} // verus!
