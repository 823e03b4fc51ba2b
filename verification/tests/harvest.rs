use chrono::{Datelike, TimeZone};
use git2::{Repository, Signature, Time};
use log_auto_script_lib::logset::LogSet;
use log_auto_script_lib::order::log_distant;
use log_auto_script_lib::repository::{build_log_vec, process_commit, HarvestError};
use log_auto_script_lib::window::{CommitRef, TimeWindow};

const COMMIT_SECONDS: i64 = 1_700_000_000;

/// Creates (or reuses) a throwaway repository with one commit by alice at a
/// fixed time, and hands back its current branch name.
fn prepare_repository(path: &str) -> String {
    let repo = Repository::init(path).unwrap();
    let needs_commit = repo.head().is_err();
    if needs_commit {
        let sig = Signature::new("alice", "alice@example.com", &Time::new(COMMIT_SECONDS, 0))
            .unwrap();
        let tree_id = {
            let mut index = repo.index().unwrap();
            index.write_tree().unwrap()
        };
        let tree = repo.find_tree(tree_id).unwrap();
        repo.commit(Some("HEAD"), &sig, &sig, "rework the digest pipeline", &tree, &[])
            .unwrap();
    }
    let head = repo.head().unwrap();
    head.shorthand().unwrap().to_string()
}

fn local_date_of_commit() -> (i32, u32, u32) {
    let dt = chrono::Local.timestamp_opt(COMMIT_SECONDS, 0).unwrap();
    (dt.year(), dt.month(), dt.day())
}

#[test]
fn harvests_one_commit_from_a_real_repository() {
    let path = "/tmp/log_auto_script_lib_harvest_repo";
    let branch = prepare_repository(path);
    let (y, mo, d) = local_date_of_commit();
    let mut logs = build_log_vec(path, &branch, Some(y), Some(mo), Some(d), "alice").unwrap();
    assert_eq!(logs.len(), 1);
    let digest = log_distant(&mut logs);
    assert!(digest[0].starts_with('['));
    assert_eq!(&digest[0][17..19], "] ");
    assert!(digest[0].ends_with("rework the digest pipeline"));
}

#[test]
fn foreign_author_harvests_nothing_from_a_real_repository() {
    let path = "/tmp/log_auto_script_lib_foreign_repo";
    let branch = prepare_repository(path);
    let (y, mo, d) = local_date_of_commit();
    let logs = build_log_vec(path, &branch, Some(y), Some(mo), Some(d), "bob").unwrap();
    assert_eq!(logs.len(), 0);
}

#[test]
fn missing_branch_is_a_fatal_error() {
    let path = "/tmp/log_auto_script_lib_branch_repo";
    prepare_repository(path);
    let (y, mo, d) = local_date_of_commit();
    let err = build_log_vec(path, "no-such-branch", Some(y), Some(mo), Some(d), "alice")
        .unwrap_err();
    assert_eq!(err, HarvestError::BranchNotFoundError);
}

#[test]
fn process_commit_adds_only_accepted_commits() {
    let w = TimeWindow::new(COMMIT_SECONDS - 100, COMMIT_SECONDS + 100).unwrap();
    let accepted = CommitRef {
        author: Some("alice".to_string()),
        timestamp: COMMIT_SECONDS,
        summary: Some("did something useful".to_string()),
        parent_count: 1,
    };
    let mut set = LogSet::new();
    assert!(process_commit(&mut set, &w, "alice", &accepted));
    assert_eq!(set.len(), 1);

    let merge = CommitRef { parent_count: 2, ..accepted };
    assert!(!process_commit(&mut set, &w, "alice", &merge));
    assert_eq!(set.len(), 1);

    let digest = log_distant(&mut set);
    assert!(digest[0].starts_with('['));
    assert_eq!(&digest[0][17..19], "] ");
    assert!(digest[0].ends_with("did something useful"));
}

#[test]
fn summaryless_commit_is_skipped_not_fatal() {
    let w = TimeWindow::new(COMMIT_SECONDS - 100, COMMIT_SECONDS + 100).unwrap();
    let anonymous_change = CommitRef {
        author: Some("alice".to_string()),
        timestamp: COMMIT_SECONDS,
        summary: None,
        parent_count: 1,
    };
    let mut set = LogSet::new();
    assert!(!process_commit(&mut set, &w, "alice", &anonymous_change));
    assert_eq!(set.len(), 0);
}
