use log_auto_script_lib::clients::{no_commits_message, should_summarize};
use log_auto_script_lib::logset::LogSet;
use log_auto_script_lib::order::log_distant;
use log_auto_script_lib::strfmt::format_line;
use log_auto_script_lib::window::{accepts, CommitRef, TimeWindow};

fn commit(author: &str, timestamp: i64, summary: &str, parent_count: usize) -> CommitRef {
    CommitRef {
        author: Some(author.to_string()),
        timestamp,
        summary: Some(summary.to_string()),
        parent_count,
    }
}

#[test]
fn insert_deduplicates_identical_lines() {
    let mut set = LogSet::new();
    set.insert("[2024-01-01 10:00] fix the parser".to_string());
    set.insert("[2024-01-01 10:00] fix the parser".to_string());
    set.insert("[2024-01-01 11:00] add a test".to_string());
    assert_eq!(set.len(), 2);
}

#[test]
fn dedup_size_never_exceeds_raw_count() {
    let raw = vec![
        "[2024-01-01 10:00] first change",
        "[2024-01-01 11:00] second change",
        "[2024-01-01 10:00] first change",
        "[2024-01-01 12:00] third change",
        "[2024-01-01 11:00] second change",
    ];
    let mut set = LogSet::new();
    for line in &raw {
        set.insert(line.to_string());
    }
    assert!(set.len() <= raw.len());
    assert_eq!(set.len(), 3);
}

#[test]
fn digest_is_sorted_descending_by_stamp() {
    let mut set = LogSet::new();
    set.insert("[2024-01-01 10:00] middle entry".to_string());
    set.insert("[2024-01-02 09:00] newest entry".to_string());
    set.insert("[2023-12-31 23:59] oldest entry".to_string());
    set.insert("[2024-01-01 10:00] middle entry".to_string());
    let digest = log_distant(&mut set);
    assert_eq!(digest.len(), 3);
    for pair in digest.windows(2) {
        assert!(&pair[0][1..17] >= &pair[1][1..17]);
    }
    assert_eq!(digest[0], "[2024-01-02 09:00] newest entry");
    assert_eq!(digest[1], "[2024-01-01 10:00] middle entry");
    assert_eq!(digest[2], "[2023-12-31 23:59] oldest entry");
}

#[test]
fn scenario_only_requested_author_remains() {
    // Two commits, one per author, both inside the window and each with one
    // parent; only alice is asked for.
    let window = TimeWindow::new(1_000, 100_000).unwrap();
    let commits = vec![
        (commit("alice", 50_000, "summary", 1), (2024, 1, 1, 10, 0)),
        (commit("bob", 60_000, "summary", 1), (2024, 1, 1, 11, 0)),
    ];
    let mut set = LogSet::new();
    for (c, (y, mo, d, h, mi)) in &commits {
        if accepts(&window, c, "alice") {
            let line = format_line(*y, *mo, *d, *h, *mi, c.summary.as_ref().unwrap());
            set.insert(line);
        }
    }
    let digest = log_distant(&mut set);
    assert_eq!(digest, vec!["[2024-01-01 10:00] summary".to_string()]);
}

#[test]
fn scenario_empty_digest_skips_summarizer() {
    // No commit satisfies the filter: the digest stays empty, the remote
    // call is never owed, and the run reports the fixed message.
    let window = TimeWindow::new(1_000, 2_000).unwrap();
    let commits = vec![
        commit("alice", 500, "too old by far", 1),
        commit("alice", 3_000, "too new by far", 1),
        commit("bob", 1_500, "wrong author here", 1),
    ];
    let mut set = LogSet::new();
    for c in &commits {
        if accepts(&window, c, "alice") {
            let line = format_line(2024, 1, 1, 0, 0, c.summary.as_ref().unwrap());
            set.insert(line);
        }
    }
    let digest = log_distant(&mut set);
    assert!(digest.is_empty());
    assert!(!should_summarize(&digest));
    assert_eq!(no_commits_message(), "没有找到提交记录".to_string());
}

#[test]
fn scenario_identical_lines_from_two_repositories_collapse() {
    // Two distinct repositories yield a commit with the same author, stamp
    // and summary: the union holds exactly one corresponding line.
    let mut from_repo_one = LogSet::new();
    from_repo_one.insert("[2024-01-01 10:00] shared change".to_string());
    let mut from_repo_two = LogSet::new();
    from_repo_two.insert("[2024-01-01 10:00] shared change".to_string());

    let mut aggregate = LogSet::new();
    aggregate.extend_from(&from_repo_one);
    aggregate.extend_from(&from_repo_two);
    assert_eq!(aggregate.len(), 1);
    let digest = log_distant(&mut aggregate);
    assert_eq!(digest, vec!["[2024-01-01 10:00] shared change".to_string()]);
}

#[test]
fn union_keeps_distinct_lines_from_both_sources() {
    let mut a = LogSet::new();
    a.insert("[2024-01-01 10:00] only in first".to_string());
    a.insert("[2024-01-01 11:00] in both sets".to_string());
    let mut b = LogSet::new();
    b.insert("[2024-01-01 11:00] in both sets".to_string());
    b.insert("[2024-01-01 12:00] only in second".to_string());
    let mut aggregate = LogSet::new();
    aggregate.extend_from(&a);
    aggregate.extend_from(&b);
    assert_eq!(aggregate.len(), 3);
}

#[test]
fn digest_of_nonempty_set_invokes_summarizer() {
    let mut set = LogSet::new();
    set.insert("[2024-01-01 10:00] one real change".to_string());
    let digest = log_distant(&mut set);
    assert!(should_summarize(&digest));
}

#[test]
fn ties_on_the_same_minute_keep_insertion_order() {
    let mut set = LogSet::new();
    set.insert("[2024-01-01 10:00] first of the minute".to_string());
    set.insert("[2024-01-02 09:00] next day entry".to_string());
    set.insert("[2024-01-01 10:00] second of the minute".to_string());
    let digest = log_distant(&mut set);
    assert_eq!(
        digest,
        vec![
            "[2024-01-02 09:00] next day entry".to_string(),
            "[2024-01-01 10:00] first of the minute".to_string(),
            "[2024-01-01 10:00] second of the minute".to_string(),
        ]
    );
}

#[test]
fn resort_is_deterministic_across_calls() {
    let mut set = LogSet::new();
    set.insert("[2024-01-01 10:00] one of three ties".to_string());
    set.insert("[2024-01-01 10:00] two of three ties".to_string());
    set.insert("[2024-01-01 10:00] three of three ties".to_string());
    let first = log_distant(&mut set);
    let second = log_distant(&mut set);
    assert_eq!(first, second);
}
