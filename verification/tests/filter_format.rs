use log_auto_script_lib::clients::{message_or_fallback, response_message, LLMResponse, Output, Usage};
use log_auto_script_lib::command::{AutoLoggerArgs, SubCommands};
use log_auto_script_lib::config::Profile;
use log_auto_script_lib::localtime::{get_date_string, resolve_date, today, window_for_date};
use log_auto_script_lib::repository::{build_log_vec, harvest_all, HarvestError};
use log_auto_script_lib::strfmt::{date_string_from, format_line, join_lines};
use log_auto_script_lib::window::{accepts, CommitRef, TimeWindow};

fn commit(author: &str, timestamp: i64, parent_count: usize) -> CommitRef {
    CommitRef {
        author: Some(author.to_string()),
        timestamp,
        summary: Some("a change".to_string()),
        parent_count,
    }
}

#[test]
fn window_bounds_are_strict() {
    let w = TimeWindow::new(1_000, 2_000).unwrap();
    assert!(!accepts(&w, &commit("alice", 2_000, 1), "alice"));
    assert!(!accepts(&w, &commit("alice", 1_000, 1), "alice"));
    assert!(accepts(&w, &commit("alice", 1_001, 1), "alice"));
    assert!(accepts(&w, &commit("alice", 1_999, 1), "alice"));
}

#[test]
fn exactly_two_parents_are_excluded() {
    let w = TimeWindow::new(1_000, 2_000).unwrap();
    assert!(accepts(&w, &commit("alice", 1_500, 0), "alice"));
    assert!(accepts(&w, &commit("alice", 1_500, 1), "alice"));
    assert!(!accepts(&w, &commit("alice", 1_500, 2), "alice"));
    assert!(accepts(&w, &commit("alice", 1_500, 3), "alice"));
    assert!(accepts(&w, &commit("alice", 1_500, 8), "alice"));
}

#[test]
fn foreign_or_missing_author_is_excluded() {
    let w = TimeWindow::new(1_000, 2_000).unwrap();
    assert!(!accepts(&w, &commit("bob", 1_500, 1), "alice"));
    assert!(!accepts(&w, &commit("alicia", 1_500, 1), "alice"));
    let anonymous = CommitRef {
        author: None,
        timestamp: 1_500,
        summary: Some("a change".to_string()),
        parent_count: 1,
    };
    assert!(!accepts(&w, &anonymous, "alice"));
}

#[test]
fn window_requires_strict_order() {
    assert!(TimeWindow::new(5, 5).is_none());
    assert!(TimeWindow::new(6, 5).is_none());
    let w = TimeWindow::new(5, 6).unwrap();
    assert_eq!(w.since, 5);
    assert_eq!(w.until, 6);
}

#[test]
fn log_line_has_the_fixed_format() {
    let line = format_line(2024, 1, 1, 10, 0, "fix bug");
    assert_eq!(line, "[2024-01-01 10:00] fix bug".to_string());
}

#[test]
fn log_line_zero_pads_every_field() {
    let line = format_line(987, 3, 7, 4, 5, "x");
    assert_eq!(line, "[0987-03-07 04:05] x".to_string());
}

#[test]
fn date_string_is_unpadded() {
    assert_eq!(date_string_from(2024, 1, 5), "2024-1-5".to_string());
    assert_eq!(date_string_from(2024, 11, 25), "2024-11-25".to_string());
}

#[test]
fn date_string_carries_a_negative_year() {
    assert_eq!(date_string_from(-44, 3, 15), "-44-3-15".to_string());
}

#[test]
fn explicit_date_string_ignores_the_clock() {
    let s = get_date_string(Some(2023), Some(7), Some(9));
    assert_eq!(s, "2023-7-9".to_string());
}

#[test]
fn resolve_date_keeps_explicit_fields() {
    let (y, mo, d) = resolve_date(Some(2022), Some(2), Some(28));
    assert_eq!((y, mo, d), (2022, 2, 28));
}

#[test]
fn resolve_date_defaults_to_today() {
    let (ty, tm, td) = today();
    assert!((1..=12).contains(&tm));
    assert!((1..=31).contains(&td));
    let (y, mo, d) = resolve_date(None, Some(6), None);
    assert_eq!(y, ty);
    assert_eq!(mo, 6);
    assert_eq!(d, td);
}

#[test]
fn window_for_a_real_date_is_ordered() {
    let w = window_for_date(2024, 1, 10).unwrap();
    assert!(w.since < w.until);
}

#[test]
fn window_for_an_impossible_date_is_refused() {
    assert!(window_for_date(2024, 2, 31).is_none());
    assert!(window_for_date(2024, 13, 1).is_none());
}

#[test]
fn join_lines_uses_semicolons() {
    assert_eq!(join_lines(&vec![]), "".to_string());
    assert_eq!(join_lines(&vec!["a".to_string()]), "a".to_string());
    let lines = vec!["first".to_string(), "second".to_string(), "third".to_string()];
    assert_eq!(join_lines(&lines), "first;second;third".to_string());
}

#[test]
fn unopenable_repository_is_a_fatal_error() {
    let err = build_log_vec(
        "/definitely/not/a/repository",
        "master",
        Some(2024),
        Some(1),
        Some(10),
        "alice",
    )
    .unwrap_err();
    assert_eq!(err, HarvestError::RepositoryOpenError);
}

#[test]
fn out_of_range_month_is_refused_before_any_repository() {
    let err = build_log_vec(
        "/definitely/not/a/repository",
        "master",
        Some(2024),
        Some(13),
        Some(1),
        "alice",
    )
    .unwrap_err();
    assert_eq!(err, HarvestError::InvalidWindowError);
}

#[test]
fn defaulted_date_string_keeps_the_explicit_fields() {
    let s = get_date_string(Some(2024), None, Some(5));
    assert!(s.starts_with("2024-"));
    assert!(s.ends_with("-5"));
    assert_eq!(s.matches('-').count(), 2);
}

#[test]
fn impossible_target_date_is_refused() {
    let err = build_log_vec(
        "/definitely/not/a/repository",
        "master",
        Some(2024),
        Some(2),
        Some(31),
        "alice",
    )
    .unwrap_err();
    assert_eq!(err, HarvestError::InvalidWindowError);
}

#[test]
fn first_fatal_error_aborts_the_whole_run() {
    let repos = vec!["/definitely/not/a/repository".to_string()];
    let branches = vec!["master".to_string()];
    let authors = vec!["alice".to_string()];
    let err = harvest_all(&repos, &branches, &authors, Some(2024), Some(1), Some(10)).unwrap_err();
    assert_eq!(err, HarvestError::RepositoryOpenError);
}

#[test]
fn no_configured_repositories_yield_an_empty_harvest() {
    let none: Vec<String> = vec![];
    let branches = vec!["master".to_string()];
    let authors = vec!["alice".to_string()];
    let logs = harvest_all(&none, &branches, &authors, Some(2024), Some(1), Some(10)).unwrap();
    assert_eq!(logs.len(), 0);
}

#[test]
fn reply_text_is_passed_through() {
    let reply = LLMResponse {
        output: Output { text: "完成了解析器修复".to_string(), finish_reason: "stop".to_string() },
        usage: Usage { total_tokens: 894, output_tokens: 37, input_tokens: 857 },
        request_id: "b95ef82b".to_string(),
    };
    assert_eq!(response_message(&reply), "完成了解析器修复".to_string());
    assert_eq!(message_or_fallback(Some(reply)), "完成了解析器修复".to_string());
}

#[test]
fn failed_call_yields_the_fixed_fallback() {
    assert_eq!(message_or_fallback(None), "请求失败".to_string());
}

#[test]
fn default_profile_holds_the_documented_placeholders() {
    let p = Profile::default_profile();
    assert_eq!(p.repo_path, vec!["/path/to/your/repo".to_string()]);
    assert_eq!(p.branches, vec!["master".to_string()]);
    assert_eq!(p.authors, vec!["your_name".to_string()]);
    assert_eq!(p.authorization, Some("Bearer your_token".to_string()));
}

#[test]
fn load_failure_falls_back_to_the_default_profile() {
    let p = Profile::error_handler("the file is not valid".to_string());
    assert_eq!(p.branches, vec!["master".to_string()]);
}

#[test]
fn config_subcommand_is_recognized() {
    let args = AutoLoggerArgs {
        author: None,
        year: None,
        month: None,
        day: None,
        command: Some(SubCommands::Config { default: true }),
    };
    assert_eq!(args.config_request(), Some(true));
    let plain = AutoLoggerArgs { author: None, year: None, month: None, day: None, command: None };
    assert_eq!(plain.config_request(), None);
}
