use phitodo::model::{TaskKind, TaskPriority, TaskSize, TaskStatus};
use phitodo::remote::{extract_repo_from_html_url, extract_repo_from_url, GitHubIssue,
    GitHubRepository, normalize_issue};
use phitodo::settings_view::mask_token;
use phitodo::strutil::{i64_string, pad2_string, str_contains, str_eq, str_split, u64_string};
use phitodo::toggl::{format_clock, format_hours, format_short, TogglData, TogglTimeEntry};
use phitodo::views::truncate;

#[test]
fn status_names_round_trip() {
    for s in [
        TaskStatus::Inbox,
        TaskStatus::Active,
        TaskStatus::Scheduled,
        TaskStatus::Completed,
        TaskStatus::Cancelled,
    ] {
        assert_eq!(TaskStatus::from_str(s.as_str()), s);
    }
    assert_eq!(TaskStatus::from_str("garbage"), TaskStatus::Inbox);
}

#[test]
fn priority_names_round_trip_and_rank() {
    for p in [TaskPriority::Unset, TaskPriority::Low, TaskPriority::Medium, TaskPriority::High] {
        assert_eq!(TaskPriority::from_str(p.as_str()), p);
    }
    assert_eq!(TaskPriority::Unset.as_str(), "none");
    assert_eq!(TaskPriority::from_str("?"), TaskPriority::Unset);
    assert_eq!(TaskPriority::High.symbol(), "!!!");
    assert_eq!(phitodo::model::priority_value(&TaskPriority::Medium), 2);
}

#[test]
fn kind_names_round_trip() {
    for k in [
        TaskKind::Task,
        TaskKind::Bug,
        TaskKind::Feature,
        TaskKind::Chore,
        TaskKind::GhIssue,
        TaskKind::GhPr,
        TaskKind::GhReview,
    ] {
        assert_eq!(TaskKind::from_str(k.as_str()), Some(k));
    }
    assert_eq!(TaskKind::from_str("nope"), None);
    assert_eq!(TaskKind::GhIssue.as_str(), "gh:issue");
    assert_eq!(TaskKind::GhPr.symbol(), "[PR]");
}

#[test]
fn size_names_round_trip() {
    for s in [TaskSize::Xs, TaskSize::S, TaskSize::M, TaskSize::L] {
        assert_eq!(TaskSize::from_str(s.as_str()), Some(s));
    }
    assert_eq!(TaskSize::from_str("xxl"), None);
    assert_eq!(TaskSize::Xs.display(), "XS");
}

#[test]
fn string_equality_and_search() {
    assert!(str_eq("abc", "abc"));
    assert!(!str_eq("abc", "abd"));
    assert!(!str_eq("abc", "ab"));
    assert!(str_contains("hello world", "lo wo"));
    assert!(str_contains("hello", ""));
    assert!(!str_contains("hello", "world"));
}

#[test]
fn splitting_on_slashes() {
    let parts = str_split("https://api.github.com/repos/owner/repo", '/');
    assert_eq!(
        parts,
        vec!["https:", "", "api.github.com", "repos", "owner", "repo"]
    );
    assert_eq!(str_split("", '/'), vec![""]);
    assert_eq!(str_split("a//b", '/'), vec!["a", "", "b"]);
}

#[test]
fn decimal_rendering() {
    assert_eq!(u64_string(0), "0");
    assert_eq!(u64_string(90510), "90510");
    assert_eq!(i64_string(-345), "-345");
    assert_eq!(i64_string(i64::MIN), "-9223372036854775808");
    assert_eq!(pad2_string(5), "05");
    assert_eq!(pad2_string(59), "59");
    assert_eq!(pad2_string(-5), "-5");
}

#[test]
fn repo_extraction_from_urls() {
    assert_eq!(
        extract_repo_from_url("https://api.github.com/repos/owner/repo"),
        Some("owner/repo".to_string())
    );
    assert_eq!(extract_repo_from_url("no-slashes"), None);
    assert_eq!(
        extract_repo_from_html_url("https://github.com/owner/repo/issues/123"),
        Some("owner/repo".to_string())
    );
    assert_eq!(extract_repo_from_html_url("https://example.com/owner/repo/issues/1"), None);
}

fn bare_issue(html_url: &str) -> GitHubIssue {
    GitHubIssue {
        id: 1,
        number: 1,
        title: "t".to_string(),
        html_url: html_url.to_string(),
        state: "open".to_string(),
        body: None,
        repository: None,
        repository_url: None,
        user: None,
        pull_request: false,
    }
}

#[test]
fn repo_name_resolution_order() {
    let mut a = bare_issue("https://github.com/o/r/issues/1");
    a.repository = Some(GitHubRepository { full_name: "explicit/name".to_string() });
    assert_eq!(a.repo_name(), "explicit/name");

    let mut b = bare_issue("https://github.com/o/r/issues/1");
    b.repository_url = Some("https://api.github.com/repos/api/side".to_string());
    assert_eq!(b.repo_name(), "api/side");

    let c = bare_issue("https://github.com/web/side/issues/1");
    assert_eq!(c.repo_name(), "web/side");

    let d = bare_issue("opaque");
    assert_eq!(d.repo_name(), "unknown");

    let normalized = normalize_issue(bare_issue("https://github.com/web/side/issues/1"));
    assert_eq!(normalized.repository.unwrap().full_name, "web/side");
}

#[test]
fn clock_and_short_formats() {
    assert_eq!(format_clock(0), "00:00:00");
    assert_eq!(format_clock(3661), "01:01:01");
    assert_eq!(format_clock(9000), "02:30:00");
    assert_eq!(format_short(9000), "2h 30m");
    assert_eq!(format_short(540), "9m");
    assert_eq!(format_hours(9000), "2.5h");
    assert_eq!(format_hours(0), "0.0h");
    assert_eq!(format_hours(5400), "1.5h");
    assert_eq!(format_hours(3599), "1.0h");
}

#[test]
fn fixed_duration_entry_formats_without_the_clock() {
    let e = TogglTimeEntry {
        id: 1,
        description: None,
        duration: 3725,
        start: "2024-01-02T10:00:00+00:00".to_string(),
        stop: None,
        project_id: None,
        project_name: None,
    };
    assert_eq!(e.duration_secs(), 3725);
    assert_eq!(e.format_duration(), "01:02:05");
    assert_eq!(e.format_duration_short(), "1h 2m");
}

#[test]
fn running_entry_measures_from_its_start() {
    let e = TogglTimeEntry {
        id: 1,
        description: None,
        duration: -1,
        start: "2024-01-02T10:00:00+00:00".to_string(),
        stop: None,
        project_id: None,
        project_name: None,
    };
    // 2024-01-02T10:00:00Z is 1704189600 unix seconds
    assert_eq!(e.duration_secs_at(1704189600 + 90), 90);
    let broken = TogglTimeEntry { start: "not a date".to_string(), ..e };
    assert_eq!(broken.duration_secs_at(1704189600), 0);
}

#[test]
fn per_project_totals_are_sorted_descending() {
    let entry = |dur: i64, pid: Option<i64>, name: Option<&str>| TogglTimeEntry {
        id: 0,
        description: None,
        duration: dur,
        start: "2024-01-02T10:00:00+00:00".to_string(),
        stop: None,
        project_id: pid,
        project_name: name.map(|s| s.to_string()),
    };
    let data = TogglData {
        entries: vec![
            entry(100, None, Some("alpha")),
            entry(500, Some(7), None),
            entry(50, None, None),
            entry(200, None, Some("alpha")),
        ],
        projects: vec![(7, "beta".to_string())],
    };
    let totals = data.duration_by_project_at(0);
    assert_eq!(
        totals,
        vec![
            ("beta".to_string(), 500),
            ("alpha".to_string(), 300),
            ("No Project".to_string(), 50),
        ]
    );
}

#[test]
fn token_masking() {
    assert_eq!(mask_token(None), "(not set)");
    assert_eq!(mask_token(Some("")), "(not set)");
    assert_eq!(mask_token(Some("short")), "*****");
    assert_eq!(mask_token(Some("abcdefghijkl")), "abcd...ijkl");
}

#[test]
fn truncation_keeps_short_strings() {
    assert_eq!(truncate("short", 40), "short");
    assert_eq!(truncate("a very long title indeed", 10), "a very ...");
}
