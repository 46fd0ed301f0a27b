use subsurface_engine::evidence::LineRange;
use subsurface_engine::excavate::TimelineEntry;
use subsurface_engine::mcp::{
    excavate_summary, record_audit, status_of, AgentAuditEntry, AUDIT_LOG_CAPACITY,
};
use subsurface_engine::notes::{cache_valid_for_head, pin_after_toggle, site_name};
use subsurface_engine::staleness::{referenced_issues, staleness_from_log, StalenessStatus};
use subsurface_engine::workspace::{is_ignored_directory, scan_roots_under};

fn entry(sha: &str, message: &str) -> TimelineEntry {
    TimelineEntry {
        commit_sha: sha.into(),
        author: "Ada".into(),
        timestamp: "2026-08-23T00:00:00Z".into(),
        message: message.into(),
        diff_hunk: String::new(),
    }
}

#[test]
fn test_staleness_flag_with_receipt() {
    let timeline = vec![entry(
        "1111111111111111111111111111111111111111",
        "Workaround for bug in libv1: retry limit increased (Issue #42)",
    )];
    let issues = referenced_issues(&timeline);
    assert_eq!(issues, vec![42]);
    let c2 = "2222222222222222222222222222222222222222";
    let log = format!(
        "{c2}\u{0}Closes #42: upgrade to libv2 which fixes connection resets\u{0}\n1111111111111111111111111111111111111111\u{0}Workaround for bug in libv1: retry limit increased (Issue #42)\u{0}\n"
    );
    match staleness_from_log(&issues, &log, "src/client.rs") {
        StalenessStatus::Stale { receipt } => {
            assert!(receipt.receipt_text.contains("#42") || receipt.receipt_text.contains("Closes"));
            assert_eq!(receipt.commit_sha, c2);
        }
        StalenessStatus::Active => panic!("Expected Stale with receipt for closed issue #42"),
    }
}

#[test]
fn test_staleness_no_flag_on_old_churny_todo_code() {
    let timeline = vec![entry(
        "3333333333333333333333333333333333333333",
        "TODO: this is an old workaround, clean it up someday",
    )];
    let issues = referenced_issues(&timeline);
    let mut log = String::new();
    for i in 1..=10 {
        log.push_str(&format!("{i:040}\u{0}churn commit {i}\u{0}\n"));
    }
    assert_eq!(
        staleness_from_log(&issues, &log, "src/legacy.rs"),
        StalenessStatus::Active
    );
}

#[test]
fn audit_log_keeps_the_latest_fifty() {
    let mut log = Vec::new();
    for i in 0..60 {
        record_audit(
            &mut log,
            AgentAuditEntry {
                timestamp: format!("t{i}"),
                tool_name: "excavate".into(),
                query_summary: excavate_summary("src/lib.rs", i, i + 1),
            },
        );
    }
    assert_eq!(log.len(), AUDIT_LOG_CAPACITY);
    assert_eq!(log[0].timestamp, "t10");
    assert_eq!(log[49].query_summary, "src/lib.rs:59-60");
    let status = status_of(&log);
    assert!(status.is_running);
    assert_eq!(status.active_queries_count, 50);
}

#[test]
fn test_workspace_persistence_and_pinning() {
    assert!(pin_after_toggle(None));
    assert!(pin_after_toggle(Some(0)));
    assert!(!pin_after_toggle(Some(1)));
    assert_eq!(site_name("/home/u/my_cool_project"), "my_cool_project");
    assert_eq!(site_name("/"), "repo");
}

#[test]
fn cache_is_valid_only_when_the_file_did_not_change() {
    assert!(cache_valid_for_head("abc", "abc", None));
    assert!(cache_valid_for_head("abc", "def", Some("  \n")));
    assert!(!cache_valid_for_head("abc", "def", Some("src/a.rs\n")));
    assert!(!cache_valid_for_head("abc", "def", None));
    let range = LineRange { start: 1, end: 2 };
    assert_eq!(range.start, 1);
}

#[test]
fn scans_skip_heavy_and_hidden_directories() {
    for name in ["node_modules", "target", ".git", "Library", ".hidden"] {
        assert!(is_ignored_directory(name), "{name}");
    }
    assert!(!is_ignored_directory("project_alpha"));
    let roots = scan_roots_under("/home/u");
    assert_eq!(roots[0], "/home/u/Work");
    assert_eq!(roots[5], "/home/u/Documents");
}
