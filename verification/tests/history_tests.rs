use subsurface_engine::evidence::{
    co_committed_evidence, direct_evidence_from_log, evidence_with_co_commits, EvidenceError,
    EvidenceKind,
};
use subsurface_engine::github::{GitHubAuth, GitHubAuthMethod};
use subsurface_engine::mcp::{excavate_audit_entry, excavate_request, McpError, McpToolCall};
use subsurface_engine::oauth::OAuthTokens;
use subsurface_engine::site::{commit_count, Site, SiteError, SiteProbe};
use subsurface_engine::text::signed_decimal;

fn sample_log() -> String {
    let mut log = String::new();
    log.push_str("__SUB_COMMIT__abc1234567\0Ada\02024-01-02T03:04:05Z\0Guard against empty input\0Closes #12\n");
    log.push_str("diff --git a/src/lib.rs b/src/lib.rs\n--- a/src/lib.rs\n+++ b/src/lib.rs\n@@ -1,2 +1,3 @@\n+if input.is_empty() { return; }\n-old line\n context\n");
    log.push_str("__SUB_COMMIT__def7654321\0Grace\02023-12-01T00:00:00Z\0initial\0\n");
    log.push_str("diff --git a/src/lib.rs b/src/lib.rs\n@@ -0,0 +1 @@\n");
    log.push_str("__SUB_COMMIT__abc1234567\0Ada\02024-01-02T03:04:05Z\0Guard against empty input\0Closes #12\n");
    log.push_str("+repeated\n");
    log
}

#[test]
fn log_chunks_become_direct_evidence_once_per_commit() {
    let items = direct_evidence_from_log(&sample_log(), "src/lib.rs");
    assert_eq!(items.len(), 2);
    let first = &items[0];
    assert_eq!(first.commit_sha, "abc1234567");
    assert_eq!(first.author, "Ada");
    assert_eq!(first.timestamp, "2024-01-02T03:04:05Z");
    assert_eq!(first.message, "Guard against empty input\n\nCloses #12");
    assert_eq!(first.kind, EvidenceKind::DirectDiff);
    assert!(!first.is_heuristic);
    assert_eq!(first.heuristic_note, None);
    assert_eq!(first.file_path, "src/lib.rs");
    // "+++ b/..." and "--- a/..." start with '+' and '-' too, as in git's own output.
    assert_eq!(first.lines_touched, 4);
    let second = &items[1];
    assert_eq!(second.commit_sha, "def7654321");
    assert_eq!(second.message, "initial");
    // A diff with no added or removed line still counts one touched line.
    assert_eq!(second.lines_touched, 1);
}

#[test]
fn empty_log_gives_no_evidence() {
    assert!(direct_evidence_from_log("", "a.rs").is_empty());
    assert!(direct_evidence_from_log("__SUB_COMMIT__\n\n__SUB_COMMIT__   \n", "a.rs").is_empty());
}

#[test]
fn co_committed_tests_and_docs_are_heuristic() {
    let items = direct_evidence_from_log(&sample_log(), "src/lib.rs");
    let show = "src/lib.rs\ntests/lib_test.rs\nREADME.md\nsrc/other.rs\n\n";
    let co = co_committed_evidence(&items[0], show, "src/lib.rs");
    assert_eq!(co.len(), 2);
    assert_eq!(co[0].kind, EvidenceKind::CoCommittedTest);
    assert_eq!(co[0].file_path, "tests/lib_test.rs");
    assert_eq!(co[0].lines_touched, 0);
    assert_eq!(co[0].diff, "");
    assert!(co[0].is_heuristic);
    assert_eq!(
        co[0].heuristic_note.as_deref(),
        Some("Co-committed test file `tests/lib_test.rs`; heuristic linkage, not verified coverage")
    );
    assert_eq!(co[0].commit_sha, "abc1234567");
    assert_eq!(co[1].kind, EvidenceKind::CoCommittedDoc);
    assert_eq!(
        co[1].heuristic_note.as_deref(),
        Some("Co-committed doc file `README.md`; heuristic linkage, not verified coverage")
    );
}

#[test]
fn direct_items_are_followed_by_their_co_commits() {
    let items = direct_evidence_from_log(&sample_log(), "src/lib.rs");
    let shows = vec![Some("docs/guide.md\n".to_string()), None];
    let all = evidence_with_co_commits(&items, &shows, "src/lib.rs");
    assert_eq!(all.len(), 3);
    assert_eq!(all[0].commit_sha, "abc1234567");
    assert_eq!(all[1].kind, EvidenceKind::CoCommittedDoc);
    assert_eq!(all[1].file_path, "docs/guide.md");
    assert_eq!(all[2].commit_sha, "def7654321");
}

#[test]
fn evidence_error_reads_as_git_failure() {
    let e = EvidenceError::Git("Failed to spawn git process".to_string());
    assert_eq!(e.message(), "Git execution failed: Failed to spawn git process");
}

fn full_probe() -> SiteProbe {
    SiteProbe {
        exists: true,
        toplevel: Some("/work/repo\n".to_string()),
        shallow: Some("false\n".to_string()),
        remotes: Some("origin\n\n  upstream  \n".to_string()),
        head: Some("0123456789abcdef\n".to_string()),
        commit_count: Some("42\n".to_string()),
        tracked_files: Some("src/lib.rs\nREADME.md\n".to_string()),
    }
}

#[test]
fn site_from_probe_reads_every_output() {
    let site = Site::from_probe("/work/repo/src", &full_probe()).unwrap();
    assert_eq!(site.root_path, "/work/repo");
    assert!(!site.is_shallow);
    assert!(site.has_remote);
    assert_eq!(site.remotes, vec!["origin".to_string(), "upstream".to_string()]);
    assert_eq!(site.head_commit.as_deref(), Some("0123456789abcdef"));
    assert_eq!(site.total_commits_estimate, 42);
    assert_eq!(site.tracked_files, vec!["src/lib.rs".to_string(), "README.md".to_string()]);
    assert!(site.index_report.commit_graph_indexed);
    assert!(site.index_report.file_paths_indexed);
    assert!(site.index_report.rename_links_indexed);
    assert!(!site.index_report.expensive_walks_indexed);
}

#[test]
fn site_from_probe_without_outputs_uses_defaults() {
    let probe = SiteProbe {
        exists: true,
        toplevel: Some("/r".to_string()),
        shallow: Some("true".to_string()),
        remotes: None,
        head: None,
        commit_count: None,
        tracked_files: None,
    };
    let site = Site::from_probe("/r", &probe).unwrap();
    assert!(site.is_shallow);
    assert!(!site.has_remote);
    assert!(site.remotes.is_empty());
    assert_eq!(site.head_commit, None);
    assert_eq!(site.total_commits_estimate, 0);
    assert!(site.tracked_files.is_empty());
}

#[test]
fn site_from_probe_errors() {
    let mut probe = full_probe();
    probe.exists = false;
    assert_eq!(
        Site::from_probe("/missing", &probe),
        Err(SiteError::PathNotFound("/missing".to_string()))
    );
    let mut probe = full_probe();
    probe.toplevel = None;
    assert_eq!(
        Site::from_probe("/tmp/plain", &probe),
        Err(SiteError::NotAGitRepository("/tmp/plain".to_string()))
    );
}

#[test]
fn commit_counts_parse_like_usize() {
    assert_eq!(commit_count("42\n"), 42);
    assert_eq!(commit_count("  +7 "), 7);
    assert_eq!(commit_count("abc"), 0);
    assert_eq!(commit_count(""), 0);
    assert_eq!(commit_count("-3"), 0);
    assert_eq!(commit_count("999999999999999999999999"), 0);
}

#[test]
fn tokens_read_redacted() {
    let tokens = OAuthTokens {
        access_token: "secret-access".to_string(),
        refresh_token: Some("secret-refresh".to_string()),
        expires_at_timestamp: -5,
        token_type: "Bearer".to_string(),
    };
    let text = tokens.redacted();
    assert_eq!(
        text,
        "OAuthTokens { access_token: \"[redacted]\", refresh_token: Some(\"[redacted]\"), expires_at_timestamp: -5, token_type: \"Bearer\" }"
    );
    assert!(!text.contains("secret"));
    let no_refresh = OAuthTokens {
        access_token: "x".to_string(),
        refresh_token: None,
        expires_at_timestamp: 1700000000,
        token_type: "Bearer".to_string(),
    };
    assert!(no_refresh.redacted().contains("refresh_token: None, expires_at_timestamp: 1700000000"));
}

#[test]
fn github_auth_reads_redacted() {
    let auth = GitHubAuth {
        method: GitHubAuthMethod::Browser,
        token: "ghp_secret".to_string(),
        attempted: vec![GitHubAuthMethod::GhCli, GitHubAuthMethod::Browser],
    };
    assert_eq!(
        auth.redacted(),
        "GitHubAuth { method: Browser, token: \"[redacted]\", attempted: [GhCli, Browser] }"
    );
}

#[test]
fn signed_decimals() {
    assert_eq!(signed_decimal(0), "0");
    assert_eq!(signed_decimal(-120), "-120");
    assert_eq!(signed_decimal(i64::MIN), i64::MIN.to_string());
    assert_eq!(signed_decimal(i64::MAX), i64::MAX.to_string());
}

#[test]
fn excavate_calls_are_audited_and_others_refused() {
    let call = McpToolCall::Excavate {
        project_path: "/p".to_string(),
        file_path: "src/a.rs".to_string(),
        start_line: 3,
        end_line: 9,
    };
    let (project, file, range) = excavate_request(&call).unwrap();
    assert_eq!(project, "/p");
    assert_eq!(file, "src/a.rs");
    assert_eq!((range.start, range.end), (3, 9));
    let entry = excavate_audit_entry("2024-01-01T00:00:00Z".to_string(), &file, 3, 9);
    assert_eq!(entry.tool_name, "excavate");
    assert_eq!(entry.query_summary, "src/a.rs:3-9");
    match excavate_request(&McpToolCall::GetFieldNote { id: "n".to_string() }) {
        Err(McpError::Excavate(m)) => assert_eq!(m, "Unsupported tool call in excavate handler"),
        other => panic!("unexpected {:?}", other.is_ok()),
    }
}
