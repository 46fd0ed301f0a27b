use subsurface_engine::budget::{rank_and_budget_evidence, BudgetConfig};
use subsurface_engine::evidence::{
    direct_evidence_from_log, evidence_with_co_commits, Evidence, LineRange,
};
use subsurface_engine::excavate::{budget_summary, select_code, what_when_from, why_unrecorded, Finding};
use subsurface_engine::notes::{cache_valid_for_head, cached_note_index, FieldNote};
use subsurface_engine::oauth::{OAuthClient, OAuthTokens};
use subsurface_engine::report::{estimate_site_report_cost, report_files};
use subsurface_engine::site::{Site, SiteError, SiteProbe};
use subsurface_engine::staleness::StalenessStatus;

/// What `git log -L 1,1:src/auth.rs` prints for a single commit that added
/// the file together with a test and a doc.
fn auth_commit_log(sha: &str) -> String {
    format!(
        "__SUB_COMMIT__{sha}\0Fixture\02024-01-01T00:00:00+00:00\0Add auth guard with tests and documentation\0\n\ndiff --git a/src/auth.rs b/src/auth.rs\nnew file mode 100644\n--- /dev/null\n+++ b/src/auth.rs\n@@ -0,0 +1,1 @@\n+pub fn verify() -> bool {{ true }}\n"
    )
}

#[test]
fn test_link_cocommitted_tests_and_docs() {
    let sha = "0123456789abcdef0123456789abcdef01234567";
    let direct = direct_evidence_from_log(&auth_commit_log(sha), "src/auth.rs");
    let show = "src/auth.rs\ntests/auth_test.rs\ndocs/auth.md\n".to_string();
    let evidence: Vec<Evidence> = evidence_with_co_commits(&direct, &vec![Some(show)], "src/auth.rs");

    let cocommitted_tests: Vec<_> = evidence.iter().filter(|e| e.is_heuristic && e.file_path.contains("tests/")).collect();
    let cocommitted_docs: Vec<_> = evidence.iter().filter(|e| e.is_heuristic && e.file_path.contains("docs/")).collect();

    assert!(!cocommitted_tests.is_empty(), "Should link test file as heuristic evidence");
    assert!(!cocommitted_docs.is_empty(), "Should link doc file as heuristic evidence");
    assert!(cocommitted_tests[0].heuristic_note.is_some());
    assert_eq!(cocommitted_tests[0].commit_sha, sha);
}

fn fixture_probe() -> SiteProbe {
    SiteProbe {
        exists: true,
        toplevel: Some("/tmp/fixture\n".to_string()),
        shallow: Some("false\n".to_string()),
        remotes: Some(String::new()),
        head: Some("0123456789abcdef0123456789abcdef01234567\n".to_string()),
        commit_count: Some("1\n".to_string()),
        tracked_files: Some("src/lib.rs\n".to_string()),
    }
}

#[test]
fn test_open_valid_site() {
    let site = Site::from_probe("/tmp/fixture", &fixture_probe()).expect("should open site");
    assert_eq!(site.total_commits_estimate, 1);
    assert!(!site.is_shallow);
    assert!(!site.has_remote);
    assert!(site.tracked_files.contains(&"src/lib.rs".to_string()));
    assert!(site.index_report.commit_graph_indexed);
    assert!(site.index_report.file_paths_indexed);
    assert!(!site.index_report.expensive_walks_indexed);
}

#[test]
fn opens_project_with_the_existing_cheap_index() {
    let project = Site::from_probe("/tmp/fixture", &fixture_probe()).expect("open project");
    assert_eq!(project.total_commits_estimate, 1);
    assert!(project.tracked_files.contains(&"src/lib.rs".to_string()));
    assert!(!project.index_report.expensive_walks_indexed);
}

#[test]
fn test_open_non_git_directory() {
    // `git rev-parse --show-toplevel` fails in a plain directory.
    let probe = SiteProbe {
        exists: true,
        toplevel: None,
        shallow: None,
        remotes: None,
        head: None,
        commit_count: None,
        tracked_files: None,
    };
    let result = Site::from_probe("/tmp/plain", &probe);
    assert!(matches!(result, Err(SiteError::NotAGitRepository(_))));
}

#[test]
fn test_site_report_filter_and_cost_estimation() {
    let site = Site {
        root_path: "/tmp/fixture".to_string(),
        is_shallow: false,
        has_remote: false,
        remotes: vec![],
        head_commit: Some("abc".to_string()),
        total_commits_estimate: 1,
        tracked_files: vec![
            "docs/readme.md".to_string(),
            "src/core/a.rs".to_string(),
            "src/extra/b.rs".to_string(),
        ],
        index_report: subsurface_engine::site::cheap_index_report(),
    };
    let estimate = estimate_site_report_cost(&site, Some("src/core/"));
    assert_eq!(estimate.file_count, 1);
    assert!(estimate.estimated_duration_millis as f64 / 1000.0 >= 0.0);
    assert_eq!(estimate.estimated_duration_millis, 150);
    assert_eq!(estimate.estimated_token_cost, 600);

    let files = report_files(&site.tracked_files, Some("src/core/"));
    assert!(files.iter().all(|f| f.starts_with("src/core/")));
    assert_eq!(files, vec!["src/core/a.rs".to_string()]);
}

#[test]
fn test_oauth_token_management_and_refresh() {
    let mut tokens = OAuthTokens {
        access_token: "old_access_token".to_string(),
        refresh_token: Some("valid_refresh_token".to_string()),
        expires_at_timestamp: 0,
        token_type: "Bearer".to_string(),
    };
    assert!(tokens.is_expired());
    let _client = OAuthClient::new(
        "client_id_123",
        "https://auth.example.com/oauth/authorize",
        "https://auth.example.com/oauth/token",
    );
    tokens.access_token = "new_access_token".to_string();
    tokens.expires_at_timestamp = i64::MAX;
    assert!(!tokens.is_expired());
    assert_eq!(tokens.access_token, "new_access_token");
}

#[test]
fn test_finding_cache_invalidation_on_touching_commit() {
    let (c1, c2, c3) = ("c1c1c1", "c2c2c2", "c3c3c3");
    // Cached at c1 and read at c1.
    assert!(cache_valid_for_head(c1, c1, None));
    // c2 changed only src/b.rs: `git diff --name-only c1 c2 -- src/a.rs` prints nothing.
    assert!(cache_valid_for_head(c1, c2, Some("")));
    // c3 changed src/a.rs.
    assert!(!cache_valid_for_head(c1, c3, Some("src/a.rs\n")));
}

fn finding_for(file_path: &str, range: LineRange) -> Finding {
    let (summary, included) = budget_summary(rank_and_budget_evidence(&[], &BudgetConfig::default_budget()));
    Finding {
        site_path: "/tmp/fixture".to_string(),
        file_path: file_path.to_string(),
        line_range: range,
        current_code: select_code("fn main() { println!(\"hi\"); }\n", range),
        what_when: what_when_from(&included),
        why: why_unrecorded(),
        budget_summary: summary,
        staleness: StalenessStatus::Active,
    }
}

#[test]
fn test_mcp_returns_existing_field_note_if_saved() {
    let range = LineRange { start: 1, end: 1 };
    let note = FieldNote {
        id: "note-1".to_string(),
        site_path: "/tmp/fixture".to_string(),
        file_path: "src/main.rs".to_string(),
        line_range: range,
        commit_sha: String::new(),
        created_at: "2024-01-01T00:00:00Z".to_string(),
        updated_at: "2024-01-01T00:00:00Z".to_string(),
        user_notes: "Developer custom note".to_string(),
        finding: finding_for("src/main.rs", range),
    };
    let notes = vec![note];
    let found = cached_note_index(&notes, "src/main.rs", range).expect("saved note answers the call");
    assert_eq!(notes[found].finding.file_path, "src/main.rs");
    assert_eq!(notes[found].finding.current_code, "fn main() { println!(\"hi\"); }");
    assert_eq!(cached_note_index(&notes, "src/main.rs", LineRange { start: 1, end: 2 }), None);
}
