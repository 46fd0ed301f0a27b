use subsurface_engine::excavate::ExcavateError;
use subsurface_engine::evidence::EvidenceError;
use subsurface_engine::grade::{format_overall_grade, Grade, LetterGrade};
use subsurface_engine::home::{home_workspace, merge_scan_roots, picker_projects, roster_row};
use subsurface_engine::notes::WorkspaceSiteRecord;
use subsurface_engine::opportunity::{OpportunityState, TransitionError};
use subsurface_engine::provider::{
    initial_provider_settings, key_for_connection_test, key_to_save, preset_infos, provider_choice,
    ProviderChoice,
};
use subsurface_engine::report::{report_head, ReportError};
use subsurface_engine::site::{cheap_index_report, Site, SiteError};
use subsurface_engine::workspace::DiscoveredSiteInfo;

fn info(name: &str, path: &str) -> DiscoveredSiteInfo {
    DiscoveredSiteInfo {
        name: name.to_string(),
        path: path.to_string(),
        head_commit: Some("abc".to_string()),
        total_commits_estimate: 3,
        is_shallow: false,
        has_remote: true,
        is_pinned: false,
        field_notes_count: 0,
        dead_workarounds_count: 0,
    }
}

fn record(path: &str, pinned: bool) -> WorkspaceSiteRecord {
    WorkspaceSiteRecord {
        site_path: path.to_string(),
        name: path.to_string(),
        is_pinned: pinned,
        last_opened: "2024-01-01T00:00:00Z".to_string(),
    }
}

#[test]
fn scan_roots_keep_defaults_and_add_new_custom_ones() {
    let roots = merge_scan_roots(
        vec!["/h/Work".to_string(), "/h/dev".to_string()],
        &vec!["/h/dev".to_string(), "/data".to_string(), "/data".to_string()],
    );
    assert_eq!(roots, vec!["/h/Work".to_string(), "/h/dev".to_string(), "/data".to_string()]);
}

#[test]
fn home_workspace_sorts_projects() {
    let records = vec![record("/a", true), record("/b", false)];
    let discovered = vec![info("a", "/a"), info("b", "/b"), info("c", "/c")];
    let home = home_workspace(&records, discovered, &vec![2, 0, 5], vec!["/root".to_string()]);
    assert_eq!(home.pinned_sites.len(), 1);
    assert_eq!(home.pinned_sites[0].path, "/a");
    assert!(home.pinned_sites[0].is_pinned);
    assert_eq!(home.pinned_sites[0].field_notes_count, 2);
    assert_eq!(home.recent_sites.len(), 2);
    assert_eq!(home.recent_sites[1].path, "/b");
    assert!(!home.recent_sites[1].is_pinned);
    assert_eq!(home.discovered_sites.len(), 1);
    assert_eq!(home.discovered_sites[0].path, "/c");
    assert_eq!(home.discovered_sites[0].field_notes_count, 5);
    assert_eq!(home.scan_roots, vec!["/root".to_string()]);

    let listed = picker_projects(&home);
    let paths: Vec<&str> = listed.iter().map(|d| d.path.as_str()).collect();
    assert_eq!(paths, vec!["/a", "/b", "/c"]);
}

#[test]
fn roster_rows_without_assessment() {
    let row = roster_row(&info("a", "/a"), None, None);
    assert_eq!(row.name, "a");
    assert_eq!(row.path, "/a");
    assert_eq!(row.quality_grade, "Incomplete");
    assert_eq!(row.last_assessment, "Never assessed");
    assert_eq!(row.in_flight_activity, "None");
    let busy = roster_row(&info("a", "/a"), None, Some("Assess Project".to_string()));
    assert_eq!(busy.in_flight_activity, "Assess Project");
}

#[test]
fn overall_grades_format() {
    assert_eq!(format_overall_grade(Grade::Incomplete), "Incomplete");
    assert_eq!(format_overall_grade(Grade::Letter(LetterGrade::APlus)), "A+");
    assert_eq!(format_overall_grade(Grade::Letter(LetterGrade::C)), "C");
    assert_eq!(format_overall_grade(Grade::Letter(LetterGrade::F)), "F");
}

#[test]
fn provider_choice_follows_offline_and_key() {
    assert_eq!(
        provider_choice(true, "key", "https://api.openai.com/v1"),
        ProviderChoice::Canned("Offline mode active: showing local git archaeology facts.".to_string())
    );
    assert_eq!(
        provider_choice(false, "", "https://api.openai.com/v1"),
        ProviderChoice::Canned(
            "No provider key configured in settings; showing git archaeology facts.".to_string()
        )
    );
    assert_eq!(provider_choice(false, "", "http://localhost:11434/v1"), ProviderChoice::Remote);
    assert_eq!(provider_choice(false, "", "http://127.0.0.1:8080"), ProviderChoice::Remote);
    assert_eq!(provider_choice(false, "k", "https://api.openai.com/v1"), ProviderChoice::Remote);
}

#[test]
fn keys_saved_and_tested() {
    assert_eq!(key_to_save(&Some("  sk-1  ".to_string())), Some("sk-1".to_string()));
    assert_eq!(key_to_save(&Some("   ".to_string())), None);
    assert_eq!(key_to_save(&None), None);
    assert_eq!(
        key_for_connection_test(Some(" typed ".to_string()), Some("stored".to_string())),
        " typed "
    );
    assert_eq!(key_for_connection_test(Some(" ".to_string()), Some("stored".to_string())), "stored");
    assert_eq!(key_for_connection_test(None, None), "");
}

#[test]
fn initial_settings_offer_every_preset() {
    let settings = initial_provider_settings(true);
    assert_eq!(settings.base_url, "https://api.openai.com/v1");
    assert_eq!(settings.model, "gpt-4o");
    assert!(settings.has_key);
    assert!(!settings.offline_mode);
    assert_eq!(settings.presets, preset_infos());
    assert_eq!(settings.presets.len(), 8);
    assert_eq!(settings.presets[6].name, "Ollama (Local)");
    assert_eq!(
        settings.presets[6].suggested_models,
        vec!["llama3.2".to_string(), "qwen2.5-coder".to_string(), "mistral".to_string()]
    );
}

#[test]
fn error_messages_read_as_sentences() {
    assert_eq!(
        SiteError::NotAGitRepository("/tmp/x".to_string()).message(),
        "Path is not a git repository: /tmp/x"
    );
    assert_eq!(SiteError::PathNotFound("/nope".to_string()).message(), "Path does not exist: /nope");
    assert_eq!(ReportError::NoHeadCommit.message(), "Project has no HEAD commit");
    assert_eq!(
        ExcavateError::from_evidence(&EvidenceError::Git("boom".to_string())).message(),
        "Evidence walk failed: Git execution failed: boom"
    );
    let t = TransitionError { from: OpportunityState::Detected, to: OpportunityState::Published };
    assert_eq!(t.message(), "invalid Opportunity transition from Detected to Published");
}

#[test]
fn reports_need_a_head_commit() {
    let mut site = Site {
        root_path: "/r".to_string(),
        is_shallow: false,
        has_remote: false,
        remotes: vec![],
        head_commit: None,
        total_commits_estimate: 0,
        tracked_files: vec![],
        index_report: cheap_index_report(),
    };
    assert_eq!(report_head(&site), Err(ReportError::NoHeadCommit));
    site.head_commit = Some("abc".to_string());
    assert_eq!(report_head(&site), Ok("abc".to_string()));
}
