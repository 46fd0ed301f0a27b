use subsurface_engine::assessment::{
    ActivityKind, ActivityPreview, AssessmentPreview, AssessmentRun, AssessmentRunStatus,
    ProjectAssessment,
};
use subsurface_engine::grade::{
    CorrectnessMetrics, MaintainabilityMetrics, Measurement, QualityDimension, QualityMeasurements,
    SecurityFindings,
};
use subsurface_engine::budget::{rank_and_budget_evidence, BudgetConfig};
use subsurface_engine::evidence::LineRange;
use subsurface_engine::excavate::{budget_summary, select_code, what_when_from, why_unrecorded, Finding};
use subsurface_engine::report::{SiteReport, SiteReportCategory, SiteReportEntry};
use subsurface_engine::staleness::StalenessStatus;
use subsurface_engine::opportunity::{
    detect_dead_workaround, opportunities_from_report, detect_missing_rationale, detect_test_gap, model_proposed_opportunity,
    order_opportunities, Effort, Impact, ImprovementReceipt, Opportunity, OpportunityCategory,
    OpportunityRank, OpportunityState, ReceiptSource, Verification,
};
use subsurface_engine::site::{cheap_index_report, Site};

fn opportunity(id: &str, impact: Impact) -> Opportunity {
    Opportunity::detected(
        id,
        "finding-1",
        "src/lib.rs",
        OpportunityCategory::MissingRationale,
        rank(impact),
        "2026-08-23T00:00:00Z",
        receipt(ReceiptSource::Tooling, "detected from git history"),
    )
}

fn rank(impact: Impact) -> OpportunityRank {
    OpportunityRank {
        impact,
        verification: Verification::NotRun,
        expected_grade_improvement: 3,
        effort: Effort::Medium,
        age_days: 2,
    }
}

fn receipt(source: ReceiptSource, summary: &str) -> ImprovementReceipt {
    ImprovementReceipt::new(source, summary, "test-receipt")
}

fn measurements(score: u8) -> QualityMeasurements {
    QualityMeasurements {
        correctness: Some(Measurement::new(
            CorrectnessMetrics {
                build_passed: true,
                locked_tests_passed: true,
            },
            "build and locked tests passed",
        )),
        test_protection: Some(Measurement::new(score as u32 * 100, "coverage")),
        security: Some(Measurement::new(
            SecurityFindings {
                blocker: 0,
                critical: 0,
                high: 0,
                medium: 0,
                low: 0,
            },
            "security scan",
        )),
        maintainability: Some(Measurement::new(
            MaintainabilityMetrics {
                maintainability_index: score as u32 * 100,
                max_changed_function_complexity: if score >= 95 { 5 } else { 15 },
            },
            "maintainability metrics",
        )),
        simplicity: Some(Measurement::new(score, "simplicity checks")),
        evidence_fit: Some(Measurement::new(score, "Evidence fit")),
    }
}

fn project_at(head: Option<&str>) -> Site {
    Site {
        root_path: "/tmp/assessed-project".to_string(),
        is_shallow: false,
        has_remote: false,
        remotes: vec![],
        head_commit: head.map(str::to_string),
        total_commits_estimate: 2,
        tracked_files: vec!["src/lib.rs".to_string()],
        index_report: cheap_index_report(),
    }
}

#[test]
fn opportunity_lifecycle_transitions() {
    let mut lifecycle = opportunity("lifecycle", Impact::Critical);
    assert_eq!(lifecycle.state, OpportunityState::Detected);
    assert!(lifecycle
        .transition(
            OpportunityState::Published,
            "2026-08-23T00:01:00Z",
            receipt(ReceiptSource::Tooling, "invalid publish")
        )
        .is_err());
    assert_eq!(lifecycle.state, OpportunityState::Detected);
    assert_eq!(lifecycle.events.len(), 1);

    lifecycle
        .transition(
            OpportunityState::Prepared,
            "2026-08-23T00:02:00Z",
            receipt(ReceiptSource::Tooling, "candidate prepared"),
        )
        .unwrap();
    lifecycle
        .transition(
            OpportunityState::Verified,
            "2026-08-23T00:03:00Z",
            receipt(ReceiptSource::Tooling, "locked tests passed"),
        )
        .unwrap();
    assert_eq!(lifecycle.rank.verification, Verification::Verified);
    lifecycle
        .transition(
            OpportunityState::Published,
            "2026-08-23T00:04:00Z",
            receipt(ReceiptSource::Tooling, "issue 81"),
        )
        .unwrap();

    assert_eq!(lifecycle.events.len(), 4);
    assert_eq!(lifecycle.events[0].state, OpportunityState::Detected);
    assert_eq!(lifecycle.events[3].state, OpportunityState::Published);
    assert_eq!(lifecycle.events[2].at, "2026-08-23T00:03:00Z");
    assert_eq!(
        lifecycle.events[2].receipt.as_ref().unwrap().summary,
        "locked tests passed"
    );

    let mut failed = opportunity("failed", Impact::High);
    failed
        .transition(
            OpportunityState::Prepared,
            "2026-08-23T01:00:00Z",
            receipt(ReceiptSource::Tooling, "candidate prepared"),
        )
        .unwrap();
    failed
        .transition(
            OpportunityState::Failed,
            "2026-08-23T01:01:00Z",
            receipt(ReceiptSource::Tooling, "tests failed"),
        )
        .unwrap();
    assert_eq!(failed.rank.verification, Verification::Failed);
    failed
        .transition(
            OpportunityState::Dismissed,
            "2026-08-23T01:02:00Z",
            receipt(ReceiptSource::User, "not worth the risk"),
        )
        .unwrap();
    assert_eq!(failed.state, OpportunityState::Dismissed);

    let mut detected_dismissal = opportunity("detected-dismissal", Impact::Low);
    detected_dismissal
        .transition(
            OpportunityState::Dismissed,
            "2026-08-23T02:00:00Z",
            receipt(ReceiptSource::User, "dismissed before preparation"),
        )
        .unwrap();
    assert_eq!(detected_dismissal.state, OpportunityState::Dismissed);

    let mut prepared_dismissal = opportunity("prepared-dismissal", Impact::Low);
    prepared_dismissal
        .transition(
            OpportunityState::Prepared,
            "2026-08-23T03:00:00Z",
            receipt(ReceiptSource::Tooling, "candidate prepared"),
        )
        .unwrap();
    prepared_dismissal
        .transition(
            OpportunityState::Dismissed,
            "2026-08-23T03:01:00Z",
            receipt(ReceiptSource::User, "dismissed after preview"),
        )
        .unwrap();
    assert_eq!(prepared_dismissal.state, OpportunityState::Dismissed);
}

#[test]
fn detectors_emit_linked_opportunities() {
    let rank = rank(Impact::High);
    let dead = detect_dead_workaround(
        "finding-dead",
        "src/cache.rs",
        ImprovementReceipt::new(
            ReceiptSource::ModelProposed,
            "linked issue closed in commit abc123",
            "git:abc123",
        ),
        rank,
        "2026-08-23T00:00:00Z",
    );
    let rationale = detect_missing_rationale(
        "finding-why",
        "src/auth.rs",
        ImprovementReceipt::new(
            ReceiptSource::Tooling,
            "history and docs contain no rationale",
            "git-log:src/auth.rs",
        ),
        rank,
        "2026-08-23T00:00:00Z",
    );
    let gap = detect_test_gap(
        "finding-test",
        "src/parser.rs",
        "No co-committed test was found; this is a heuristic, not verified coverage.",
        rank,
        "2026-08-23T00:00:00Z",
    );
    let model = model_proposed_opportunity(
        "finding-model",
        "src/lib.rs",
        "Model suggests splitting this module",
        rank,
        "2026-08-23T00:00:00Z",
    );

    assert_eq!(dead.category, OpportunityCategory::DeadWorkaround);
    assert_eq!(dead.finding_ids, vec!["finding-dead"]);
    assert_eq!(dead.file_path, "src/cache.rs");
    assert_eq!(
        dead.events[0].receipt.as_ref().unwrap().source,
        ReceiptSource::Tooling
    );
    assert_eq!(rationale.category, OpportunityCategory::MissingRationale);
    assert_eq!(gap.category, OpportunityCategory::TestGap);
    assert_eq!(
        gap.events[0].receipt.as_ref().unwrap().source,
        ReceiptSource::Heuristic
    );
    assert!(gap.events[0]
        .receipt
        .as_ref()
        .unwrap()
        .summary
        .contains("not verified coverage"));
    assert_eq!(model.category, OpportunityCategory::ModelProposed);
    assert_eq!(
        model.events[0].receipt.as_ref().unwrap().source,
        ReceiptSource::ModelProposed
    );
}

#[test]
fn ordering_uses_separate_fields_not_composite_score() {
    let mut low_impact = opportunity("low-impact", Impact::Low);
    low_impact.rank.verification = Verification::Verified;
    let mut high_effort = opportunity("high-effort", Impact::Critical);
    high_effort.rank.effort = Effort::Large;
    let mut low_effort = opportunity("low-effort", Impact::Critical);
    low_effort.rank.effort = Effort::Small;
    let mut high_verification = opportunity("high-verification", Impact::Critical);
    high_verification.rank.verification = Verification::Verified;
    high_verification.rank.effort = Effort::Large;
    let mut older = opportunity("older", Impact::Critical);
    older.rank.effort = Effort::Small;
    older.rank.age_days = 20;

    let ordered = order_opportunities(vec![
        low_impact,
        high_effort,
        low_effort,
        high_verification,
        older,
    ]);
    assert_eq!(
        ordered
            .iter()
            .map(|item| item.id.as_str())
            .collect::<Vec<_>>(),
        vec![
            "high-verification",
            "older",
            "low-effort",
            "high-effort",
            "low-impact"
        ]
    );
    assert_eq!(ordered[0].rank.impact, Impact::Critical);
    assert_eq!(ordered[0].rank.verification, Verification::Verified);
    assert_eq!(ordered[0].rank.expected_grade_improvement, 3);
    assert_eq!(ordered[0].rank.effort, Effort::Large);
    assert_eq!(ordered[0].rank.age_days, 2);
}

#[test]
fn project_assessment_at_commit_with_history() {
    let baseline_project = project_at(Some("1111111111111111111111111111111111111111"));
    let baseline = ProjectAssessment::at_project_head(
        &baseline_project,
        measurements(80).grade(None),
        vec![opportunity("baseline-opportunity", Impact::High)],
        "2026-08-22T00:00:00Z",
        None,
    )
    .unwrap();
    let current_project = project_at(Some("2222222222222222222222222222222222222222"));
    let current = ProjectAssessment::at_project_head(
        &current_project,
        measurements(95).grade(None),
        vec![],
        "2026-08-23T00:00:00Z",
        Some(&baseline),
    )
    .unwrap();

    assert_eq!(baseline.commit_sha, "1111111111111111111111111111111111111111");
    assert_eq!(current.commit_sha, "2222222222222222222222222222222222222222");
    assert_eq!(
        current.baseline_commit_sha.as_deref(),
        Some(baseline.commit_sha.as_str())
    );
    assert_eq!(current.overall_delta, Some(15));
    assert_eq!(
        current
            .dimension_deltas
            .iter()
            .find(|delta| delta.dimension == QualityDimension::Simplicity)
            .unwrap()
            .score_delta,
        15
    );
    assert!(ProjectAssessment::at_project_head(
        &project_at(None),
        measurements(95).grade(None),
        vec![],
        "2026-08-23T00:00:00Z",
        None,
    )
    .is_err());
}

#[test]
fn assessment_preview_and_cancellation() {
    let preview = AssessmentPreview::new(
        "3333333333333333333333333333333333333333",
        vec![
            ActivityPreview::provider("OpenCode Go", "Send selected Evidence for critique"),
            ActivityPreview::command("cargo test --workspace", "Run locked Project tests"),
        ],
    );
    assert_eq!(preview.activities[0].kind, ActivityKind::Provider);
    assert_eq!(preview.activities[1].kind, ActivityKind::Command);
    assert!(preview.activities[0].detail.contains("Evidence"));

    let mut run = AssessmentRun::new(preview);
    run.start().unwrap();
    run.complete_activity("Collected local git Evidence").unwrap();
    run.cancel("Cancelled by user").unwrap();

    assert_eq!(run.status, AssessmentRunStatus::Cancelled);
    assert_eq!(run.progress.completed, 1);
    assert_eq!(run.progress.total, 2);
    assert!(run.partial_results);
    assert_eq!(run.results_label(), "Partial results");
    assert_eq!(run.status_detail.as_deref(), Some("Cancelled by user"));
}

#[test]
fn finished_run_refuses_further_progress() {
    let preview = AssessmentPreview::new(
        "4444444444444444444444444444444444444444",
        vec![ActivityPreview::command("cargo test", "Run tests")],
    );
    let mut run = AssessmentRun::new(preview);
    assert!(run.complete_activity("too early").is_err());
    run.start().unwrap();
    run.complete_activity("done").unwrap();
    assert_eq!(run.status, AssessmentRunStatus::Completed);
    assert!(run.cancel("late").is_err());
    assert!(run.start().is_err());
}

fn report_entry(file_path: &str, category: SiteReportCategory, description: &str) -> SiteReportEntry {
    let range = LineRange { start: 1, end: 1 };
    let (summary, included) = budget_summary(rank_and_budget_evidence(&[], &BudgetConfig::default_budget()));
    SiteReportEntry {
        file_path: file_path.to_string(),
        line_range: range,
        category,
        description: description.to_string(),
        finding: Finding {
            site_path: "/tmp/fixture".to_string(),
            file_path: file_path.to_string(),
            line_range: range,
            current_code: select_code("fn f() {}\n", range),
            what_when: what_when_from(&included),
            why: why_unrecorded(),
            budget_summary: summary,
            staleness: StalenessStatus::Active,
        },
    }
}

#[test]
fn report_entries_become_linked_opportunities() {
    let report = SiteReport {
        site_path: "/tmp/fixture".to_string(),
        generated_at: "2026-08-23T00:00:00Z".to_string(),
        head_commit: "abc123".to_string(),
        total_files_scanned: 3,
        entries: vec![
            report_entry("src/workaround.rs", SiteReportCategory::DeadWorkaround, "Issue #99 was closed"),
            report_entry("src/auth.rs", SiteReportCategory::NoRationale, "No rationale recorded"),
            report_entry("src/parser.rs", SiteReportCategory::UntestedCode, "No co-committed test."),
        ],
    };
    let linked = opportunities_from_report(&report, rank(Impact::High));

    assert_eq!(linked.len(), 3);
    assert!(linked.iter().all(|item| !item.finding_ids.is_empty()));
    assert_eq!(linked[0].finding_ids, vec!["src/workaround.rs:1-1@abc123"]);
    assert_eq!(linked[0].category, OpportunityCategory::DeadWorkaround);
    let dead = linked[0].events[0].receipt.as_ref().unwrap();
    assert_eq!(dead.source, ReceiptSource::Tooling);
    assert_eq!(dead.reference, "git:abc123");
    assert_eq!(linked[1].category, OpportunityCategory::MissingRationale);
    assert_eq!(linked[1].events[0].receipt.as_ref().unwrap().reference, "history:src/auth.rs:1-1@abc123");
    assert_eq!(linked[2].category, OpportunityCategory::TestGap);
    let gap = linked[2].events[0].receipt.as_ref().unwrap();
    assert_eq!(gap.source, ReceiptSource::Heuristic);
    assert!(gap.summary.contains("not verified coverage"));
    assert!(linked.iter().all(|item| item.state == OpportunityState::Detected));
}
