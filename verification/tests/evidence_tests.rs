use subsurface_engine::budget::{rank_and_budget_evidence, BudgetConfig};
use subsurface_engine::confidence::{assign_confidence, is_trivial_commit_message, Confidence};
use subsurface_engine::evidence::{is_doc_file, is_test_file, Evidence, EvidenceKind};

fn evidence(sha: &str, message: &str, kind: EvidenceKind, file: &str) -> Evidence {
    Evidence {
        commit_sha: sha.to_string(),
        author: "Ada".to_string(),
        timestamp: "2026-08-23T00:00:00Z".to_string(),
        message: message.to_string(),
        diff: "+fn f() {}".to_string(),
        lines_touched: 1,
        kind,
        is_heuristic: kind != EvidenceKind::DirectDiff,
        heuristic_note: None,
        file_path: file.to_string(),
    }
}

#[test]
fn test_confidence_rule_stated() {
    let evidence = vec![evidence(
        "a1",
        "Workaround for upstream issue #42: socket reset under high load because buffer overflow",
        EvidenceKind::DirectDiff,
        "src/net.rs",
    )];
    assert_eq!(assign_confidence(&evidence), Confidence::Stated);
}

#[test]
fn test_confidence_rule_inferred() {
    let evidence = vec![
        evidence("b1", "update auth handler", EvidenceKind::DirectDiff, "src/auth.rs"),
        evidence("b1", "update auth handler", EvidenceKind::CoCommittedTest, "tests/auth_test.rs"),
    ];
    assert_eq!(assign_confidence(&evidence), Confidence::Inferred);
}

#[test]
fn test_confidence_rule_none() {
    let evidence = vec![
        evidence("c3", "fix typo", EvidenceKind::DirectDiff, "src/misc.rs"),
        evidence("c2", "wip", EvidenceKind::DirectDiff, "src/misc.rs"),
        evidence("c1", "fix", EvidenceKind::DirectDiff, "src/misc.rs"),
    ];
    assert_eq!(assign_confidence(&evidence), Confidence::Unrecorded);
    assert_eq!(Confidence::Unrecorded.label(), "None");
    assert_eq!(assign_confidence(&[]), Confidence::Unrecorded);
}

#[test]
fn trivial_messages_ignore_case_and_punctuation() {
    assert!(is_trivial_commit_message("  WIP!!! "));
    assert!(is_trivial_commit_message("fix typo."));
    assert!(!is_trivial_commit_message("fix the parser"));
}

#[test]
fn test_evidence_budget_ranking_and_exclusion() {
    let candidates: Vec<Evidence> = (1..=12)
        .map(|i| {
            evidence(
                &format!("{i:040}"),
                &format!("commit {i}"),
                EvidenceKind::DirectDiff,
                "src/mod.rs",
            )
        })
        .collect();
    let budget_config = BudgetConfig { max_evidence_items: 4 };
    let budget_result = rank_and_budget_evidence(&candidates, &budget_config);

    assert_eq!(budget_result.included.len(), 4, "Should cap at max budget items");
    assert!(
        budget_result.excluded.len() >= candidates.len() - 4,
        "Excluded items must be recorded explicitly"
    );
    for excluded in &budget_result.excluded {
        assert!(!excluded.commit_sha.is_empty());
        assert!(!excluded.reason.is_empty());
    }
}

#[test]
fn test_and_doc_paths_are_recognised() {
    assert!(is_test_file("tests/auth_test.rs"));
    assert!(is_doc_file("docs/auth.md"));
    assert!(!is_test_file("src/auth.rs"));
}
