use subsurface_engine::budget::{rank_and_budget_evidence, BudgetConfig};
use subsurface_engine::confidence::Confidence;
use subsurface_engine::evidence::{direct_evidence_from_log, evidence_with_co_commits, LineRange};
use subsurface_engine::excavate::{
    budget_summary, explain, select_code, what_when_from, WhatWhen, WhyRationale,
};
use subsurface_engine::provider::{Provider, ProviderError};
use std::sync::atomic::{AtomicUsize, Ordering};

/// A provider that gives one fixed answer and counts how often it is asked.
struct ScriptedProvider {
    reply: Result<String, ProviderError>,
    asked: AtomicUsize,
}

impl ScriptedProvider {
    fn new(reply: Result<String, ProviderError>) -> Self {
        ScriptedProvider { reply, asked: AtomicUsize::new(0) }
    }

    fn times_asked(&self) -> usize {
        self.asked.load(Ordering::SeqCst)
    }
}

impl Provider for ScriptedProvider {
    fn complete(&self, _prompt: &str) -> Result<String, ProviderError> {
        self.asked.fetch_add(1, Ordering::SeqCst);
        self.reply.clone()
    }
}

/// One commit as `git log -L .. --format=__SUB_COMMIT__%H%x00%an%x00%aI%x00%s%x00%b`
/// prints it, followed by its hunk.
fn log_commit(sha: &str, subject: &str, hunk: &str) -> String {
    format!("__SUB_COMMIT__{sha}\0Fixture\02024-01-01T00:00:00+00:00\0{subject}\0\n\n{hunk}")
}

/// An excavation of a selection, from the file's text, the history of the
/// selection and the provider's answer to the prompt: the steps the
/// application takes, with git and the provider already answered.
fn excavate_offline(
    content: &str,
    log: &str,
    file_path: &str,
    range: LineRange,
    provider: &ScriptedProvider,
) -> (String, WhatWhen, WhyRationale) {
    let current_code = select_code(content, range);
    let direct = direct_evidence_from_log(log, file_path);
    let shows: Vec<Option<String>> = direct.iter().map(|_| Some(file_path.to_string())).collect();
    let raw = evidence_with_co_commits(&direct, &shows, file_path);
    let (_summary, included) = budget_summary(rank_and_budget_evidence(&raw, &BudgetConfig::default_budget()));
    let what_when = what_when_from(&included);
    let why = explain(provider, &current_code, &included);
    (current_code, what_when, why)
}

#[test]
fn test_excavate_no_rationale_fixture_asserts_nothing() {
    let content = "pub fn process_payment() {\n    let retry_limit = 5;\n    println!(\"{}\", retry_limit);\n}\n";
    let log = log_commit(
        "2222222222222222222222222222222222222222",
        "wip",
        "diff --git a/src/payment.rs b/src/payment.rs\n--- a/src/payment.rs\n+++ b/src/payment.rs\n@@ -2,1 +2,1 @@\n-    let retry_limit = 3;\n+    let retry_limit = 5;\n",
    ) + &log_commit(
        "1111111111111111111111111111111111111111",
        "fix",
        "diff --git a/src/payment.rs b/src/payment.rs\nnew file mode 100644\n--- /dev/null\n+++ b/src/payment.rs\n@@ -0,0 +2,1 @@\n+    let retry_limit = 3;\n",
    );
    let range = LineRange { start: 2, end: 2 };
    let unused = ScriptedProvider::new(Ok("Should not be used for no-rationale".to_string()));
    let (current_code, what_when, why) = excavate_offline(content, &log, "src/payment.rs", range, &unused);
    assert_eq!(unused.times_asked(), 0, "no rationale recorded: the provider is not asked");

    assert_eq!(why.confidence, Confidence::Unrecorded);
    assert!(
        why.rationale.to_lowercase().contains("no recorded rationale")
            || why.rationale.to_lowercase().contains("no rationale"),
        "Finding must explicitly state that no rationale was recorded, got: {}",
        why.rationale
    );
    assert_eq!(current_code.trim(), "let retry_limit = 5;");
    assert!(!what_when.timeline.is_empty());
    assert!(what_when.first_introduced_commit.is_some());
}

#[test]
fn test_excavate_stated_rationale_fixture() {
    let c1 = "3333333333333333333333333333333333333333";
    let content = "pub fn process_payment() {\n    let retry_limit = 5;\n}\n";
    let log = log_commit(
        c1,
        "Workaround for upstream issue #404: retry limit increased to 5 due to gateway latency",
        "diff --git a/src/payment.rs b/src/payment.rs\nnew file mode 100644\n--- /dev/null\n+++ b/src/payment.rs\n@@ -0,0 +2,1 @@\n+    let retry_limit = 5;\n",
    );
    let range = LineRange { start: 2, end: 2 };
    let fake = ScriptedProvider::new(Ok("Rationale from commit: Gateway latency requires retry limit 5.".to_string()));
    let (_current_code, _what_when, why) = excavate_offline(content, &log, "src/payment.rs", range, &fake);
    assert_eq!(fake.times_asked(), 1);

    assert_eq!(why.confidence, Confidence::Stated);
    assert!(why.rationale.contains("Gateway latency"));
    assert!(!why.evidence_citations.is_empty());
    assert_eq!(why.evidence_citations[0].commit_sha, c1);
}

#[test]
fn test_excavate_what_when_intact_on_provider_error() {
    let content = "fn calc() -> i32 {\n    42\n}\n";
    let log = log_commit(
        "4444444444444444444444444444444444444444",
        "Add calculate function",
        "diff --git a/src/calc.rs b/src/calc.rs\nnew file mode 100644\n--- /dev/null\n+++ b/src/calc.rs\n@@ -0,0 +1,3 @@\n+fn calc() -> i32 {\n+    42\n+}\n",
    );
    let range = LineRange { start: 1, end: 3 };
    let erroring = ScriptedProvider::new(Err(ProviderError::Network("Connection timed out".into())));
    let (current_code, what_when, why) = excavate_offline(content, &log, "src/calc.rs", range, &erroring);

    assert_eq!(current_code, "fn calc() -> i32 {\n    42\n}");
    assert_eq!(what_when.timeline.len(), 1);
    assert!(what_when.first_introduced_commit.is_some());
    assert_eq!(why.confidence, Confidence::Inferred);
    assert_eq!(
        why.rationale,
        "Inference provider unavailable (Network error: Connection timed out) - history What/When is detailed below."
    );
}
