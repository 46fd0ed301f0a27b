use vstd::prelude::*;

use crate::budget::{BudgetResult, ExcludedEvidence};
use crate::confidence::{assign_confidence, spec_confidence, Confidence};
use crate::evidence::{clone_opt_string, Evidence, EvidenceError, EvidenceKind, LineRange};
use crate::provider::{Provider, ProviderError};
use crate::staleness::StalenessStatus;
use crate::text::{
    chars_of, decimal, first_line, join_range, lines_of, spec_decimal, spec_first_line, spec_join,
    spec_lines, string_of, string_views, views,
};

verus! {

/// Why an excavation failed.
#[derive(Debug, Clone, PartialEq, Eq)]
pub enum ExcavateError {
    Io(String),
    Evidence(String),
}

impl ExcavateError {
    pub open spec fn spec_message(&self) -> Seq<char> {
        match *self {
            ExcavateError::Io(m) => "Failed to read current file content: "@ + m@,
            ExcavateError::Evidence(m) => "Evidence walk failed: "@ + m@,
        }
    }

    pub fn message(&self) -> (r: String)
        ensures
            r@ == self.spec_message(),
    {
        match self {
            ExcavateError::Io(m) => String::from_str("Failed to read current file content: ").concat(m.as_str()),
            ExcavateError::Evidence(m) => String::from_str("Evidence walk failed: ").concat(m.as_str()),
        }
    }

    /// A failed history walk, as the excavation reports it.
    pub fn from_evidence(error: &EvidenceError) -> (r: Self)
        ensures
            r matches ExcavateError::Evidence(m) && m@ == (match *error {
                EvidenceError::Git(g) => "Git execution failed: "@ + g@,
            }),
    {
        ExcavateError::Evidence(error.message())
    }
}

#[derive(Debug, Clone, PartialEq, Eq)]
pub struct TimelineEntry {
    pub commit_sha: String,
    pub author: String,
    pub timestamp: String,
    pub message: String,
    pub diff_hunk: String,
}

/// The What/When half of a Finding: local git history only.
#[derive(Debug, Clone, PartialEq, Eq)]
pub struct WhatWhen {
    pub first_introduced_commit: Option<String>,
    pub first_introduced_author: Option<String>,
    pub first_introduced_timestamp: Option<String>,
    pub evolution_summary: String,
    pub timeline: Vec<TimelineEntry>,
    pub related_tests: Vec<String>,
    pub related_docs: Vec<String>,
}

#[derive(Debug, Clone, PartialEq, Eq)]
pub struct EvidenceCitation {
    pub claim: String,
    pub commit_sha: String,
    pub citation_label: String,
}

/// The Why half of a Finding, gated by Evidence.
#[derive(Debug, Clone, PartialEq, Eq)]
pub struct WhyRationale {
    pub rationale: String,
    pub confidence: Confidence,
    pub confidence_explanation: String,
    pub evidence_citations: Vec<EvidenceCitation>,
}

#[derive(Debug, Clone, PartialEq, Eq)]
pub struct BudgetSummary {
    pub total_considered: usize,
    pub included_count: usize,
    pub excluded: Vec<ExcludedEvidence>,
}

#[derive(Debug, Clone, PartialEq, Eq)]
pub struct Finding {
    pub site_path: String,
    pub file_path: String,
    pub line_range: LineRange,
    pub current_code: String,
    pub what_when: WhatWhen,
    pub why: WhyRationale,
    pub budget_summary: BudgetSummary,
    pub staleness: StalenessStatus,
}

// ---------------------------------------------------------------------------
// Current code
// ---------------------------------------------------------------------------

/// The selected lines (1-based, inclusive) of a file, joined by line feeds;
/// empty when the selection lies outside the file.
pub open spec fn spec_selected_code(content: Seq<char>, range: LineRange) -> Seq<char> {
    let ls = spec_lines(content);
    let a: int = if range.start >= 1 {
        range.start - 1
    } else {
        0
    };
    let b: int = if range.end <= ls.len() {
        range.end as int
    } else {
        ls.len() as int
    };
    if a < b && a < ls.len() {
        spec_join(ls.subrange(a, b), "\n"@)
    } else {
        Seq::empty()
    }
}

pub fn select_code(content: &str, range: LineRange) -> (r: String)
    ensures
        r@ == spec_selected_code(content@, range),
{
    let lines = lines_of(&chars_of(content));
    let start_idx = if range.start >= 1 {
        range.start - 1
    } else {
        0
    };
    let end_idx = if range.end <= lines.len() {
        range.end
    } else {
        lines.len()
    };
    if start_idx < end_idx && start_idx < lines.len() {
        join_range(&lines, start_idx, end_idx, "\n")
    } else {
        let e = String::new();
        assert(e@ =~= Seq::<char>::empty());
        e
    }
}

// ---------------------------------------------------------------------------
// What/When
// ---------------------------------------------------------------------------

pub open spec fn is_direct(e: Evidence) -> bool {
    e.kind == EvidenceKind::DirectDiff
}

/// Direct diffs among the Evidence, in order.
pub open spec fn direct_of(es: Seq<Evidence>) -> Seq<Evidence> {
    es.filter(|e: Evidence| is_direct(e))
}

pub open spec fn timeline_entry(e: Evidence) -> TimelineEntry {
    TimelineEntry {
        commit_sha: e.commit_sha,
        author: e.author,
        timestamp: e.timestamp,
        message: e.message,
        diff_hunk: e.diff,
    }
}

/// Distinct file paths of the Evidence of one kind, in first-seen order.
pub open spec fn related_paths(es: Seq<Evidence>, kind: EvidenceKind) -> Seq<Seq<char>>
    decreases es.len(),
{
    if es.len() == 0 {
        Seq::empty()
    } else {
        let prev = related_paths(es.drop_last(), kind);
        if es.last().kind == kind && !prev.contains(es.last().file_path@) {
            prev.push(es.last().file_path@)
        } else {
            prev
        }
    }
}

/// The oldest Evidence: the last direct diff, else the last item.
pub open spec fn oldest_of(es: Seq<Evidence>) -> Option<Evidence> {
    if direct_of(es).len() > 0 {
        Some(direct_of(es).last())
    } else if es.len() > 0 {
        Some(es.last())
    } else {
        None
    }
}

pub open spec fn evolution_text(n: nat) -> Seq<char> {
    if n == 0 {
        "No direct change history recorded in git for this selection."@
    } else {
        "Modified across "@ + spec_decimal(n) + " commit(s) since first introduced."@
    }
}

fn timeline_of(e: &Evidence) -> (r: TimelineEntry)
    ensures
        r == timeline_entry(*e),
{
    TimelineEntry {
        commit_sha: e.commit_sha.clone(),
        author: e.author.clone(),
        timestamp: e.timestamp.clone(),
        message: e.message.clone(),
        diff_hunk: e.diff.clone(),
    }
}

fn strings_contain(v: &Vec<String>, s: &String) -> (r: bool)
    ensures
        r == string_views(v@).contains(s@),
{
    let mut i: usize = 0;
    while i < v.len()
        invariant
            i <= v.len(),
            forall|j: int| 0 <= j < i ==> v@[j]@ != s@,
        decreases v.len() - i,
    {
        if crate::text::str_eq(v[i].as_str(), s.as_str()) {
            assert(string_views(v@)[i as int] == s@);
            return true;
        }
        i = i + 1;
    }
    assert(!string_views(v@).contains(s@)) by {
        if string_views(v@).contains(s@) {
            let k = choose|k: int| 0 <= k < v@.len() && #[trigger] string_views(v@)[k] == s@;
            assert(v@[k]@ == s@);
        }
    }
    false
}

/// Builds the What/When half from the included Evidence: the timeline of
/// direct diffs, the oldest commit, the co-committed tests and docs, and a
/// one-line summary.
pub fn what_when_from(included: &[Evidence]) -> (r: WhatWhen)
    ensures
        r.timeline@ == direct_of(included@).map_values(|e: Evidence| timeline_entry(e)),
        string_views(r.related_tests@) == related_paths(
            included@,
            EvidenceKind::CoCommittedTest,
        ),
        string_views(r.related_docs@) == related_paths(
            included@,
            EvidenceKind::CoCommittedDoc,
        ),
        r.evolution_summary@ == evolution_text(direct_of(included@).len()),
        match oldest_of(included@) {
            Some(e) => r.first_introduced_commit == Some(e.commit_sha) && r.first_introduced_author
                == Some(e.author) && r.first_introduced_timestamp == Some(e.timestamp),
            None => r.first_introduced_commit is None && r.first_introduced_author is None
                && r.first_introduced_timestamp is None,
        },
{
    let mut timeline: Vec<TimelineEntry> = Vec::new();
    let mut tests: Vec<String> = Vec::new();
    let mut docs: Vec<String> = Vec::new();
    let mut last_direct: Option<usize> = None;
    let mut i: usize = 0;
    assert(included@.take(0) =~= Seq::<Evidence>::empty());
    while i < included.len()
        invariant
            i <= included@.len(),
            timeline@ == direct_of(included@.take(i as int)).map_values(
                |e: Evidence| timeline_entry(e),
            ),
            string_views(tests@) == related_paths(
                included@.take(i as int),
                EvidenceKind::CoCommittedTest,
            ),
            string_views(docs@) == related_paths(
                included@.take(i as int),
                EvidenceKind::CoCommittedDoc,
            ),
            match last_direct {
                Some(k) => k < i && direct_of(included@.take(i as int)).len() > 0 && direct_of(
                    included@.take(i as int),
                ).last() == included@[k as int],
                None => direct_of(included@.take(i as int)).len() == 0,
            },
        decreases included.len() - i,
    {
        let e = &included[i];
        let ghost pre = included@.take(i as int);
        let ghost next = included@.take(i + 1);
        proof {
            assert(next.drop_last() =~= pre);
            assert(next.last() == *e);
            reveal(Seq::filter);
        }
        if e.kind == EvidenceKind::DirectDiff {
            let ghost before = timeline@;
            timeline.push(timeline_of(e));
            last_direct = Some(i);
            proof {
                assert(direct_of(next) =~= direct_of(pre).push(*e));
                assert(timeline@ =~= direct_of(next).map_values(|e: Evidence| timeline_entry(e)));
            }
        } else {
            proof {
                assert(direct_of(next) =~= direct_of(pre));
            }
        }
        if e.kind == EvidenceKind::CoCommittedTest {
            if !strings_contain(&tests, &e.file_path) {
                let ghost before = tests@;
                tests.push(e.file_path.clone());
                assert(string_views(tests@) =~= string_views(before).push(
                    e.file_path@,
                ));
            }
        } else if e.kind == EvidenceKind::CoCommittedDoc {
            if !strings_contain(&docs, &e.file_path) {
                let ghost before = docs@;
                docs.push(e.file_path.clone());
                assert(string_views(docs@) =~= string_views(before).push(
                    e.file_path@,
                ));
            }
        }
        i = i + 1;
    }
    assert(included@.take(included@.len() as int) =~= included@);
    let oldest: Option<&Evidence> = match last_direct {
        Some(k) => Some(&included[k]),
        None => {
            if included.len() > 0 {
                Some(&included[included.len() - 1])
            } else {
                None
            }
        },
    };
    let n = timeline.len();
    proof {
        assert(direct_of(included@).map_values(|e: Evidence| timeline_entry(e)).len() == direct_of(
            included@,
        ).len());
    }
    let evolution_summary = if n == 0 {
        String::from_str("No direct change history recorded in git for this selection.")
    } else {
        String::from_str("Modified across ").concat(decimal(n as u64).as_str()).concat(
            " commit(s) since first introduced.",
        )
    };
    WhatWhen {
        first_introduced_commit: match oldest {
            Some(e) => Some(e.commit_sha.clone()),
            None => None,
        },
        first_introduced_author: match oldest {
            Some(e) => Some(e.author.clone()),
            None => None,
        },
        first_introduced_timestamp: match oldest {
            Some(e) => Some(e.timestamp.clone()),
            None => None,
        },
        evolution_summary,
        timeline,
        related_tests: tests,
        related_docs: docs,
    }
}

// ---------------------------------------------------------------------------
// Why
// ---------------------------------------------------------------------------

/// The Evidence block of the provider prompt.
pub open spec fn prompt_evidence(es: Seq<Evidence>) -> Seq<char>
    decreases es.len(),
{
    if es.len() == 0 {
        Seq::empty()
    } else {
        let e = es.last();
        prompt_evidence(es.drop_last()) + "Commit: "@ + e.commit_sha@ + "\nAuthor: "@ + e.author@
            + "\nDate: "@ + e.timestamp@ + "\nMessage: "@ + e.message@ + "\n\n"@
    }
}

pub open spec fn prompt_header() -> Seq<char> {
    "You are Subsurface. Given the code selection and the recorded git evidence below, explain why this code exists in plain concise sentences. Only cite reasons supported directly by the evidence.\n\nCode selection:\n```\n"@
}

/// The prompt sent to a provider: instructions, the code selection, then
/// every included Evidence item.
pub open spec fn spec_provider_prompt(code: Seq<char>, es: Seq<Evidence>) -> Seq<char> {
    prompt_header() + code + "\n```\n\nEvidence:\n"@ + prompt_evidence(es)
}

pub fn provider_prompt(current_code: &str, included: &[Evidence]) -> (r: String)
    ensures
        r@ == spec_provider_prompt(current_code@, included@),
{
    let mut evidence = String::new();
    let mut i: usize = 0;
    assert(included@.take(0) =~= Seq::<Evidence>::empty());
    while i < included.len()
        invariant
            i <= included@.len(),
            evidence@ == prompt_evidence(included@.take(i as int)),
        decreases included.len() - i,
    {
        let e = &included[i];
        evidence.append("Commit: ");
        evidence.append(e.commit_sha.as_str());
        evidence.append("\nAuthor: ");
        evidence.append(e.author.as_str());
        evidence.append("\nDate: ");
        evidence.append(e.timestamp.as_str());
        evidence.append("\nMessage: ");
        evidence.append(e.message.as_str());
        evidence.append("\n\n");
        proof {
            let next = included@.take(i + 1);
            assert(next.drop_last() =~= included@.take(i as int));
            assert(next.last() == *e);
        }
        i = i + 1;
    }
    assert(included@.take(included@.len() as int) =~= included@);
    let mut prompt = String::from_str(
        "You are Subsurface. Given the code selection and the recorded git evidence below, explain why this code exists in plain concise sentences. Only cite reasons supported directly by the evidence.\n\nCode selection:\n```\n",
    );
    prompt.append(current_code);
    prompt.append("\n```\n\nEvidence:\n");
    prompt.append(evidence.as_str());
    prompt
}

pub open spec fn short_sha(sha: Seq<char>) -> Seq<char> {
    if sha.len() <= 7 {
        sha
    } else {
        sha.subrange(0, 7)
    }
}

/// The citation of one Evidence item: its short sha and first message line.
pub open spec fn spec_citation(e: Evidence) -> (Seq<char>, Seq<char>, Seq<char>) {
    (
        "Commit "@ + short_sha(e.commit_sha@) + ": "@ + spec_first_line(e.message@),
        e.commit_sha@,
        "Commit "@ + short_sha(e.commit_sha@),
    )
}

pub open spec fn citation_view(c: EvidenceCitation) -> (Seq<char>, Seq<char>, Seq<char>) {
    (c.claim@, c.commit_sha@, c.citation_label@)
}

fn short_sha_of(sha: &String) -> (r: String)
    ensures
        r@ == short_sha(sha@),
{
    let v = chars_of(sha.as_str());
    if v.len() <= 7 {
        let r = string_of(&v, 0, v.len());
        assert(r@ =~= sha@);
        r
    } else {
        string_of(&v, 0, 7)
    }
}

/// One citation per included Evidence item, in order.
pub fn evidence_citations(included: &[Evidence]) -> (r: Vec<EvidenceCitation>)
    ensures
        r@.map_values(|c: EvidenceCitation| citation_view(c)) == included@.map_values(
            |e: Evidence| spec_citation(e),
        ),
{
    let mut out: Vec<EvidenceCitation> = Vec::new();
    let mut i: usize = 0;
    while i < included.len()
        invariant
            i <= included@.len(),
            out@.len() == i,
            forall|j: int| 0 <= j < i ==> citation_view(#[trigger] out@[j]) == spec_citation(included@[j]),
        decreases included.len() - i,
    {
        let e = &included[i];
        let short = short_sha_of(&e.commit_sha);
        let claim = String::from_str("Commit ").concat(short.as_str()).concat(": ").concat(
            first_line(e.message.as_str()).as_str(),
        );
        let label = String::from_str("Commit ").concat(short.as_str());
        out.push(EvidenceCitation { claim, commit_sha: e.commit_sha.clone(), citation_label: label });
        i = i + 1;
    }
    assert(out@.map_values(|c: EvidenceCitation| citation_view(c)) =~= included@.map_values(
        |e: Evidence| spec_citation(e),
    ));
    out
}

pub open spec fn no_rationale_text() -> Seq<char> {
    "No recorded rationale found for this selection. The repository history records changes to this code, but no commit message, document, or test states why."@
}

/// The Why half when no rationale was recorded: it says so plainly, cites
/// nothing and never asks a provider.
pub fn why_unrecorded() -> (r: WhyRationale)
    ensures
        r.confidence == Confidence::Unrecorded,
        r.rationale@ == no_rationale_text(),
        r.confidence_explanation@
            == "All commits in history have empty or non-descriptive messages ('fix'/'wip') and no co-committed tests/docs."@,
        r.evidence_citations@.len() == 0,
{
    WhyRationale {
        rationale: String::from_str(
            "No recorded rationale found for this selection. The repository history records changes to this code, but no commit message, document, or test states why.",
        ),
        confidence: Confidence::Unrecorded,
        confidence_explanation: String::from_str(
            "All commits in history have empty or non-descriptive messages ('fix'/'wip') and no co-committed tests/docs.",
        ),
        evidence_citations: Vec::new(),
    }
}

pub open spec fn explanation_of(c: Confidence) -> Seq<char> {
    if c == Confidence::Stated {
        "Rationale explicitly stated in commit messages or repository documentation."@
    } else {
        "Rationale inferred from contextual co-committed changes and tests."@
    }
}

/// The Why half with Evidence behind it: the provider's reply as the
/// rationale, or a note that the provider was unavailable (the What/When half
/// stands either way), with the citations.
pub fn why_from_reply(
    confidence: Confidence,
    reply: Result<String, ProviderError>,
    citations: Vec<EvidenceCitation>,
) -> (r: WhyRationale)
    requires
        confidence != Confidence::Unrecorded,
    ensures
        r.confidence == confidence,
        r.confidence_explanation@ == explanation_of(confidence),
        r.evidence_citations == citations,
        match reply {
            Ok(text) => r.rationale == text,
            Err(e) => r.rationale@ == "Inference provider unavailable ("@ + error_text(e)
                + ") - history What/When is detailed below."@,
        },
{
    let rationale = match reply {
        Ok(text) => text,
        Err(e) => String::from_str("Inference provider unavailable (").concat(
            e.message().as_str(),
        ).concat(") - history What/When is detailed below."),
    };
    let confidence_explanation = if confidence == Confidence::Stated {
        String::from_str(
            "Rationale explicitly stated in commit messages or repository documentation.",
        )
    } else {
        String::from_str("Rationale inferred from contextual co-committed changes and tests.")
    };
    WhyRationale { rationale, confidence, confidence_explanation, evidence_citations: citations }
}

/// The Why half of an excavation, from the selected code and the Evidence
/// kept within budget. When no rationale was recorded the provider is not
/// asked, and the answer says so and cites nothing; otherwise the provider
/// is asked with the prompt built from the code and the Evidence, its reply
/// to that prompt (or the error it gave) is the rationale, and the Evidence
/// is cited.
pub fn explain<P: Provider + ?Sized>(provider: &P, current_code: &str, included: &[Evidence]) -> (r:
    WhyRationale)
    ensures
        spec_confidence(included@) == Confidence::Unrecorded ==> {
            &&& r.confidence == Confidence::Unrecorded
            &&& r.rationale@ == no_rationale_text()
            &&& r.evidence_citations@.len() == 0
        },
        spec_confidence(included@) != Confidence::Unrecorded ==> {
            &&& r.confidence == spec_confidence(included@)
            &&& r.confidence_explanation@ == explanation_of(r.confidence)
            &&& r.evidence_citations@.map_values(|c: EvidenceCitation| citation_view(c))
                == included@.map_values(|e: Evidence| spec_citation(e))
            &&& exists|p: &str, reply: Result<String, ProviderError>|
                #![trigger call_ensures(P::complete, (provider, p), reply)]
                p@ == spec_provider_prompt(current_code@, included@) && call_ensures(
                    P::complete,
                    (provider, p),
                    reply,
                ) && r.rationale@ == rationale_for(reply)
        },
{
    let confidence = assign_confidence(included);
    if confidence == Confidence::Unrecorded {
        why_unrecorded()
    } else {
        let prompt = provider_prompt(current_code, included);
        let asked = prompt.as_str();
        let reply = provider.complete(asked);
        let citations = evidence_citations(included);
        let ghost answered = reply;
        let r = why_from_reply(confidence, reply, citations);
        assert(r.rationale@ == rationale_for(answered));
        assert(call_ensures(P::complete, (provider, asked), answered));
        r
    }
}

/// The rationale a provider's answer gives: its text, or a note that the
/// provider was unavailable, with the error.
pub open spec fn rationale_for(reply: Result<String, ProviderError>) -> Seq<char> {
    match reply {
        Ok(text) => text@,
        Err(e) => "Inference provider unavailable ("@ + error_text(e) + ") - history What/When is detailed below."@,
    }
}

/// The text a provider error is shown as.
pub open spec fn error_text(e: ProviderError) -> Seq<char> {
    match e {
        ProviderError::Network(m) => "Network error: "@ + m@,
        ProviderError::Auth(m) => "Authentication failed: "@ + m@,
        ProviderError::RateLimit(m) => "Rate limited: "@ + m@,
        ProviderError::Timeout(m) => "Provider timed out: "@ + m@,
        ProviderError::MalformedResponse(m) => "Malformed provider response: "@ + m@,
        ProviderError::Other(m) => "Provider error: "@ + m@,
        ProviderError::Offline => "Offline mode is on; no Evidence leaves this machine"@,
        ProviderError::ConsentRequired => "Consent is required before sending this payload"@,
    }
}

/// Splits a budget result into its summary and the included Evidence.
pub fn budget_summary(result: BudgetResult) -> (r: (BudgetSummary, Vec<Evidence>))
    ensures
        r.0.total_considered == result.total_considered,
        r.0.included_count == result.included@.len(),
        r.0.excluded == result.excluded,
        r.1 == result.included,
{
    let included_count = result.included.len();
    (
        BudgetSummary {
            total_considered: result.total_considered,
            included_count,
            excluded: result.excluded,
        },
        result.included,
    )
}

} // verus!
