use vstd::prelude::*;

use crate::report::{SiteReport, SiteReportCategory};
use crate::text::{
    decimal, lemma_seq_lt_asymmetric, lemma_seq_lt_transitive, seq_lt, spec_decimal, str_lt,
};

verus! {

#[derive(Debug, Clone, Copy, PartialEq, Eq, Structural)]
pub enum OpportunityState {
    Detected,
    Prepared,
    Verified,
    Failed,
    Published,
    Dismissed,
}

#[derive(Debug, Clone, Copy, PartialEq, Eq, Structural)]
pub enum OpportunityCategory {
    DeadWorkaround,
    MissingRationale,
    TestGap,
    ModelProposed,
}

#[derive(Debug, Clone, Copy, PartialEq, Eq, Structural)]
pub enum ReceiptSource {
    Tooling,
    Heuristic,
    ModelProposed,
    User,
}

/// What backs one step of an Opportunity's lifecycle.
#[derive(Debug, PartialEq, Eq)]
pub struct ImprovementReceipt {
    pub source: ReceiptSource,
    pub summary: String,
    pub reference: String,
}

impl Clone for ImprovementReceipt {
    fn clone(&self) -> (r: Self)
        ensures
            r == *self,
    {
        ImprovementReceipt {
            source: self.source,
            summary: self.summary.clone(),
            reference: self.reference.clone(),
        }
    }
}

impl ImprovementReceipt {
    pub fn new(source: ReceiptSource, summary: &str, reference: &str) -> (r: Self)
        ensures
            r.source == source,
            r.summary@ == summary@,
            r.reference@ == reference@,
    {
        ImprovementReceipt { source, summary: summary.to_owned(), reference: reference.to_owned() }
    }
}

#[derive(Debug, Clone, Copy, PartialEq, Eq, Structural)]
pub enum Impact {
    Low,
    Medium,
    High,
    Critical,
}

#[derive(Debug, Clone, Copy, PartialEq, Eq, Structural)]
pub enum Verification {
    NotRun,
    Failed,
    Verified,
}

#[derive(Debug, Clone, Copy, PartialEq, Eq, Structural)]
pub enum Effort {
    Small,
    Medium,
    Large,
}

/// Separate ranking fields; they are never folded into one score.
#[derive(Debug, Clone, Copy, PartialEq, Eq, Structural)]
pub struct OpportunityRank {
    pub impact: Impact,
    pub verification: Verification,
    pub expected_grade_improvement: u8,
    pub effort: Effort,
    pub age_days: u32,
}

#[derive(Debug, PartialEq, Eq)]
pub struct OpportunityEvent {
    pub state: OpportunityState,
    pub at: String,
    pub receipt: Option<ImprovementReceipt>,
}

#[derive(Debug, PartialEq, Eq)]
pub struct Opportunity {
    pub id: String,
    pub finding_ids: Vec<String>,
    pub file_path: String,
    pub category: OpportunityCategory,
    pub state: OpportunityState,
    pub rank: OpportunityRank,
    pub events: Vec<OpportunityEvent>,
}

#[derive(Debug, Clone, Copy, PartialEq, Eq, Structural)]
pub struct TransitionError {
    pub from: OpportunityState,
    pub to: OpportunityState,
}

/// The name a lifecycle state is shown under.
pub open spec fn state_name(s: OpportunityState) -> Seq<char> {
    match s {
        OpportunityState::Detected => "Detected"@,
        OpportunityState::Prepared => "Prepared"@,
        OpportunityState::Verified => "Verified"@,
        OpportunityState::Failed => "Failed"@,
        OpportunityState::Published => "Published"@,
        OpportunityState::Dismissed => "Dismissed"@,
    }
}

fn state_text(s: OpportunityState) -> (r: &'static str)
    ensures
        r@ == state_name(s),
{
    match s {
        OpportunityState::Detected => "Detected",
        OpportunityState::Prepared => "Prepared",
        OpportunityState::Verified => "Verified",
        OpportunityState::Failed => "Failed",
        OpportunityState::Published => "Published",
        OpportunityState::Dismissed => "Dismissed",
    }
}

impl TransitionError {
    pub fn message(&self) -> (r: String)
        ensures
            r@ == "invalid Opportunity transition from "@ + state_name(self.from) + " to "@
                + state_name(self.to),
    {
        String::from_str("invalid Opportunity transition from ").concat(state_text(self.from)).concat(
            " to ",
        ).concat(state_text(self.to))
    }
}

/// The lifecycle: Detected → Prepared → Verified → Published, Prepared →
/// Failed, and Dismissed from any state before publication.
pub open spec fn transition_allowed(from: OpportunityState, to: OpportunityState) -> bool {
    match (from, to) {
        (OpportunityState::Detected, OpportunityState::Prepared) => true,
        (OpportunityState::Detected, OpportunityState::Dismissed) => true,
        (OpportunityState::Prepared, OpportunityState::Verified) => true,
        (OpportunityState::Prepared, OpportunityState::Failed) => true,
        (OpportunityState::Prepared, OpportunityState::Dismissed) => true,
        (OpportunityState::Verified, OpportunityState::Published) => true,
        (OpportunityState::Verified, OpportunityState::Dismissed) => true,
        (OpportunityState::Failed, OpportunityState::Dismissed) => true,
        _ => false,
    }
}

/// The record invariant: the history is non-empty, starts Detected, and its
/// last event is the current state.
pub open spec fn history_consistent(o: Opportunity) -> bool {
    &&& o.events@.len() > 0
    &&& o.events@[0].state == OpportunityState::Detected
    &&& o.events@.last().state == o.state
}

impl Opportunity {
    /// A freshly detected Opportunity: its history is the detection, and its
    /// verification starts as not run.
    pub fn detected(
        id: &str,
        finding_id: &str,
        file_path: &str,
        category: OpportunityCategory,
        rank: OpportunityRank,
        at: &str,
        receipt: ImprovementReceipt,
    ) -> (r: Self)
        ensures
            r.id@ == id@,
            crate::text::string_views(r.finding_ids@) == seq![finding_id@],
            r.file_path@ == file_path@,
            r.category == category,
            r.state == OpportunityState::Detected,
            r.rank == (OpportunityRank { verification: Verification::NotRun, ..rank }),
            r.events@.len() == 1,
            r.events@[0].state == OpportunityState::Detected,
            r.events@[0].at@ == at@,
            r.events@[0].receipt == Some(receipt),
            history_consistent(r),
    {
        let mut finding_ids: Vec<String> = Vec::new();
        finding_ids.push(finding_id.to_owned());
        let mut events: Vec<OpportunityEvent> = Vec::new();
        events.push(
            OpportunityEvent {
                state: OpportunityState::Detected,
                at: at.to_owned(),
                receipt: Some(receipt),
            },
        );
        assert(crate::text::string_views(finding_ids@) =~= seq![finding_id@]);
        Opportunity {
            id: id.to_owned(),
            finding_ids,
            file_path: file_path.to_owned(),
            category,
            state: OpportunityState::Detected,
            rank: OpportunityRank { verification: Verification::NotRun, ..rank },
            events,
        }
    }

    /// Moves along the lifecycle. An allowed move records an event with its
    /// receipt (and marks verification on Verified or Failed); a refused move
    /// changes nothing.
    pub fn transition(&mut self, next: OpportunityState, at: &str, receipt: ImprovementReceipt) -> (r:
        Result<(), TransitionError>)
        ensures
            transition_allowed(old(self).state, next) <==> r is Ok,
            r is Err ==> r == Err::<(), TransitionError>(
                TransitionError { from: old(self).state, to: next },
            ) && *final(self) == *old(self),
            r is Ok ==> {
                &&& final(self).state == next
                &&& final(self).events@ == old(self).events@.push(
                    OpportunityEvent { state: next, at: final(self).events@.last().at, receipt: Some(receipt) },
                )
                &&& final(self).events@.last().at@ == at@
                &&& final(self).rank.verification == (if next == OpportunityState::Verified {
                    Verification::Verified
                } else if next == OpportunityState::Failed {
                    Verification::Failed
                } else {
                    old(self).rank.verification
                })
                &&& final(self).rank.impact == old(self).rank.impact
                &&& final(self).rank.effort == old(self).rank.effort
                &&& final(self).rank.expected_grade_improvement == old(
                    self,
                ).rank.expected_grade_improvement
                &&& final(self).rank.age_days == old(self).rank.age_days
                &&& final(self).id == old(self).id
                &&& final(self).finding_ids == old(self).finding_ids
                &&& final(self).file_path == old(self).file_path
                &&& final(self).category == old(self).category
            },
    {
        let from = self.state;
        let allowed = match (from, next) {
            (OpportunityState::Detected, OpportunityState::Prepared) => true,
            (OpportunityState::Detected, OpportunityState::Dismissed) => true,
            (OpportunityState::Prepared, OpportunityState::Verified) => true,
            (OpportunityState::Prepared, OpportunityState::Failed) => true,
            (OpportunityState::Prepared, OpportunityState::Dismissed) => true,
            (OpportunityState::Verified, OpportunityState::Published) => true,
            (OpportunityState::Verified, OpportunityState::Dismissed) => true,
            (OpportunityState::Failed, OpportunityState::Dismissed) => true,
            _ => false,
        };
        if !allowed {
            return Err(TransitionError { from, to: next });
        }
        match next {
            OpportunityState::Verified => {
                self.rank.verification = Verification::Verified;
            },
            OpportunityState::Failed => {
                self.rank.verification = Verification::Failed;
            },
            _ => {},
        }
        self.state = next;
        self.events.push(OpportunityEvent { state: next, at: at.to_owned(), receipt: Some(receipt) });
        Ok(())
    }
}

/// Every allowed transition keeps the history consistent: it still starts
/// with the detection and ends in the current state, one event longer.
pub proof fn law_transition_keeps_history(
    before: Opportunity,
    after: Opportunity,
    next: OpportunityState,
    at: String,
    receipt: ImprovementReceipt,
)
    requires
        history_consistent(before),
        transition_allowed(before.state, next),
        after.state == next,
        after.events@ == before.events@.push(
            OpportunityEvent { state: next, at, receipt: Some(receipt) },
        ),
    ensures
        history_consistent(after),
        after.events@.len() == before.events@.len() + 1,
{
    assert(after.events@[0] == before.events@[0]);
}

/// Published and Dismissed are terminal: no move leaves them, and nothing
/// reaches Detected again.
pub proof fn law_terminal_states(to: OpportunityState, from: OpportunityState)
    ensures
        !transition_allowed(OpportunityState::Published, to),
        !transition_allowed(OpportunityState::Dismissed, to),
        !transition_allowed(from, OpportunityState::Detected),
{
}

/// Publication only ever follows verification.
pub proof fn law_publish_requires_verified(from: OpportunityState)
    ensures
        transition_allowed(from, OpportunityState::Published) ==> from == OpportunityState::Verified,
{
}

pub open spec fn category_name(category: OpportunityCategory) -> Seq<char> {
    match category {
        OpportunityCategory::DeadWorkaround => "dead-workaround"@,
        OpportunityCategory::MissingRationale => "missing-rationale"@,
        OpportunityCategory::TestGap => "test-gap"@,
        OpportunityCategory::ModelProposed => "model-proposed"@,
    }
}

fn category_label(category: OpportunityCategory) -> (r: &'static str)
    ensures
        r@ == category_name(category),
{
    match category {
        OpportunityCategory::DeadWorkaround => "dead-workaround",
        OpportunityCategory::MissingRationale => "missing-rationale",
        OpportunityCategory::TestGap => "test-gap",
        OpportunityCategory::ModelProposed => "model-proposed",
    }
}

/// The shape every detector gives: id `<category>:<finding>`, one finding,
/// Detected with the receipt.
pub open spec fn detected_as(
    o: Opportunity,
    finding_id: Seq<char>,
    file_path: Seq<char>,
    category: OpportunityCategory,
    rank: OpportunityRank,
    at: Seq<char>,
) -> bool {
    &&& o.id@ == category_name(category) + ":"@ + finding_id
    &&& crate::text::string_views(o.finding_ids@) == seq![finding_id]
    &&& o.file_path@ == file_path
    &&& o.category == category
    &&& o.state == OpportunityState::Detected
    &&& o.rank == (OpportunityRank { verification: Verification::NotRun, ..rank })
    &&& o.events@.len() == 1
    &&& o.events@[0].state == OpportunityState::Detected
    &&& o.events@[0].at@ == at
    &&& history_consistent(o)
}

fn detected(
    finding_id: &str,
    file_path: &str,
    category: OpportunityCategory,
    receipt: ImprovementReceipt,
    rank: OpportunityRank,
    at: &str,
) -> (r: Opportunity)
    ensures
        detected_as(r, finding_id@, file_path@, category, rank, at@),
        r.events@[0].receipt == Some(receipt),
{
    let id = String::from_str(category_label(category)).concat(":").concat(finding_id);
    Opportunity::detected(id.as_str(), finding_id, file_path, category, rank, at, receipt)
}

/// A dead workaround backed by tooling: whatever source the receipt named,
/// it is recorded as a tooling receipt.
pub fn detect_dead_workaround(
    finding_id: &str,
    file_path: &str,
    receipt: ImprovementReceipt,
    rank: OpportunityRank,
    at: &str,
) -> (r: Opportunity)
    ensures
        detected_as(r, finding_id@, file_path@, OpportunityCategory::DeadWorkaround, rank, at@),
        r.events@[0].receipt == Some(ImprovementReceipt { source: ReceiptSource::Tooling, ..receipt }),
{
    let receipt = ImprovementReceipt { source: ReceiptSource::Tooling, ..receipt };
    detected(finding_id, file_path, OpportunityCategory::DeadWorkaround, receipt, rank, at)
}

/// Missing rationale, backed by tooling.
pub fn detect_missing_rationale(
    finding_id: &str,
    file_path: &str,
    receipt: ImprovementReceipt,
    rank: OpportunityRank,
    at: &str,
) -> (r: Opportunity)
    ensures
        detected_as(r, finding_id@, file_path@, OpportunityCategory::MissingRationale, rank, at@),
        r.events@[0].receipt == Some(ImprovementReceipt { source: ReceiptSource::Tooling, ..receipt }),
{
    let receipt = ImprovementReceipt { source: ReceiptSource::Tooling, ..receipt };
    detected(finding_id, file_path, OpportunityCategory::MissingRationale, receipt, rank, at)
}

/// A test gap found by heuristic; the receipt discloses that it is a heuristic.
pub fn detect_test_gap(
    finding_id: &str,
    file_path: &str,
    heuristic_disclosure: &str,
    rank: OpportunityRank,
    at: &str,
) -> (r: Opportunity)
    ensures
        detected_as(r, finding_id@, file_path@, OpportunityCategory::TestGap, rank, at@),
        r.events@[0].receipt matches Some(x) && x.source == ReceiptSource::Heuristic && x.summary@
            == heuristic_disclosure@ && x.reference@ == "heuristic:"@ + finding_id@,
{
    let reference = String::from_str("heuristic:").concat(finding_id);
    let receipt = ImprovementReceipt::new(
        ReceiptSource::Heuristic,
        heuristic_disclosure,
        reference.as_str(),
    );
    detected(finding_id, file_path, OpportunityCategory::TestGap, receipt, rank, at)
}

/// A model's proposal; its receipt is marked as model-proposed.
pub fn model_proposed_opportunity(
    finding_id: &str,
    file_path: &str,
    proposal: &str,
    rank: OpportunityRank,
    at: &str,
) -> (r: Opportunity)
    ensures
        detected_as(r, finding_id@, file_path@, OpportunityCategory::ModelProposed, rank, at@),
        r.events@[0].receipt matches Some(x) && x.source == ReceiptSource::ModelProposed && x.summary@
            == proposal@ && x.reference@ == "model-proposal:"@ + finding_id@,
{
    let reference = String::from_str("model-proposal:").concat(finding_id);
    let receipt = ImprovementReceipt::new(ReceiptSource::ModelProposed, proposal, reference.as_str());
    detected(finding_id, file_path, OpportunityCategory::ModelProposed, receipt, rank, at)
}

/// The finding id of a report entry: `<file>:<start>-<end>@<head>`.
pub open spec fn report_finding_id(
    file_path: Seq<char>,
    start: usize,
    end: usize,
    head: Seq<char>,
) -> Seq<char> {
    file_path + ":"@ + spec_decimal(start as nat) + "-"@ + spec_decimal(end as nat) + "@"@ + head
}

pub open spec fn report_category(c: SiteReportCategory) -> OpportunityCategory {
    match c {
        SiteReportCategory::DeadWorkaround => OpportunityCategory::DeadWorkaround,
        SiteReportCategory::NoRationale => OpportunityCategory::MissingRationale,
        SiteReportCategory::UntestedCode => OpportunityCategory::TestGap,
    }
}

/// The receipt an entry's Opportunity carries: tooling receipts pointing at
/// the head commit or the finding's history, or a heuristic disclosure for
/// a test gap.
pub open spec fn report_receipt(
    c: SiteReportCategory,
    description: Seq<char>,
    finding_id: Seq<char>,
    head: Seq<char>,
) -> (ReceiptSource, Seq<char>, Seq<char>) {
    match c {
        SiteReportCategory::DeadWorkaround => (ReceiptSource::Tooling, description, "git:"@ + head),
        SiteReportCategory::NoRationale => (
            ReceiptSource::Tooling,
            description,
            "history:"@ + finding_id,
        ),
        SiteReportCategory::UntestedCode => (
            ReceiptSource::Heuristic,
            description + " This co-commit heuristic is not verified coverage."@,
            "heuristic:"@ + finding_id,
        ),
    }
}

/// One Opportunity per report entry, in order, each linked to its finding.
pub fn opportunities_from_report(report: &SiteReport, rank: OpportunityRank) -> (r: Vec<Opportunity>)
    ensures
        r@.len() == report.entries@.len(),
        forall|i: int|
            0 <= i < r@.len() ==> {
                let e = report.entries@[i];
                let fid = report_finding_id(
                    e.file_path@,
                    e.line_range.start,
                    e.line_range.end,
                    report.head_commit@,
                );
                &&& detected_as(
                    #[trigger] r@[i],
                    fid,
                    e.file_path@,
                    report_category(e.category),
                    rank,
                    report.generated_at@,
                )
                &&& r@[i].events@[0].receipt matches Some(x) && (x.source, x.summary@, x.reference@)
                    == report_receipt(e.category, e.description@, fid, report.head_commit@)
            },
{
    let mut out: Vec<Opportunity> = Vec::new();
    let mut i: usize = 0;
    while i < report.entries.len()
        invariant
            i <= report.entries@.len(),
            out@.len() == i,
            forall|j: int|
                0 <= j < i ==> {
                    let e = report.entries@[j];
                    let fid = report_finding_id(
                        e.file_path@,
                        e.line_range.start,
                        e.line_range.end,
                        report.head_commit@,
                    );
                    &&& detected_as(
                        #[trigger] out@[j],
                        fid,
                        e.file_path@,
                        report_category(e.category),
                        rank,
                        report.generated_at@,
                    )
                    &&& out@[j].events@[0].receipt matches Some(x) && (
                        x.source,
                        x.summary@,
                        x.reference@,
                    ) == report_receipt(e.category, e.description@, fid, report.head_commit@)
                },
        decreases report.entries.len() - i,
    {
        let entry = &report.entries[i];
        let finding_id = entry.file_path.clone().concat(":").concat(
            decimal(entry.line_range.start as u64).as_str(),
        ).concat("-").concat(decimal(entry.line_range.end as u64).as_str()).concat("@").concat(
            report.head_commit.as_str(),
        );
        let o = match entry.category {
            SiteReportCategory::DeadWorkaround => {
                let reference = String::from_str("git:").concat(report.head_commit.as_str());
                detect_dead_workaround(
                    finding_id.as_str(),
                    entry.file_path.as_str(),
                    ImprovementReceipt::new(
                        ReceiptSource::Tooling,
                        entry.description.as_str(),
                        reference.as_str(),
                    ),
                    rank,
                    report.generated_at.as_str(),
                )
            },
            SiteReportCategory::NoRationale => {
                let reference = String::from_str("history:").concat(finding_id.as_str());
                detect_missing_rationale(
                    finding_id.as_str(),
                    entry.file_path.as_str(),
                    ImprovementReceipt::new(
                        ReceiptSource::Tooling,
                        entry.description.as_str(),
                        reference.as_str(),
                    ),
                    rank,
                    report.generated_at.as_str(),
                )
            },
            SiteReportCategory::UntestedCode => {
                let disclosure = entry.description.clone().concat(
                    " This co-commit heuristic is not verified coverage.",
                );
                detect_test_gap(
                    finding_id.as_str(),
                    entry.file_path.as_str(),
                    disclosure.as_str(),
                    rank,
                    report.generated_at.as_str(),
                )
            },
        };
        out.push(o);
        i = i + 1;
    }
    out
}

// ---------------------------------------------------------------------------
// Ordering
// ---------------------------------------------------------------------------

pub open spec fn impact_rank(i: Impact) -> int {
    match i {
        Impact::Low => 0,
        Impact::Medium => 1,
        Impact::High => 2,
        Impact::Critical => 3,
    }
}

pub open spec fn verification_rank(v: Verification) -> int {
    match v {
        Verification::NotRun => 0,
        Verification::Failed => 1,
        Verification::Verified => 2,
    }
}

pub open spec fn effort_rank(e: Effort) -> int {
    match e {
        Effort::Small => 0,
        Effort::Medium => 1,
        Effort::Large => 2,
    }
}

/// `a` comes strictly before `b`: higher impact, then stronger verification,
/// then larger expected grade improvement, then smaller effort, then older,
/// then the smaller id. Each field is compared on its own.
pub open spec fn comes_before(a: Opportunity, b: Opportunity) -> bool {
    let (ia, ib) = (impact_rank(a.rank.impact), impact_rank(b.rank.impact));
    let (va, vb) = (verification_rank(a.rank.verification), verification_rank(b.rank.verification));
    let (ga, gb) = (a.rank.expected_grade_improvement, b.rank.expected_grade_improvement);
    let (ea, eb) = (effort_rank(a.rank.effort), effort_rank(b.rank.effort));
    let (aa, ab) = (a.rank.age_days, b.rank.age_days);
    ||| ia > ib
    ||| ia == ib && va > vb
    ||| ia == ib && va == vb && ga > gb
    ||| ia == ib && va == vb && ga == gb && ea < eb
    ||| ia == ib && va == vb && ga == gb && ea == eb && aa > ab
    ||| ia == ib && va == vb && ga == gb && ea == eb && aa == ab && seq_lt(a.id@, b.id@)
}

pub open spec fn order_position(s: Seq<Opportunity>, x: Opportunity) -> int
    decreases s.len(),
{
    if s.len() == 0 {
        0
    } else if comes_before(x, s[0]) {
        0
    } else {
        1 + order_position(s.drop_first(), x)
    }
}

/// Stable sort by `comes_before`, as insertion sort defines it.
pub open spec fn ordered(s: Seq<Opportunity>) -> Seq<Opportunity>
    decreases s.len(),
{
    if s.len() == 0 {
        Seq::empty()
    } else {
        let prev = ordered(s.drop_last());
        prev.insert(order_position(prev, s.last()), s.last())
    }
}

proof fn lemma_order_position(s: Seq<Opportunity>, x: Opportunity, k: int)
    requires
        0 <= k <= s.len(),
        forall|j: int| 0 <= j < k ==> !comes_before(x, #[trigger] s[j]),
        k == s.len() || comes_before(x, s[k]),
    ensures
        order_position(s, x) == k,
    decreases k,
{
    if k > 0 {
        assert forall|j: int| 0 <= j < k - 1 implies !comes_before(x, #[trigger] s.drop_first()[j]) by {
            assert(s.drop_first()[j] == s[j + 1]);
        }
        if k < s.len() {
            assert(s.drop_first()[k - 1] == s[k]);
        }
        lemma_order_position(s.drop_first(), x, k - 1);
    }
}

proof fn lemma_order_position_bounds(s: Seq<Opportunity>, x: Opportunity)
    ensures
        0 <= order_position(s, x) <= s.len(),
    decreases s.len(),
{
    if s.len() > 0 {
        lemma_order_position_bounds(s.drop_first(), x);
    }
}

proof fn lemma_ordered_len(s: Seq<Opportunity>)
    ensures
        ordered(s).len() == s.len(),
    decreases s.len(),
{
    if s.len() > 0 {
        lemma_ordered_len(s.drop_last());
        lemma_order_position_bounds(ordered(s.drop_last()), s.last());
    }
}

fn impact_num(i: Impact) -> (r: u8)
    ensures
        r == impact_rank(i),
{
    match i {
        Impact::Low => 0,
        Impact::Medium => 1,
        Impact::High => 2,
        Impact::Critical => 3,
    }
}

fn verification_num(v: Verification) -> (r: u8)
    ensures
        r == verification_rank(v),
{
    match v {
        Verification::NotRun => 0,
        Verification::Failed => 1,
        Verification::Verified => 2,
    }
}

fn effort_num(e: Effort) -> (r: u8)
    ensures
        r == effort_rank(e),
{
    match e {
        Effort::Small => 0,
        Effort::Medium => 1,
        Effort::Large => 2,
    }
}

fn goes_before(a: &Opportunity, b: &Opportunity) -> (r: bool)
    ensures
        r == comes_before(*a, *b),
{
    let (ia, ib) = (impact_num(a.rank.impact), impact_num(b.rank.impact));
    if ia != ib {
        return ia > ib;
    }
    let (va, vb) = (verification_num(a.rank.verification), verification_num(b.rank.verification));
    if va != vb {
        return va > vb;
    }
    let (ga, gb) = (a.rank.expected_grade_improvement, b.rank.expected_grade_improvement);
    if ga != gb {
        return ga > gb;
    }
    let (ea, eb) = (effort_num(a.rank.effort), effort_num(b.rank.effort));
    if ea != eb {
        return ea < eb;
    }
    if a.rank.age_days != b.rank.age_days {
        return a.rank.age_days > b.rank.age_days;
    }
    str_lt(a.id.as_str(), b.id.as_str())
}

/// Orders Opportunities by their separate ranking fields, keeping the given
/// order among equals.
pub fn order_opportunities(opportunities: Vec<Opportunity>) -> (r: Vec<Opportunity>)
    ensures
        r@ == ordered(opportunities@),
{
    let ghost input = opportunities@;
    let n = opportunities.len();
    let mut rest = opportunities;
    let mut out: Vec<Opportunity> = Vec::new();
    let mut i: usize = 0;
    assert(input.take(0) =~= Seq::<Opportunity>::empty());
    while rest.len() > 0
        invariant
            i + rest@.len() == input.len(),
            input.len() == n,
            rest@ == input.skip(i as int),
            out@ == ordered(input.take(i as int)),
        decreases rest.len(),
    {
        let x = rest.remove(0);
        let mut k: usize = 0;
        proof {
            lemma_ordered_len(input.take(i as int));
            assert(x == input[i as int]);
        }
        while k < out.len() && !goes_before(&x, &out[k])
            invariant
                k <= out.len(),
                forall|j: int| 0 <= j < k ==> !comes_before(x, #[trigger] out@[j]),
            decreases out.len() - k,
        {
            k = k + 1;
        }
        proof {
            lemma_order_position(out@, x, k as int);
            let t = input.take(i + 1);
            assert(t.drop_last() =~= input.take(i as int));
            assert(t.last() == x);
            assert(rest@ =~= input.skip(i + 1));
        }
        out.insert(k, x);
        i = i + 1;
    }
    assert(input.take(input.len() as int) =~= input);
    out
}

/// Ordering neither loses nor invents Opportunities: the ordered list holds
/// exactly the given ones, each as often.
pub proof fn law_ordering_is_a_permutation(s: Seq<Opportunity>)
    ensures
        ordered(s).to_multiset() == s.to_multiset(),
    decreases s.len(),
{
    if s.len() > 0 {
        let prev = ordered(s.drop_last());
        law_ordering_is_a_permutation(s.drop_last());
        lemma_order_position_bounds(prev, s.last());
        vstd::seq_lib::to_multiset_insert(prev, order_position(prev, s.last()), s.last());
        vstd::seq_lib::to_multiset_build(s.drop_last(), s.last());
        assert(s.drop_last().push(s.last()) =~= s);
        assert(ordered(s) == prev.insert(order_position(prev, s.last()), s.last()));
    } else {
        assert(ordered(s) =~= s);
    }
}

proof fn lemma_comes_before_order(a: Opportunity, b: Opportunity, c: Opportunity)
    ensures
        !(comes_before(a, b) && comes_before(b, a)),
        comes_before(a, b) && comes_before(b, c) ==> comes_before(a, c),
{
    lemma_seq_lt_asymmetric(a.id@, b.id@);
    if seq_lt(a.id@, b.id@) && seq_lt(b.id@, c.id@) {
        lemma_seq_lt_transitive(a.id@, b.id@, c.id@);
    }
}

proof fn lemma_order_position_facts(s: Seq<Opportunity>, x: Opportunity)
    ensures
        forall|j: int| 0 <= j < order_position(s, x) ==> !comes_before(x, #[trigger] s[j]),
        order_position(s, x) < s.len() ==> comes_before(x, s[order_position(s, x)]),
    decreases s.len(),
{
    lemma_order_position_bounds(s, x);
    if s.len() > 0 && !comes_before(x, s[0]) {
        lemma_order_position_facts(s.drop_first(), x);
        lemma_order_position_bounds(s.drop_first(), x);
        assert forall|j: int| 0 <= j < order_position(s, x) implies !comes_before(x, #[trigger] s[j]) by {
            if j > 0 {
                assert(s[j] == s.drop_first()[j - 1]);
            }
        }
        if order_position(s, x) < s.len() {
            assert(s[order_position(s, x)] == s.drop_first()[order_position(s.drop_first(), x)]);
        }
    }
}

/// The order of the list: no Opportunity comes strictly before one placed
/// ahead of it.
pub proof fn law_ordering_is_sorted(s: Seq<Opportunity>)
    ensures
        forall|i: int, j: int|
            0 <= i < j < ordered(s).len() ==> !comes_before(#[trigger] ordered(s)[j], #[trigger] ordered(s)[i]),
    decreases s.len(),
{
    if s.len() > 0 {
        let prev = ordered(s.drop_last());
        let x = s.last();
        let k = order_position(prev, x);
        law_ordering_is_sorted(s.drop_last());
        lemma_order_position_bounds(prev, x);
        lemma_order_position_facts(prev, x);
        let out = prev.insert(k, x);
        assert forall|i: int, j: int| 0 <= i < j < out.len() implies !comes_before(
            #[trigger] out[j],
            #[trigger] out[i],
        ) by {
            if j < k {
                assert(out[i] == prev[i] && out[j] == prev[j]);
            } else if j == k {
                assert(out[i] == prev[i]);
            } else if i == k {
                assert(out[j] == prev[j - 1]);
                lemma_comes_before_order(prev[j - 1], x, prev[k]);
                if j - 1 > k {
                    assert(!comes_before(prev[j - 1], prev[k]));
                }
            } else if i < k {
                assert(out[i] == prev[i] && out[j] == prev[j - 1]);
            } else {
                assert(out[i] == prev[i - 1] && out[j] == prev[j - 1]);
            }
        }
    }
}

/// The ordering compares each ranking field on its own, most important
/// first: for every earlier Opportunity `i` and later `j` of the ordering,
/// `i` has at least `j`'s impact; with the same impact, at least `j`'s
/// verification; with the same impact and verification, at least `j`'s
/// expected grade improvement; with those three the same, no more effort;
/// with those four the same, at least `j`'s age; and with the whole ranking
/// the same, `i`'s id does not sort after `j`'s.
pub proof fn law_ordering_compares_fields_in_turn(s: Seq<Opportunity>)
    ensures
        forall|i: int, j: int|
            0 <= i < j < ordered(s).len() ==> {
                let (a, b) = (#[trigger] ordered(s)[i], #[trigger] ordered(s)[j]);
                &&& impact_rank(a.rank.impact) >= impact_rank(b.rank.impact)
                &&& a.rank.impact == b.rank.impact ==> verification_rank(a.rank.verification)
                    >= verification_rank(b.rank.verification)
                &&& a.rank.impact == b.rank.impact && a.rank.verification == b.rank.verification
                    ==> a.rank.expected_grade_improvement >= b.rank.expected_grade_improvement
                &&& a.rank.impact == b.rank.impact && a.rank.verification == b.rank.verification
                    && a.rank.expected_grade_improvement == b.rank.expected_grade_improvement
                    ==> effort_rank(a.rank.effort) <= effort_rank(b.rank.effort)
                &&& a.rank.impact == b.rank.impact && a.rank.verification == b.rank.verification
                    && a.rank.expected_grade_improvement == b.rank.expected_grade_improvement
                    && a.rank.effort == b.rank.effort ==> a.rank.age_days >= b.rank.age_days
                &&& a.rank == b.rank ==> !seq_lt(b.id@, a.id@)
            },
{
    law_ordering_is_sorted(s);
    assert forall|i: int, j: int| 0 <= i < j < ordered(s).len() implies {
        let (a, b) = (#[trigger] ordered(s)[i], #[trigger] ordered(s)[j]);
        &&& impact_rank(a.rank.impact) >= impact_rank(b.rank.impact)
        &&& a.rank.impact == b.rank.impact ==> verification_rank(a.rank.verification)
            >= verification_rank(b.rank.verification)
        &&& a.rank.impact == b.rank.impact && a.rank.verification == b.rank.verification
            ==> a.rank.expected_grade_improvement >= b.rank.expected_grade_improvement
        &&& a.rank.impact == b.rank.impact && a.rank.verification == b.rank.verification
            && a.rank.expected_grade_improvement == b.rank.expected_grade_improvement
            ==> effort_rank(a.rank.effort) <= effort_rank(b.rank.effort)
        &&& a.rank.impact == b.rank.impact && a.rank.verification == b.rank.verification
            && a.rank.expected_grade_improvement == b.rank.expected_grade_improvement
            && a.rank.effort == b.rank.effort ==> a.rank.age_days >= b.rank.age_days
        &&& a.rank == b.rank ==> !seq_lt(b.id@, a.id@)
    } by {
        let (a, b) = (ordered(s)[i], ordered(s)[j]);
        assert(!comes_before(b, a));
        assert(impact_rank(a.rank.impact) == impact_rank(b.rank.impact) ==> a.rank.impact
            == b.rank.impact);
        assert(verification_rank(a.rank.verification) == verification_rank(b.rank.verification)
            ==> a.rank.verification == b.rank.verification);
        assert(effort_rank(a.rank.effort) == effort_rank(b.rank.effort) ==> a.rank.effort
            == b.rank.effort);
    }
}

} // verus!
