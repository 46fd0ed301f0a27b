use vstd::prelude::*;

use crate::candidate::{CandidateError, GitFingerprint};
use crate::command::{clone_strings, CommandOutcome, IsolatedCommand, IsolationError};
use crate::text::{spec_trim, str_eq, trim};

verus! {

#[derive(Debug, PartialEq, Eq)]
pub enum ReceiptError {
    UnknownCandidate(String),
    Candidate(CandidateError),
    Isolation(IsolationError),
}

impl ReceiptError {
    pub open spec fn spec_message(&self) -> Seq<char> {
        match *self {
            ReceiptError::UnknownCandidate(id) => "unknown queued candidate: "@ + id@,
            ReceiptError::Candidate(e) => e.spec_message(),
            ReceiptError::Isolation(e) => e.spec_message(),
        }
    }

    /// The error as a sentence.
    pub fn message(&self) -> (r: String)
        ensures
            r@ == self.spec_message(),
    {
        match self {
            ReceiptError::UnknownCandidate(id) => String::from_str(
                "unknown queued candidate: ",
            ).concat(id.as_str()),
            ReceiptError::Candidate(e) => e.message(),
            ReceiptError::Isolation(e) => e.message(),
        }
    }
}

/// A named check run against a disposable clone.
#[derive(Debug, PartialEq, Eq)]
pub struct Check {
    pub name: String,
    pub command: IsolatedCommand,
}

impl Check {
    pub fn new(name: &str, command: IsolatedCommand) -> (r: Self)
        ensures
            r.name@ == name@,
            r.command == command,
    {
        Check { name: name.to_owned(), command }
    }
}

/// One check as measured on a clone.
#[derive(Debug, PartialEq, Eq)]
pub struct CheckRecord {
    pub name: String,
    pub program: String,
    pub args: Vec<String>,
    pub proved: bool,
    pub outcome: CommandOutcome,
    pub detail: String,
}

impl Clone for CheckRecord {
    fn clone(&self) -> (r: Self)
        ensures
            r.name == self.name,
            r.program == self.program,
            r.args@ == self.args@,
            r.proved == self.proved,
            r.outcome == self.outcome,
            r.detail == self.detail,
    {
        CheckRecord {
            name: self.name.clone(),
            program: self.program.clone(),
            args: clone_strings(&self.args),
            proved: self.proved,
            outcome: self.outcome,
            detail: self.detail.clone(),
        }
    }
}

/// Baseline-versus-candidate measurement of one check.
#[derive(Debug, Clone, PartialEq, Eq)]
pub struct CheckComparison {
    pub name: String,
    pub baseline: CheckRecord,
    pub candidate: CheckRecord,
}

/// Whether the prepared change improved the measured checks.
#[derive(Debug, Clone, Copy, PartialEq, Eq, Structural)]
pub enum ReceiptVerdict {
    Improved,
    Failed,
}

/// What a prepared change improved, which checks prove it, and what
/// remains.
#[derive(Debug, Clone, PartialEq, Eq)]
pub struct ImprovementReceipt {
    pub base_commit: String,
    pub improved: Vec<String>,
    pub proving_checks: Vec<String>,
    pub remaining: Vec<String>,
    pub comparisons: Vec<CheckComparison>,
    pub verdict: ReceiptVerdict,
    pub project_fingerprint: GitFingerprint,
}

/// The text a check leaves: its trimmed output, or its trimmed error output
/// when there is no output, or both on two lines.
pub open spec fn spec_check_detail(stdout: Seq<char>, stderr: Seq<char>) -> Seq<char> {
    if spec_trim(stderr).len() == 0 {
        spec_trim(stdout)
    } else if spec_trim(stdout).len() == 0 {
        spec_trim(stderr)
    } else {
        spec_trim(stdout) + seq!['\n'] + spec_trim(stderr)
    }
}

/// The detail recorded for a check.
pub fn check_detail(stdout: &str, stderr: &str) -> (r: String)
    ensures
        r@ == spec_check_detail(stdout@, stderr@),
{
    let out = trim(stdout);
    let err = trim(stderr);
    if err.as_str().is_empty() {
        out
    } else if out.as_str().is_empty() {
        err
    } else {
        let mut r = out;
        r.append("\n");
        r.append(err.as_str());
        proof {
            reveal_strlit("\n");
        }
        r
    }
}

/// The record of one check: it proves the change when the command
/// succeeded.
pub fn check_record(
    name: &str,
    program: String,
    args: Vec<String>,
    outcome: CommandOutcome,
    stdout: &str,
    stderr: &str,
) -> (r: CheckRecord)
    ensures
        r.name@ == name@,
        r.program == program,
        r.args == args,
        r.proved == (outcome == CommandOutcome::Succeeded),
        r.outcome == outcome,
        r.detail@ == spec_check_detail(stdout@, stderr@),
{
    CheckRecord {
        name: name.to_owned(),
        program,
        args,
        proved: outcome == CommandOutcome::Succeeded,
        outcome,
        detail: check_detail(stdout, stderr),
    }
}

pub open spec fn outcome_label(o: CommandOutcome) -> Seq<char> {
    match o {
        CommandOutcome::Succeeded => "Succeeded"@,
        CommandOutcome::Failed => "Failed"@,
        CommandOutcome::TimedOut => "TimedOut"@,
        CommandOutcome::OutputLimited => "OutputLimited"@,
        CommandOutcome::CpuLimited => "CpuLimited"@,
    }
}

pub(crate) fn outcome_name(o: CommandOutcome) -> (r: &'static str)
    ensures
        r@ == outcome_label(o),
{
    match o {
        CommandOutcome::Succeeded => "Succeeded",
        CommandOutcome::Failed => "Failed",
        CommandOutcome::TimedOut => "TimedOut",
        CommandOutcome::OutputLimited => "OutputLimited",
        CommandOutcome::CpuLimited => "CpuLimited",
    }
}

pub open spec fn improved_line(name: Seq<char>) -> Seq<char> {
    name + " now proves the prepared change; the baseline did not"@
}

pub open spec fn remaining_line(name: Seq<char>, o: CommandOutcome) -> Seq<char> {
    name + " did not prove the prepared change ("@ + outcome_label(o) + ")"@
}

/// The receipt's lists after the first `n` pairs of records: checks the
/// candidate proves (and, among them, those the baseline did not), and
/// checks it does not prove.
pub open spec fn receipt_lists(
    baseline: Seq<CheckRecord>,
    candidate: Seq<CheckRecord>,
    n: int,
) -> (Seq<Seq<char>>, Seq<Seq<char>>, Seq<Seq<char>>)
    decreases n,
{
    if n <= 0 {
        (Seq::empty(), Seq::empty(), Seq::empty())
    } else {
        let (improved, proving, remaining) = receipt_lists(baseline, candidate, n - 1);
        let b = baseline[n - 1];
        let c = candidate[n - 1];
        if c.proved {
            (
                if !b.proved {
                    improved.push(improved_line(c.name@))
                } else {
                    improved
                },
                proving.push(c.name@),
                remaining,
            )
        } else {
            (improved, proving, remaining.push(remaining_line(c.name@, c.outcome)))
        }
    }
}

pub open spec fn text_views(v: Seq<String>) -> Seq<Seq<char>> {
    v.map_values(|s: String| s@)
}

/// The receipt of a baseline and a candidate measured with the same checks,
/// paired in order (extra records on either side are ignored). The change
/// improved the Project when every check proves it and at least one did not
/// prove the baseline.
pub fn build_receipt(
    fingerprint: GitFingerprint,
    baseline: Vec<CheckRecord>,
    candidate: Vec<CheckRecord>,
) -> (r: ImprovementReceipt)
    ensures
        ({
            let n = if baseline@.len() < candidate@.len() {
                baseline@.len()
            } else {
                candidate@.len()
            };
            let (improved, proving, remaining) = receipt_lists(baseline@, candidate@, n as int);
            &&& text_views(r.improved@) == improved
            &&& text_views(r.proving_checks@) == proving
            &&& text_views(r.remaining@) == remaining
            &&& r.comparisons@.len() == n
            &&& forall|i: int|
                0 <= i < n ==> {
                    &&& (#[trigger] r.comparisons@[i]).name == candidate@[i].name
                    &&& r.comparisons@[i].baseline == baseline@[i]
                    &&& r.comparisons@[i].candidate == candidate@[i]
                }
            &&& r.verdict == if remaining.len() == 0 && improved.len() > 0 {
                ReceiptVerdict::Improved
            } else {
                ReceiptVerdict::Failed
            }
            &&& r.base_commit == fingerprint.head
            &&& r.project_fingerprint == fingerprint
        }),
{
    let n = if baseline.len() < candidate.len() {
        baseline.len()
    } else {
        candidate.len()
    };
    let ghost bs = baseline@;
    let ghost cs = candidate@;
    let mut improved: Vec<String> = Vec::new();
    let mut proving_checks: Vec<String> = Vec::new();
    let mut remaining: Vec<String> = Vec::new();
    let mut comparisons: Vec<CheckComparison> = Vec::new();
    let mut baseline = baseline;
    let mut candidate = candidate;
    baseline.truncate(n);
    candidate.truncate(n);
    let mut bs_rest: Vec<CheckRecord> = Vec::new();
    let mut cs_rest: Vec<CheckRecord> = Vec::new();
    // Take the records out from the back, so that they can be moved into
    // the comparisons in order.
    while baseline.len() > 0
        invariant
            baseline@.len() == candidate@.len(),
            baseline@.len() + bs_rest@.len() == n,
            cs_rest@.len() == bs_rest@.len(),
            n <= bs.len(),
            n <= cs.len(),
            forall|k: int| 0 <= k < baseline@.len() ==> baseline@[k] == bs[k],
            forall|k: int| 0 <= k < candidate@.len() ==> candidate@[k] == cs[k],
            forall|k: int| 0 <= k < bs_rest@.len() ==> bs_rest@[k] == bs[n - 1 - k],
            forall|k: int| 0 <= k < cs_rest@.len() ==> cs_rest@[k] == cs[n - 1 - k],
        decreases baseline@.len(),
    {
        let b = baseline.pop().unwrap();
        let c = candidate.pop().unwrap();
        bs_rest.push(b);
        cs_rest.push(c);
    }
    let mut i: usize = 0;
    while i < n
        invariant
            i <= n,
            n <= bs.len(),
            n <= cs.len(),
            bs_rest@.len() == n - i,
            cs_rest@.len() == n - i,
            forall|k: int| 0 <= k < bs_rest@.len() ==> bs_rest@[k] == bs[n - 1 - k],
            forall|k: int| 0 <= k < cs_rest@.len() ==> cs_rest@[k] == cs[n - 1 - k],
            ({
                let (im, pr, re) = receipt_lists(bs, cs, i as int);
                &&& text_views(improved@) == im
                &&& text_views(proving_checks@) == pr
                &&& text_views(remaining@) == re
            }),
            comparisons@.len() == i,
            forall|k: int|
                0 <= k < i ==> {
                    &&& (#[trigger] comparisons@[k]).name == cs[k].name
                    &&& comparisons@[k].baseline == bs[k]
                    &&& comparisons@[k].candidate == cs[k]
                },
        decreases n - i,
    {
        let b = bs_rest.pop().unwrap();
        let c = cs_rest.pop().unwrap();
        assert(b == bs[i as int]);
        assert(c == cs[i as int]);
        let ghost before_im = improved@;
        let ghost before_pr = proving_checks@;
        let ghost before_re = remaining@;
        let name = c.name.clone();
        if c.proved {
            proving_checks.push(name.clone());
            assert(text_views(proving_checks@) =~= text_views(before_pr).push(c.name@));
            if !b.proved {
                let line = name.clone().concat(" now proves the prepared change; the baseline did not");
                improved.push(line);
                assert(text_views(improved@) =~= text_views(before_im).push(improved_line(c.name@)));
            }
        } else {
            let line = name.clone().concat(" did not prove the prepared change (").concat(
                outcome_name(c.outcome),
            ).concat(")");
            remaining.push(line);
            assert(text_views(remaining@) =~= text_views(before_re).push(
                remaining_line(c.name@, c.outcome),
            ));
        }
        comparisons.push(CheckComparison { name, baseline: b, candidate: c });
        i = i + 1;
    }
    let verdict = if remaining.len() == 0 && improved.len() > 0 {
        ReceiptVerdict::Improved
    } else {
        ReceiptVerdict::Failed
    };
    ImprovementReceipt {
        base_commit: fingerprint.head.clone(),
        improved,
        proving_checks,
        remaining,
        comparisons,
        verdict,
        project_fingerprint: fingerprint,
    }
}

// ---------------------------------------------------------------------------
// The improvement queue
// ---------------------------------------------------------------------------

#[derive(Debug, Clone, Copy, PartialEq, Eq, Structural)]
pub enum QueueStatus {
    Queued,
    Prepared,
    Failed,
    Verified,
}

/// A prepared change waiting in the queue.
#[derive(Debug, PartialEq, Eq)]
pub struct QueuedCandidate {
    pub id: String,
    pub status: QueueStatus,
    pub receipt: Option<ImprovementReceipt>,
}

/// Prepared changes in the order they were queued. A failed candidate stays
/// queued rather than resolving.
#[derive(Debug, Default)]
pub struct ImprovementQueue {
    items: Vec<QueuedCandidate>,
}

/// Index of the first item from `i` on with id `id`, or the number of
/// items.
pub open spec fn first_with_id(items: Seq<QueuedCandidate>, id: Seq<char>, i: int) -> int
    decreases items.len() - i,
{
    if i < 0 || i >= items.len() {
        items.len() as int
    } else if items[i].id@ == id {
        i
    } else {
        first_with_id(items, id, i + 1)
    }
}

/// The queue status that a receipt's verdict gives.
pub open spec fn status_for(v: ReceiptVerdict) -> QueueStatus {
    match v {
        ReceiptVerdict::Improved => QueueStatus::Verified,
        ReceiptVerdict::Failed => QueueStatus::Failed,
    }
}

proof fn lemma_first_with_id_after_update(
    items: Seq<QueuedCandidate>,
    id: Seq<char>,
    c: QueuedCandidate,
    i: int,
    k: int,
)
    requires
        0 <= i <= k < items.len(),
        first_with_id(items, id, i) == k,
        c.id@ == id,
    ensures
        first_with_id(items.update(k, c), id, i) == k,
    decreases k - i,
{
    if i < k {
        assert(items.update(k, c)[i] == items[i]);
        lemma_first_with_id_after_update(items, id, c, i + 1, k);
    }
}

/// Recording a receipt, whatever its verdict, leaves the candidate queued
/// under its id, at the place it had, and the queue as long as it was: a
/// failed candidate is not resolved.
pub proof fn law_receipt_keeps_candidate_queued(
    items: Seq<QueuedCandidate>,
    id: Seq<char>,
    receipt: ImprovementReceipt,
)
    requires
        first_with_id(items, id, 0) < items.len(),
    ensures
        ({
            let k = first_with_id(items, id, 0);
            let after = items.update(
                k,
                QueuedCandidate { id: items[k].id, status: status_for(receipt.verdict), receipt: Some(receipt) },
            );
            &&& after.len() == items.len()
            &&& first_with_id(after, id, 0) == k
            &&& after[k].status == status_for(receipt.verdict)
        }),
{
    let k = first_with_id(items, id, 0);
    lemma_first_with_id_is_match(items, id, 0);
    let c = QueuedCandidate { id: items[k].id, status: status_for(receipt.verdict), receipt: Some(receipt) };
    lemma_first_with_id_after_update(items, id, c, 0, k);
}

/// The queue after a receipt is recorded for `id`: the first candidate
/// queued under `id` takes the receipt and the status its verdict gives;
/// with no such candidate nothing changes.
pub open spec fn recorded(items: Seq<QueuedCandidate>, id: Seq<char>, receipt: ImprovementReceipt) -> Seq<
    QueuedCandidate,
> {
    let k = first_with_id(items, id, 0);
    if k < items.len() {
        items.update(
            k,
            QueuedCandidate { id: items[k].id, status: status_for(receipt.verdict), receipt: Some(receipt) },
        )
    } else {
        items
    }
}

/// The queue after receipts are recorded one after another.
pub open spec fn after_receipts(
    items: Seq<QueuedCandidate>,
    records: Seq<(Seq<char>, ImprovementReceipt)>,
) -> Seq<QueuedCandidate>
    decreases records.len(),
{
    if records.len() == 0 {
        items
    } else {
        let prev = after_receipts(items, records.drop_last());
        recorded(prev, records.last().0, records.last().1)
    }
}

proof fn lemma_same_ids_same_first(a: Seq<QueuedCandidate>, b: Seq<QueuedCandidate>, x: Seq<char>, i: int)
    requires
        a.len() == b.len(),
        forall|j: int| 0 <= j < a.len() ==> #[trigger] a[j].id == b[j].id,
    ensures
        first_with_id(a, x, i) == first_with_id(b, x, i),
    decreases a.len() - i,
{
    if 0 <= i < a.len() {
        assert(a[i].id == b[i].id);
        lemma_same_ids_same_first(a, b, x, i + 1);
    }
}

/// Recording receipts, any number of them, for any ids and with any verdict,
/// never takes a candidate off the queue or puts one on it: the queue keeps
/// its length and the ids at every place, so an id is queued (and not
/// resolved) afterwards exactly when it was before. A failed candidate
/// stays queued however often it is compared.
pub proof fn law_receipts_never_dequeue(
    items: Seq<QueuedCandidate>,
    records: Seq<(Seq<char>, ImprovementReceipt)>,
    x: Seq<char>,
)
    ensures
        after_receipts(items, records).len() == items.len(),
        forall|j: int| 0 <= j < items.len() ==> #[trigger] after_receipts(items, records)[j].id == items[j].id,
        first_with_id(after_receipts(items, records), x, 0) == first_with_id(items, x, 0),
    decreases records.len(),
{
    if records.len() > 0 {
        law_receipts_never_dequeue(items, records.drop_last(), x);
        let prev = after_receipts(items, records.drop_last());
        let next = recorded(prev, records.last().0, records.last().1);
        let id = records.last().0;
        let receipt = records.last().1;
        let k = first_with_id(prev, id, 0);
        if k < prev.len() {
            lemma_first_with_id_is_match(prev, id, 0);
            let c = QueuedCandidate { id: prev[k].id, status: status_for(receipt.verdict), receipt: Some(receipt) };
            assert(next == prev.update(k, c));
        } else {
            assert(next == prev);
        }
        assert(next.len() == prev.len());
        assert forall|j: int| 0 <= j < items.len() implies #[trigger] next[j].id == items[j].id by {
            assert(prev[j].id == items[j].id);
            if k < prev.len() && j == k {
                assert(next[j].id == prev[k].id);
            } else {
                assert(next[j] == prev[j]);
            }
        }
        lemma_same_ids_same_first(next, items, x, 0);
    }
}

proof fn lemma_first_with_id_is_match(items: Seq<QueuedCandidate>, id: Seq<char>, i: int)
    requires
        0 <= i,
        first_with_id(items, id, i) < items.len(),
    ensures
        i <= first_with_id(items, id, i),
        items[first_with_id(items, id, i)].id@ == id,
    decreases items.len() - i,
{
    if i < items.len() && items[i].id@ != id {
        lemma_first_with_id_is_match(items, id, i + 1);
    }
}

impl ImprovementQueue {
    pub closed spec fn spec_items(&self) -> Seq<QueuedCandidate> {
        self.items@
    }

    pub fn new() -> (r: Self)
        ensures
            r.spec_items().len() == 0,
    {
        ImprovementQueue { items: Vec::new() }
    }

    fn position(&self, id: &str) -> (r: usize)
        ensures
            r == first_with_id(self.spec_items(), id@, 0),
            r <= self.spec_items().len(),
    {
        let mut i: usize = 0;
        while i < self.items.len()
            invariant
                i <= self.items.len(),
                first_with_id(self.items@, id@, 0) == first_with_id(self.items@, id@, i as int),
            decreases self.items.len() - i,
        {
            if str_eq(self.items[i].id.as_str(), id) {
                return i;
            }
            i = i + 1;
        }
        i
    }

    /// Queues a candidate; it is appended with no receipt yet.
    pub fn enqueue(&mut self, id: &str) -> (r: &QueuedCandidate)
        ensures
            final(self).spec_items().len() == old(self).spec_items().len() + 1,
            final(self).spec_items().drop_last() == old(self).spec_items(),
            r.id@ == id@,
            r.status == QueueStatus::Queued,
            r.receipt is None,
            *r == final(self).spec_items().last(),
    {
        self.items.push(QueuedCandidate { id: id.to_owned(), status: QueueStatus::Queued, receipt: None });
        assert(self.items@.drop_last() =~= old(self).items@);
        let k = self.items.len() - 1;
        &self.items[k]
    }

    /// The first candidate queued under `id`.
    pub fn get(&self, id: &str) -> (r: Option<&QueuedCandidate>)
        ensures
            match r {
                Some(c) => {
                    let k = first_with_id(self.spec_items(), id@, 0);
                    k < self.spec_items().len() && *c == self.spec_items()[k]
                },
                None => first_with_id(self.spec_items(), id@, 0) == self.spec_items().len(),
            },
    {
        let k = self.position(id);
        if k < self.items.len() {
            Some(&self.items[k])
        } else {
            None
        }
    }

    pub fn is_queued(&self, id: &str) -> (r: bool)
        ensures
            r == (first_with_id(self.spec_items(), id@, 0) < self.spec_items().len()),
    {
        self.position(id) < self.items.len()
    }

    pub fn is_resolved(&self, id: &str) -> (r: bool)
        ensures
            r == (first_with_id(self.spec_items(), id@, 0) == self.spec_items().len()),
    {
        self.position(id) == self.items.len()
    }

    /// Attaches a receipt to a queued candidate: it becomes Verified when the
    /// change improved the Project and Failed otherwise, and stays queued
    /// either way. Unknown ids are refused.
    pub fn record_receipt(&mut self, id: &str, receipt: ImprovementReceipt) -> (r: Result<
        (),
        ReceiptError,
    >)
        ensures
            ({
                let k = first_with_id(old(self).spec_items(), id@, 0);
                &&& k == old(self).spec_items().len() ==> (r matches Err(
                    ReceiptError::UnknownCandidate(m),
                ) && m@ == id@ && final(self).spec_items() == old(self).spec_items())
                &&& k < old(self).spec_items().len() ==> {
                    &&& r is Ok
                    &&& final(self).spec_items() == old(self).spec_items().update(
                        k,
                        QueuedCandidate {
                            id: old(self).spec_items()[k].id,
                            status: status_for(receipt.verdict),
                            receipt: Some(receipt),
                        },
                    )
                }
            }),
            final(self).spec_items() == recorded(old(self).spec_items(), id@, receipt),
    {
        let k = self.position(id);
        if k >= self.items.len() {
            return Err(ReceiptError::UnknownCandidate(id.to_owned()));
        }
        let status = match receipt.verdict {
            ReceiptVerdict::Improved => QueueStatus::Verified,
            ReceiptVerdict::Failed => QueueStatus::Failed,
        };
        let old_id = self.items[k].id.clone();
        self.items.set(k, QueuedCandidate { id: old_id, status, receipt: Some(receipt) });
        Ok(())
    }
}

} // verus!
