use vstd::prelude::*;

use crate::grade::{DimensionGrade, QualityDimension, QualityGrade};
use crate::opportunity::Opportunity;
use crate::site::Site;

verus! {

#[derive(Debug, Clone, Copy, PartialEq, Eq, Structural)]
pub struct DimensionDelta {
    pub dimension: QualityDimension,
    pub score_delta: i16,
}

/// A graded assessment of a Project at one commit, compared with a baseline.
#[derive(Debug)]
pub struct ProjectAssessment {
    pub project_path: String,
    pub commit_sha: String,
    pub assessed_at: String,
    pub grade: QualityGrade,
    pub opportunities: Vec<Opportunity>,
    pub baseline_commit_sha: Option<String>,
    pub overall_delta: Option<i16>,
    pub dimension_deltas: Vec<DimensionDelta>,
}

#[derive(Debug, Clone, Copy, PartialEq, Eq, Structural)]
pub enum AssessmentError {
    NoHeadCommit,
}

impl AssessmentError {
    pub fn message(&self) -> (r: String)
        ensures
            r@ == "Project has no HEAD commit to assess"@,
    {
        String::from_str("Project has no HEAD commit to assess")
    }
}

/// The score a baseline gives a dimension (its last grade of that dimension).
pub open spec fn baseline_score(dims: Seq<DimensionGrade>, d: QualityDimension) -> Option<u8>
    decreases dims.len(),
{
    if dims.len() == 0 {
        None
    } else if dims.last().dimension == d {
        Some(dims.last().score)
    } else {
        baseline_score(dims.drop_last(), d)
    }
}

/// Per-dimension change against the baseline, for dimensions graded in both,
/// in the current grade's order.
pub open spec fn deltas(current: Seq<DimensionGrade>, base: Seq<DimensionGrade>) -> Seq<DimensionDelta>
    decreases current.len(),
{
    if current.len() == 0 {
        Seq::empty()
    } else {
        let prev = deltas(current.drop_last(), base);
        let d = current.last();
        match baseline_score(base, d.dimension) {
            Some(b) => prev.push(
                DimensionDelta { dimension: d.dimension, score_delta: (d.score - b) as i16 },
            ),
            None => prev,
        }
    }
}

pub open spec fn overall_change(current: Option<u8>, previous: Option<u8>) -> Option<i16> {
    match (current, previous) {
        (Some(c), Some(p)) => Some((c - p) as i16),
        _ => None,
    }
}

fn score_in_baseline(dims: &Vec<DimensionGrade>, d: QualityDimension) -> (r: Option<u8>)
    ensures
        r == baseline_score(dims@, d),
{
    let mut k = dims.len();
    assert(dims@.take(k as int) =~= dims@);
    while k > 0
        invariant
            k <= dims@.len(),
            baseline_score(dims@, d) == baseline_score(dims@.take(k as int), d),
        decreases k,
    {
        let ghost t = dims@.take(k as int);
        assert(t.drop_last() =~= dims@.take(k - 1));
        assert(t.last() == dims@[k - 1]);
        if dims[k - 1].dimension == d {
            return Some(dims[k - 1].score);
        }
        k = k - 1;
    }
    None
}

impl ProjectAssessment {
    /// Assesses the Project at its HEAD commit. Without a HEAD commit there is
    /// nothing to assess. With a baseline, the overall and per-dimension score
    /// changes are recorded along with the baseline's commit.
    pub fn at_project_head(
        project: &Site,
        grade: QualityGrade,
        opportunities: Vec<Opportunity>,
        assessed_at: &str,
        baseline: Option<&ProjectAssessment>,
    ) -> (r: Result<Self, AssessmentError>)
        ensures
            project.head_commit is None ==> r == Err::<Self, AssessmentError>(
                AssessmentError::NoHeadCommit,
            ),
            project.head_commit is Some ==> (r matches Ok(a) && {
                &&& a.project_path == project.root_path
                &&& a.commit_sha == project.head_commit->0
                &&& a.assessed_at@ == assessed_at@
                &&& a.grade == grade
                &&& a.opportunities == opportunities
                &&& a.baseline_commit_sha == match baseline {
                    Some(b) => Some(b.commit_sha),
                    None => None,
                }
                &&& a.overall_delta == overall_change(
                    grade.overall_score,
                    match baseline {
                        Some(b) => b.grade.overall_score,
                        None => None,
                    },
                )
                &&& a.dimension_deltas@ == deltas(
                    grade.dimensions@,
                    match baseline {
                        Some(b) => b.grade.dimensions@,
                        None => Seq::empty(),
                    },
                )
            }),
    {
        let commit_sha = match &project.head_commit {
            Some(sha) => sha.clone(),
            None => {
                return Err(AssessmentError::NoHeadCommit);
            },
        };
        let empty: Vec<DimensionGrade> = Vec::new();
        let base_dims: &Vec<DimensionGrade> = match baseline {
            Some(b) => &b.grade.dimensions,
            None => &empty,
        };
        let ghost bd = base_dims@;
        let mut dimension_deltas: Vec<DimensionDelta> = Vec::new();
        let mut i: usize = 0;
        assert(grade.dimensions@.take(0) =~= Seq::<DimensionGrade>::empty());
        while i < grade.dimensions.len()
            invariant
                i <= grade.dimensions@.len(),
                bd == base_dims@,
                dimension_deltas@ == deltas(grade.dimensions@.take(i as int), bd),
            decreases grade.dimensions.len() - i,
        {
            let d = &grade.dimensions[i];
            proof {
                let t = grade.dimensions@.take(i + 1);
                assert(t.drop_last() =~= grade.dimensions@.take(i as int));
                assert(t.last() == *d);
            }
            match score_in_baseline(base_dims, d.dimension) {
                Some(b) => {
                    let delta = (d.score as i16) - (b as i16);
                    dimension_deltas.push(DimensionDelta { dimension: d.dimension, score_delta: delta });
                },
                None => {},
            }
            i = i + 1;
        }
        assert(grade.dimensions@.take(grade.dimensions@.len() as int) =~= grade.dimensions@);
        let previous = match baseline {
            Some(b) => b.grade.overall_score,
            None => None,
        };
        let overall_delta = match (grade.overall_score, previous) {
            (Some(c), Some(p)) => Some((c as i16) - (p as i16)),
            _ => None,
        };
        let baseline_commit_sha = match baseline {
            Some(b) => Some(b.commit_sha.clone()),
            None => None,
        };
        Ok(ProjectAssessment {
            project_path: project.root_path.clone(),
            commit_sha,
            assessed_at: assessed_at.to_owned(),
            grade,
            opportunities,
            baseline_commit_sha,
            overall_delta,
            dimension_deltas,
        })
    }
}

#[derive(Debug, Clone, Copy, PartialEq, Eq, Structural)]
pub enum ActivityKind {
    Provider,
    Command,
}

/// One planned activity, shown before anything runs.
#[derive(Debug, Clone, PartialEq, Eq)]
pub struct ActivityPreview {
    pub kind: ActivityKind,
    pub label: String,
    pub detail: String,
}

impl ActivityPreview {
    pub fn provider(label: &str, detail: &str) -> (r: Self)
        ensures
            r.kind == ActivityKind::Provider,
            r.label@ == label@,
            r.detail@ == detail@,
    {
        ActivityPreview { kind: ActivityKind::Provider, label: label.to_owned(), detail: detail.to_owned() }
    }

    pub fn command(label: &str, detail: &str) -> (r: Self)
        ensures
            r.kind == ActivityKind::Command,
            r.label@ == label@,
            r.detail@ == detail@,
    {
        ActivityPreview { kind: ActivityKind::Command, label: label.to_owned(), detail: detail.to_owned() }
    }
}

#[derive(Debug, Clone, PartialEq, Eq)]
pub struct AssessmentPreview {
    pub commit_sha: String,
    pub activities: Vec<ActivityPreview>,
}

impl AssessmentPreview {
    pub fn new(commit_sha: &str, activities: Vec<ActivityPreview>) -> (r: Self)
        ensures
            r.commit_sha@ == commit_sha@,
            r.activities == activities,
    {
        AssessmentPreview { commit_sha: commit_sha.to_owned(), activities }
    }
}

#[derive(Debug, Clone, Copy, PartialEq, Eq, Structural)]
pub enum AssessmentRunStatus {
    Planned,
    Running,
    Completed,
    Cancelled,
}

#[derive(Debug, Clone, PartialEq, Eq)]
pub struct AssessmentProgress {
    pub completed: usize,
    pub total: usize,
    pub latest_result: Option<String>,
}

#[derive(Debug, Clone)]
pub struct AssessmentRun {
    pub preview: AssessmentPreview,
    pub status: AssessmentRunStatus,
    pub progress: AssessmentProgress,
    pub partial_results: bool,
    pub status_detail: Option<String>,
}

/// An operation the run's status does not allow.
#[derive(Debug, Clone, Copy, PartialEq, Eq)]
pub struct AssessmentRunError {
    action: &'static str,
    status: AssessmentRunStatus,
}

impl AssessmentRunError {
    pub closed spec fn spec_action(&self) -> Seq<char> {
        self.action@
    }

    pub closed spec fn spec_status(&self) -> AssessmentRunStatus {
        self.status
    }

    pub fn action(&self) -> (r: &'static str)
        ensures
            r@ == self.spec_action(),
    {
        self.action
    }

    pub fn status(&self) -> (r: AssessmentRunStatus)
        ensures
            r == self.spec_status(),
    {
        self.status
    }

    /// The error as a sentence, naming the refused action and the status.
    pub fn message(&self) -> (r: String)
        ensures
            r@ == "assessment run cannot "@ + self.spec_action() + " while "@ + run_status_name(
                self.spec_status(),
            ),
    {
        let name = match self.status {
            AssessmentRunStatus::Planned => "Planned",
            AssessmentRunStatus::Running => "Running",
            AssessmentRunStatus::Completed => "Completed",
            AssessmentRunStatus::Cancelled => "Cancelled",
        };
        String::from_str("assessment run cannot ").concat(self.action).concat(" while ").concat(name)
    }
}

/// The name a run status is shown under.
pub open spec fn run_status_name(s: AssessmentRunStatus) -> Seq<char> {
    match s {
        AssessmentRunStatus::Planned => "Planned"@,
        AssessmentRunStatus::Running => "Running"@,
        AssessmentRunStatus::Completed => "Completed"@,
        AssessmentRunStatus::Cancelled => "Cancelled"@,
    }
}

/// A run's bookkeeping is sound: progress never passes the total, a planned
/// run has done nothing, a running run has work left, and a completed run
/// has done everything.
pub open spec fn run_consistent(run: AssessmentRun) -> bool {
    &&& run.progress.completed <= run.progress.total
    &&& run.status == AssessmentRunStatus::Planned ==> run.progress.completed == 0
    &&& run.status == AssessmentRunStatus::Running ==> run.progress.completed < run.progress.total
    &&& run.status == AssessmentRunStatus::Completed ==> run.progress.completed
        == run.progress.total
    &&& run.partial_results ==> run.status == AssessmentRunStatus::Cancelled
        && run.progress.completed > 0
}

impl AssessmentRun {
    /// A planned run of the previewed activities.
    pub fn new(preview: AssessmentPreview) -> (r: Self)
        ensures
            r.status == AssessmentRunStatus::Planned,
            r.progress.completed == 0,
            r.progress.total == preview.activities@.len(),
            r.progress.latest_result is None,
            !r.partial_results,
            r.status_detail is None,
            r.preview == preview,
            run_consistent(r),
    {
        let total = preview.activities.len();
        AssessmentRun {
            preview,
            status: AssessmentRunStatus::Planned,
            progress: AssessmentProgress { completed: 0, total, latest_result: None },
            partial_results: false,
            status_detail: None,
        }
    }

    fn error(&self, action: &'static str) -> (r: AssessmentRunError)
        ensures
            r.spec_action() == action@,
            r.spec_status() == self.status,
    {
        AssessmentRunError { action, status: self.status }
    }

    /// Starts a planned run; a run with nothing to do completes at once.
    pub fn start(&mut self) -> (r: Result<(), AssessmentRunError>)
        ensures
            old(self).status != AssessmentRunStatus::Planned ==> (r matches Err(e) && e.spec_action()
                == "start"@ && e.spec_status() == old(self).status && *final(self) == *old(self)),
            old(self).status == AssessmentRunStatus::Planned ==> r is Ok && final(self).status == (
            if old(self).progress.total == 0 {
                AssessmentRunStatus::Completed
            } else {
                AssessmentRunStatus::Running
            }) && final(self).progress == old(self).progress && final(self).partial_results == old(
                self,
            ).partial_results && final(self).status_detail == old(self).status_detail
                && final(self).preview == old(self).preview,
            run_consistent(*old(self)) ==> run_consistent(*final(self)),
    {
        if self.status != AssessmentRunStatus::Planned {
            return Err(self.error("start"));
        }
        self.status = if self.progress.total == 0 {
            AssessmentRunStatus::Completed
        } else {
            AssessmentRunStatus::Running
        };
        Ok(())
    }

    /// Records one finished activity of a running run; the run completes
    /// when every activity is done. A sound run stays sound: in particular a
    /// run still running has work left.
    pub fn complete_activity(&mut self, result: &str) -> (r: Result<(), AssessmentRunError>)
        requires
            old(self).status == AssessmentRunStatus::Running ==> old(self).progress.completed
                < usize::MAX,
        ensures
            old(self).status != AssessmentRunStatus::Running ==> (r matches Err(e) && e.spec_action()
                == "record progress"@ && e.spec_status() == old(self).status && *final(self) == *old(
                self,
            )),
            old(self).status == AssessmentRunStatus::Running ==> {
                &&& r is Ok
                &&& final(self).progress.completed == old(self).progress.completed + 1
                &&& final(self).progress.total == old(self).progress.total
                &&& final(self).progress.latest_result matches Some(t) && t@ == result@
                &&& final(self).status == if final(self).progress.completed == old(
                    self,
                ).progress.total {
                    AssessmentRunStatus::Completed
                } else {
                    AssessmentRunStatus::Running
                }
                &&& final(self).partial_results == old(self).partial_results
                &&& final(self).status_detail == old(self).status_detail
                &&& final(self).preview == old(self).preview
            },
            run_consistent(*old(self)) ==> run_consistent(*final(self)),
    {
        if self.status != AssessmentRunStatus::Running {
            return Err(self.error("record progress"));
        }
        self.progress.completed = self.progress.completed + 1;
        self.progress.latest_result = Some(result.to_owned());
        if self.progress.completed == self.progress.total {
            self.status = AssessmentRunStatus::Completed;
        }
        Ok(())
    }

    /// Cancels a planned or running run, keeping what was done: results are
    /// partial when some activity had completed.
    pub fn cancel(&mut self, detail: &str) -> (r: Result<(), AssessmentRunError>)
        ensures
            !(old(self).status == AssessmentRunStatus::Planned || old(self).status
                == AssessmentRunStatus::Running) ==> (r matches Err(e) && e.spec_action() == "cancel"@
                && e.spec_status() == old(self).status && *final(self) == *old(self)),
            (old(self).status == AssessmentRunStatus::Planned || old(self).status
                == AssessmentRunStatus::Running) ==> {
                &&& r is Ok
                &&& final(self).status == AssessmentRunStatus::Cancelled
                &&& final(self).partial_results == (old(self).progress.completed > 0)
                &&& final(self).status_detail matches Some(t) && t@ == detail@
                &&& final(self).progress == old(self).progress
                &&& final(self).preview == old(self).preview
            },
            run_consistent(*old(self)) ==> run_consistent(*final(self)),
    {
        if !(self.status == AssessmentRunStatus::Planned || self.status
            == AssessmentRunStatus::Running) {
            return Err(self.error("cancel"));
        }
        self.status = AssessmentRunStatus::Cancelled;
        self.partial_results = self.progress.completed > 0;
        self.status_detail = Some(detail.to_owned());
        Ok(())
    }

    /// How the results are labelled.
    pub fn results_label(&self) -> (r: &'static str)
        ensures
            self.partial_results ==> r@ == "Partial results"@,
            !self.partial_results && self.status == AssessmentRunStatus::Completed ==> r@
                == "Complete results"@,
            !self.partial_results && self.status != AssessmentRunStatus::Completed ==> r@
                == "No results"@,
    {
        if self.partial_results {
            "Partial results"
        } else if self.status == AssessmentRunStatus::Completed {
            "Complete results"
        } else {
            "No results"
        }
    }
}

/// Every operation keeps a run's bookkeeping sound.
pub proof fn law_run_operations_keep_consistency(before: AssessmentRun, after: AssessmentRun, op: int)
    requires
        run_consistent(before),
        // start
        op == 0 ==> before.status == AssessmentRunStatus::Planned && after.status == (if before.progress.total == 0 {
            AssessmentRunStatus::Completed
        } else {
            AssessmentRunStatus::Running
        }) && after.progress == before.progress && after.partial_results == before.partial_results,
        // complete_activity
        op == 1 ==> before.status == AssessmentRunStatus::Running && after.progress.completed
            == before.progress.completed + 1 && after.progress.total == before.progress.total
            && after.status == (if after.progress.completed == before.progress.total {
            AssessmentRunStatus::Completed
        } else {
            AssessmentRunStatus::Running
        }) && after.partial_results == before.partial_results,
        // cancel
        op == 2 ==> (before.status == AssessmentRunStatus::Planned || before.status
            == AssessmentRunStatus::Running) && after.status == AssessmentRunStatus::Cancelled
            && after.partial_results == (before.progress.completed > 0) && after.progress
            == before.progress,
        0 <= op <= 2,
    ensures
        run_consistent(after),
{
}

/// Cancelling after some progress always yields partial results, labelled so.
pub proof fn law_cancel_after_progress_is_partial(before: AssessmentRun, after: AssessmentRun)
    requires
        before.status == AssessmentRunStatus::Running,
        before.progress.completed > 0,
        after.status == AssessmentRunStatus::Cancelled,
        after.partial_results == (before.progress.completed > 0),
    ensures
        after.partial_results,
{
}

} // verus!
