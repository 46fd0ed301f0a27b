use vstd::prelude::*;

use crate::confidence::Confidence;
use crate::evidence::LineRange;
use crate::excavate::Finding;
use crate::site::Site;
use crate::staleness::StalenessStatus;
use crate::text::{
    chars_of, lines_of, spec_contains, spec_ends_with, spec_lines, spec_starts_with,
    lowercase_text, str_contains, str_ends_with, str_starts_with, string_views, to_lowercase,
};

verus! {

#[derive(Debug, Clone, PartialEq, Eq)]
pub enum ReportError {
    NoHeadCommit,
    Excavate(String),
}

#[derive(Debug, Clone, Copy, PartialEq, Eq, Structural)]
pub enum SiteReportCategory {
    DeadWorkaround,
    NoRationale,
    UntestedCode,
}

#[derive(Debug, Clone, PartialEq, Eq)]
pub struct SiteReportEntry {
    pub file_path: String,
    pub line_range: LineRange,
    pub category: SiteReportCategory,
    pub description: String,
    pub finding: Finding,
}

#[derive(Debug, Clone, PartialEq, Eq)]
pub struct SiteReport {
    pub site_path: String,
    pub generated_at: String,
    pub head_commit: String,
    pub total_files_scanned: usize,
    pub entries: Vec<SiteReportEntry>,
}

/// Expected cost of a Site Report: 0.15 s and 600 tokens per eligible file
/// (the duration is held in milliseconds).
#[derive(Debug, Clone, Copy, PartialEq, Eq)]
pub struct SiteReportEstimate {
    pub file_count: usize,
    pub estimated_duration_millis: u64,
    pub estimated_token_cost: usize,
}

/// Lock files, images, `.gitignore` and JSON are not code worth excavating
/// (compared in lower case).
pub open spec fn spec_is_eligible_code_file(path: Seq<char>) -> bool {
    let lower = lowercase_text(path);
    !spec_ends_with(lower, ".lock"@) && !spec_ends_with(lower, ".png"@) && !spec_ends_with(
        lower,
        ".jpg"@,
    ) && !spec_ends_with(lower, ".ico"@) && !spec_ends_with(lower, ".icns"@) && !spec_ends_with(
        lower,
        ".svg"@,
    ) && !spec_ends_with(lower, ".gitignore"@) && !spec_ends_with(lower, ".json"@)
}

pub fn is_eligible_code_file(path: &str) -> (r: bool)
    ensures
        r == spec_is_eligible_code_file(path@),
{
    let lower = to_lowercase(path);
    let l = lower.as_str();
    !str_ends_with(l, ".lock") && !str_ends_with(l, ".png") && !str_ends_with(l, ".jpg")
        && !str_ends_with(l, ".ico") && !str_ends_with(l, ".icns") && !str_ends_with(l, ".svg")
        && !str_ends_with(l, ".gitignore") && !str_ends_with(l, ".json")
}

/// A candidates file is in the report when it is under the prefix (if any) and eligible.
pub open spec fn in_report(path: Seq<char>, prefix: Option<Seq<char>>) -> bool {
    (match prefix {
        Some(p) => spec_starts_with(path, p),
        None => true,
    }) && spec_is_eligible_code_file(path)
}

pub open spec fn opt_view(prefix: Option<&str>) -> Option<Seq<char>> {
    match prefix {
        Some(p) => Some(p@),
        None => None,
    }
}

/// The candidates files a report covers, in order.
pub fn report_files(candidates: &Vec<String>, filter_prefix: Option<&str>) -> (r: Vec<String>)
    ensures
        string_views(r@) == string_views(candidates@).filter(
            |p: Seq<char>| in_report(p, opt_view(filter_prefix)),
        ),
{
    let ghost all = string_views(candidates@);
    let mut out: Vec<String> = Vec::new();
    let mut i: usize = 0;
    assert(all.take(0) =~= Seq::<Seq<char>>::empty());
    while i < candidates.len()
        invariant
            i <= candidates@.len(),
            all == string_views(candidates@),
            string_views(out@) == all.take(i as int).filter(
                |p: Seq<char>| in_report(p, opt_view(filter_prefix)),
            ),
        decreases candidates.len() - i,
    {
        let f = &candidates[i];
        let under = match filter_prefix {
            Some(p) => str_starts_with(f.as_str(), p),
            None => true,
        };
        let keep = under && is_eligible_code_file(f.as_str());
        proof {
            assert(all.take(i + 1) =~= all.take(i as int).push(f@));
            all.take(i as int).lemma_filter_push(
                f@,
                |p: Seq<char>| in_report(p, opt_view(filter_prefix)),
            );
        }
        if keep {
            let ghost before = out@;
            out.push(f.clone());
            assert(string_views(out@) =~= string_views(before).push(f@));
        }
        i = i + 1;
    }
    assert(all.take(all.len() as int) =~= all);
    out
}

/// The estimate for a Site: the eligible files under the prefix, 150 ms and
/// 600 tokens each.
pub fn estimate_site_report_cost(site: &Site, filter_prefix: Option<&str>) -> (r: SiteReportEstimate)
    requires
        site.tracked_files@.len() * 600 <= usize::MAX,
    ensures
        r.file_count == string_views(site.tracked_files@).filter(
            |p: Seq<char>| in_report(p, opt_view(filter_prefix)),
        ).len(),
        r.estimated_duration_millis == 150 * r.file_count,
        r.estimated_token_cost == 600 * r.file_count,
{
    let files = report_files(&site.tracked_files, filter_prefix);
    let count = files.len();
    assert(string_views(files@).len() == count);
    proof {
        string_views(site.tracked_files@).lemma_filter_len(
            |p: Seq<char>| in_report(p, opt_view(filter_prefix)),
        );
    }
    let count_u64 = count as u64;
    SiteReportEstimate {
        file_count: count,
        estimated_duration_millis: count_u64 * 150,
        estimated_token_cost: count * 600,
    }
}

/// The range a report excavates in a file: the first hundred lines, or none
/// for an empty file.
pub fn report_range(content: &str) -> (r: Option<LineRange>)
    ensures
        spec_lines(content@).len() == 0 ==> r is None,
        spec_lines(content@).len() > 0 ==> r == Some(
            LineRange {
                start: 1,
                end: if spec_lines(content@).len() <= 100 {
                    spec_lines(content@).len() as usize
                } else {
                    100
                },
            },
        ),
{
    let lines = lines_of(&chars_of(content));
    let n = lines.len();
    if n == 0 {
        None
    } else {
        Some(LineRange { start: 1, end: if n <= 100 { n } else { 100 } })
    }
}

/// How a Finding is reported: a stale workaround first, then a missing
/// rationale, then untested code (only for paths that mention neither `test`
/// nor `doc`); otherwise it is not reported.
pub open spec fn spec_report_category(file_path: Seq<char>, f: Finding) -> Option<SiteReportCategory> {
    if f.staleness is Stale {
        Some(SiteReportCategory::DeadWorkaround)
    } else if f.why.confidence == Confidence::Unrecorded {
        Some(SiteReportCategory::NoRationale)
    } else if f.what_when.related_tests@.len() == 0 && !spec_contains(file_path, "test"@)
        && !spec_contains(file_path, "doc"@) {
        Some(SiteReportCategory::UntestedCode)
    } else {
        None
    }
}

pub open spec fn category_description(c: SiteReportCategory, f: Finding) -> Seq<char> {
    match c {
        SiteReportCategory::DeadWorkaround => "Dead workaround receipt: "@ + f.staleness->receipt.receipt_text@,
        SiteReportCategory::NoRationale => "No recorded rationale found in commit history or docs."@,
        SiteReportCategory::UntestedCode => "No co-committed tests found in change history."@,
    }
}

/// Categorizes one Finding for the report, with its description.
pub fn categorize_finding(file_path: &str, finding: &Finding) -> (r: Option<(SiteReportCategory, String)>)
    ensures
        match spec_report_category(file_path@, *finding) {
            Some(c) => r matches Some((rc, d)) && rc == c && d@ == category_description(c, *finding),
            None => r is None,
        },
{
    match &finding.staleness {
        StalenessStatus::Stale { receipt } => {
            return Some((
                SiteReportCategory::DeadWorkaround,
                String::from_str("Dead workaround receipt: ").concat(receipt.receipt_text.as_str()),
            ));
        },
        StalenessStatus::Active => {},
    }
    if finding.why.confidence == Confidence::Unrecorded {
        Some((
            SiteReportCategory::NoRationale,
            String::from_str("No recorded rationale found in commit history or docs."),
        ))
    } else if finding.what_when.related_tests.len() == 0 && !str_contains(file_path, "test")
        && !str_contains(file_path, "doc") {
        Some((
            SiteReportCategory::UntestedCode,
            String::from_str("No co-committed tests found in change history."),
        ))
    } else {
        None
    }
}

/// The commit a report is made at: the Site's head; a Site with no commit
/// cannot be reported on.
pub fn report_head(site: &Site) -> (r: Result<String, ReportError>)
    ensures
        match site.head_commit {
            Some(h) => r == Ok::<String, ReportError>(h),
            None => r == Err::<String, ReportError>(ReportError::NoHeadCommit),
        },
{
    match &site.head_commit {
        Some(h) => Ok(h.clone()),
        None => Err(ReportError::NoHeadCommit),
    }
}

/// The report entry of one excavated file, when its Finding is reported.
pub fn site_report_entry(file_path: &str, range: LineRange, finding: Finding) -> (r: Option<
    SiteReportEntry,
>)
    ensures
        match spec_report_category(file_path@, finding) {
            Some(c) => r matches Some(e) && e.file_path@ == file_path@ && e.line_range == range
                && e.category == c && e.description@ == category_description(c, finding)
                && e.finding == finding,
            None => r is None,
        },
{
    match categorize_finding(file_path, &finding) {
        Some((category, description)) => Some(
            SiteReportEntry {
                file_path: file_path.to_owned(),
                line_range: range,
                category,
                description,
                finding,
            },
        ),
        None => None,
    }
}

/// The messages of report errors.
impl ReportError {
    pub fn message(&self) -> (r: String)
        ensures
            r@ == (match *self {
                ReportError::NoHeadCommit => "Project has no HEAD commit"@,
                ReportError::Excavate(m) => "Excavate failed: "@ + m@,
            }),
    {
        match self {
            ReportError::NoHeadCommit => String::from_str("Project has no HEAD commit"),
            ReportError::Excavate(m) => String::from_str("Excavate failed: ").concat(m.as_str()),
        }
    }
}

} // verus!
