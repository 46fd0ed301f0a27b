use vstd::prelude::*;

use crate::assessment::ProjectAssessment;
use crate::evidence::clone_opt_string;
use crate::grade::{format_overall_grade, grade_label};
use crate::notes::WorkspaceSiteRecord;
use crate::text::{str_eq, string_views};
use crate::workspace::DiscoveredSiteInfo;

verus! {

/// The home screen: pinned, recently opened and other discovered Projects,
/// and the folders that were scanned.
#[derive(Debug, Clone, PartialEq, Eq)]
pub struct HomeWorkspaceData {
    pub pinned_sites: Vec<DiscoveredSiteInfo>,
    pub recent_sites: Vec<DiscoveredSiteInfo>,
    pub discovered_sites: Vec<DiscoveredSiteInfo>,
    pub scan_roots: Vec<String>,
}

/// One Project in the picker.
#[derive(Debug, Clone, PartialEq, Eq)]
pub struct ProjectRosterRow {
    pub name: String,
    pub path: String,
    pub quality_grade: String,
    pub last_assessment: String,
    pub in_flight_activity: String,
}

/// The Project picker: one row per Project, and the scanned folders.
#[derive(Debug, Clone, PartialEq, Eq)]
pub struct ProjectPickerData {
    pub projects: Vec<ProjectRosterRow>,
    pub scan_roots: Vec<String>,
}

// ---------------------------------------------------------------------------
// Scan roots
// ---------------------------------------------------------------------------

/// The default roots, then each custom root not already listed, in order.
pub open spec fn merged_roots(defaults: Seq<Seq<char>>, custom: Seq<Seq<char>>) -> Seq<Seq<char>>
    decreases custom.len(),
{
    if custom.len() == 0 {
        defaults
    } else {
        let prev = merged_roots(defaults, custom.drop_last());
        if prev.contains(custom.last()) {
            prev
        } else {
            prev.push(custom.last())
        }
    }
}

fn holds_text(v: &Vec<String>, item: &str) -> (r: bool)
    ensures
        r == string_views(v@).contains(item@),
{
    let mut i: usize = 0;
    while i < v.len()
        invariant
            i <= v.len(),
            forall|k: int| 0 <= k < i ==> v@[k]@ != item@,
        decreases v.len() - i,
    {
        if str_eq(v[i].as_str(), item) {
            assert(string_views(v@)[i as int] == item@);
            return true;
        }
        i = i + 1;
    }
    proof {
        if string_views(v@).contains(item@) {
            let k = choose|k: int| 0 <= k < string_views(v@).len() && string_views(v@)[k] == item@;
            assert(v@[k]@ == item@);
        }
    }
    false
}

/// The scan roots: the default folders, then the custom ones not already
/// among them.
pub fn merge_scan_roots(defaults: Vec<String>, custom: &Vec<String>) -> (r: Vec<String>)
    ensures
        string_views(r@) == merged_roots(string_views(defaults@), string_views(custom@)),
{
    let ghost d = string_views(defaults@);
    let ghost c = string_views(custom@);
    let mut out = defaults;
    let mut i: usize = 0;
    while i < custom.len()
        invariant
            i <= custom.len(),
            c == string_views(custom@),
            string_views(out@) == merged_roots(d, c.take(i as int)),
        decreases custom.len() - i,
    {
        proof {
            assert(c.take(i + 1).drop_last() =~= c.take(i as int));
            assert(c.take(i + 1).last() == custom@[i as int]@);
        }
        if !holds_text(&out, custom[i].as_str()) {
            let ghost before = out@;
            out.push(custom[i].clone());
            assert(string_views(out@) =~= string_views(before).push(custom@[i as int]@));
        }
        i = i + 1;
    }
    assert(c.take(i as int) =~= c);
    out
}

// ---------------------------------------------------------------------------
// The home workspace
// ---------------------------------------------------------------------------

/// Some remembered Project is at `path` (and pinned, when `pinned_only`).
pub open spec fn remembered(records: Seq<WorkspaceSiteRecord>, path: Seq<char>, pinned_only: bool) -> bool {
    exists|j: int|
        0 <= j < records.len() && #[trigger] records[j].site_path@ == path && (!pinned_only
            || records[j].is_pinned)
}

/// A discovered Project with its note count and whether it is pinned.
pub open spec fn annotated(
    d: DiscoveredSiteInfo,
    notes: usize,
    records: Seq<WorkspaceSiteRecord>,
) -> DiscoveredSiteInfo {
    DiscoveredSiteInfo {
        name: d.name,
        path: d.path,
        head_commit: d.head_commit,
        total_commits_estimate: d.total_commits_estimate,
        is_shallow: d.is_shallow,
        has_remote: d.has_remote,
        is_pinned: remembered(records, d.path@, true),
        field_notes_count: notes,
        dead_workarounds_count: d.dead_workarounds_count,
    }
}

pub open spec fn count_at(counts: Seq<usize>, i: int) -> usize {
    if 0 <= i < counts.len() {
        counts[i]
    } else {
        0
    }
}

/// Every discovered Project, annotated; `note_counts[i]` is the number of
/// Field Notes of the `i`-th.
pub open spec fn annotated_all(
    discovered: Seq<DiscoveredSiteInfo>,
    note_counts: Seq<usize>,
    records: Seq<WorkspaceSiteRecord>,
) -> Seq<DiscoveredSiteInfo> {
    Seq::new(
        discovered.len(),
        |i: int| annotated(discovered[i], count_at(note_counts, i), records),
    )
}

fn clone_info(d: &DiscoveredSiteInfo) -> (r: DiscoveredSiteInfo)
    ensures
        r == *d,
{
    DiscoveredSiteInfo {
        name: d.name.clone(),
        path: d.path.clone(),
        head_commit: clone_opt_string(&d.head_commit),
        total_commits_estimate: d.total_commits_estimate,
        is_shallow: d.is_shallow,
        has_remote: d.has_remote,
        is_pinned: d.is_pinned,
        field_notes_count: d.field_notes_count,
        dead_workarounds_count: d.dead_workarounds_count,
    }
}

fn is_remembered(records: &Vec<WorkspaceSiteRecord>, path: &str, pinned_only: bool) -> (r: bool)
    ensures
        r == remembered(records@, path@, pinned_only),
{
    let mut i: usize = 0;
    while i < records.len()
        invariant
            i <= records.len(),
            forall|k: int|
                0 <= k < i ==> !(#[trigger] records@[k].site_path@ == path@ && (!pinned_only
                    || records@[k].is_pinned)),
        decreases records.len() - i,
    {
        if str_eq(records[i].site_path.as_str(), path) && (!pinned_only || records[i].is_pinned) {
            return true;
        }
        i = i + 1;
    }
    false
}

/// The home workspace: each discovered Project with its note count and pin;
/// the pinned ones; those remembered as opened; and the others, each list in
/// the order of discovery.
pub fn home_workspace(
    records: &Vec<WorkspaceSiteRecord>,
    discovered: Vec<DiscoveredSiteInfo>,
    note_counts: &Vec<usize>,
    scan_roots: Vec<String>,
) -> (r: HomeWorkspaceData)
    ensures
        ({
            let all = annotated_all(discovered@, note_counts@, records@);
            &&& r.pinned_sites@ == all.filter(|d: DiscoveredSiteInfo| d.is_pinned)
            &&& r.recent_sites@ == all.filter(
                |d: DiscoveredSiteInfo| remembered(records@, d.path@, false),
            )
            &&& r.discovered_sites@ == all.filter(
                |d: DiscoveredSiteInfo| !remembered(records@, d.path@, false),
            )
            &&& r.scan_roots == scan_roots
        }),
{
    let ghost all = annotated_all(discovered@, note_counts@, records@);
    let mut pinned: Vec<DiscoveredSiteInfo> = Vec::new();
    let mut recent: Vec<DiscoveredSiteInfo> = Vec::new();
    let mut others: Vec<DiscoveredSiteInfo> = Vec::new();
    let mut i: usize = 0;
    while i < discovered.len()
        invariant
            i <= discovered.len(),
            all == annotated_all(discovered@, note_counts@, records@),
            pinned@ == all.take(i as int).filter(|d: DiscoveredSiteInfo| d.is_pinned),
            recent@ == all.take(i as int).filter(
                |d: DiscoveredSiteInfo| remembered(records@, d.path@, false),
            ),
            others@ == all.take(i as int).filter(
                |d: DiscoveredSiteInfo| !remembered(records@, d.path@, false),
            ),
        decreases discovered.len() - i,
    {
        let d = &discovered[i];
        let notes = if i < note_counts.len() {
            note_counts[i]
        } else {
            0
        };
        let is_pinned = is_remembered(records, d.path.as_str(), true);
        let is_recent = is_remembered(records, d.path.as_str(), false);
        let info = DiscoveredSiteInfo {
            name: d.name.clone(),
            path: d.path.clone(),
            head_commit: clone_opt_string(&d.head_commit),
            total_commits_estimate: d.total_commits_estimate,
            is_shallow: d.is_shallow,
            has_remote: d.has_remote,
            is_pinned,
            field_notes_count: notes,
            dead_workarounds_count: d.dead_workarounds_count,
        };
        proof {
            assert(info == all[i as int]);
            assert(all.take(i + 1) =~= all.take(i as int).push(all[i as int]));
            all.take(i as int).lemma_filter_push(all[i as int], |d: DiscoveredSiteInfo| d.is_pinned);
            all.take(i as int).lemma_filter_push(
                all[i as int],
                |d: DiscoveredSiteInfo| remembered(records@, d.path@, false),
            );
            all.take(i as int).lemma_filter_push(
                all[i as int],
                |d: DiscoveredSiteInfo| !remembered(records@, d.path@, false),
            );
        }
        if is_pinned {
            pinned.push(clone_info(&info));
        }
        if is_recent {
            recent.push(info);
        } else {
            others.push(info);
        }
        i = i + 1;
    }
    assert(all.take(i as int) =~= all);
    HomeWorkspaceData {
        pinned_sites: pinned,
        recent_sites: recent,
        discovered_sites: others,
        scan_roots,
    }
}

// ---------------------------------------------------------------------------
// The Project picker
// ---------------------------------------------------------------------------

/// The Projects of `s` in order, each path once (its first occurrence).
pub open spec fn first_by_path(s: Seq<DiscoveredSiteInfo>) -> Seq<DiscoveredSiteInfo>
    decreases s.len(),
{
    if s.len() == 0 {
        Seq::empty()
    } else {
        let prev = first_by_path(s.drop_last());
        if exists|j: int| 0 <= j < prev.len() && #[trigger] prev[j].path@ == s.last().path@ {
            prev
        } else {
            prev.push(s.last())
        }
    }
}

fn path_listed(v: &Vec<DiscoveredSiteInfo>, path: &str) -> (r: bool)
    ensures
        r == exists|j: int| 0 <= j < v@.len() && #[trigger] v@[j].path@ == path@,
{
    let mut i: usize = 0;
    while i < v.len()
        invariant
            i <= v.len(),
            forall|k: int| 0 <= k < i ==> #[trigger] v@[k].path@ != path@,
        decreases v.len() - i,
    {
        if str_eq(v[i].path.as_str(), path) {
            return true;
        }
        i = i + 1;
    }
    false
}

/// The Projects the picker lists: pinned, then recent, then discovered ones,
/// each Project once.
pub fn picker_projects(home: &HomeWorkspaceData) -> (r: Vec<DiscoveredSiteInfo>)
    ensures
        r@ == first_by_path(home.pinned_sites@ + home.recent_sites@ + home.discovered_sites@),
{
    let ghost all = home.pinned_sites@ + home.recent_sites@ + home.discovered_sites@;
    let mut chained: Vec<DiscoveredSiteInfo> = Vec::new();
    let mut k: usize = 0;
    while k < 3
        invariant
            k <= 3,
            all == home.pinned_sites@ + home.recent_sites@ + home.discovered_sites@,
            chained@ == if k == 0 {
                Seq::empty()
            } else if k == 1 {
                home.pinned_sites@
            } else if k == 2 {
                home.pinned_sites@ + home.recent_sites@
            } else {
                all
            },
        decreases 3 - k,
    {
        let part = if k == 0 {
            &home.pinned_sites
        } else if k == 1 {
            &home.recent_sites
        } else {
            &home.discovered_sites
        };
        let ghost start = chained@;
        let mut i: usize = 0;
        while i < part.len()
            invariant
                i <= part.len(),
                chained@ == start + part@.take(i as int),
            decreases part.len() - i,
        {
            chained.push(clone_info(&part[i]));
            assert(part@.take(i + 1) =~= part@.take(i as int).push(part@[i as int]));
            assert(chained@ =~= start + part@.take(i + 1));
            i = i + 1;
        }
        assert(part@.take(i as int) =~= part@);
        proof {
            if k == 0 {
                assert(chained@ =~= home.pinned_sites@);
            } else if k == 1 {
                assert(part@ == home.recent_sites@);
            } else {
                assert(part@ == home.discovered_sites@);
                assert(start == home.pinned_sites@ + home.recent_sites@);
                assert(chained@ =~= all);
            }
        }
        k = k + 1;
    }
    let mut out: Vec<DiscoveredSiteInfo> = Vec::new();
    let mut i: usize = 0;
    while i < chained.len()
        invariant
            i <= chained.len(),
            chained@ == all,
            out@ == first_by_path(all.take(i as int)),
        decreases chained.len() - i,
    {
        proof {
            assert(all.take(i + 1).drop_last() =~= all.take(i as int));
            assert(all.take(i + 1).last() == chained@[i as int]);
        }
        if !path_listed(&out, chained[i].path.as_str()) {
            out.push(clone_info(&chained[i]));
        }
        i = i + 1;
    }
    assert(all.take(i as int) =~= all);
    out
}

/// The picker row of a Project: its latest assessment's grade and time, or
/// `Incomplete` and `Never assessed`; and the activity in flight, or `None`.
pub fn roster_row(
    info: &DiscoveredSiteInfo,
    latest: Option<&ProjectAssessment>,
    in_flight: Option<String>,
) -> (r: ProjectRosterRow)
    ensures
        r.name == info.name,
        r.path == info.path,
        match latest {
            Some(a) => r.quality_grade@ == grade_label(a.grade.overall) && r.last_assessment
                == a.assessed_at,
            None => r.quality_grade@ == "Incomplete"@ && r.last_assessment@ == "Never assessed"@,
        },
        match in_flight {
            Some(t) => r.in_flight_activity == t,
            None => r.in_flight_activity@ == "None"@,
        },
{
    let (quality_grade, last_assessment) = match latest {
        Some(a) => (format_overall_grade(a.grade.overall), a.assessed_at.clone()),
        None => (String::from_str("Incomplete"), String::from_str("Never assessed")),
    };
    let in_flight_activity = match in_flight {
        Some(t) => t,
        None => String::from_str("None"),
    };
    ProjectRosterRow {
        name: info.name.clone(),
        path: info.path.clone(),
        quality_grade,
        last_assessment,
        in_flight_activity,
    }
}

} // verus!
