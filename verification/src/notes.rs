use vstd::prelude::*;

use crate::command::{file_name, file_name_of};
use crate::evidence::LineRange;
use crate::excavate::Finding;
use crate::text::{spec_contains, lowercase_text, spec_trim, str_contains, str_eq, to_lowercase, trim};

verus! {

/// A saved explanation of a selection, with the user's own notes.
#[derive(Debug, Clone, PartialEq, Eq)]
pub struct FieldNote {
    pub id: String,
    pub site_path: String,
    pub file_path: String,
    pub line_range: LineRange,
    pub commit_sha: String,
    pub created_at: String,
    pub updated_at: String,
    pub user_notes: String,
    pub finding: Finding,
}

/// A Project remembered in the workspace.
#[derive(Debug, Clone, PartialEq, Eq)]
pub struct WorkspaceSiteRecord {
    pub site_path: String,
    pub name: String,
    pub is_pinned: bool,
    pub last_opened: String,
}

/// A note matches a search when the query, in lower case, occurs in its
/// user notes, its file path or its rationale, each in lower case.
pub open spec fn note_matches(n: FieldNote, query: Seq<char>) -> bool {
    let q = lowercase_text(query);
    ||| spec_contains(lowercase_text(n.user_notes@), q)
    ||| spec_contains(lowercase_text(n.file_path@), q)
    ||| spec_contains(lowercase_text(n.finding.why.rationale@), q)
}

pub open spec fn matches_query(query: Seq<char>) -> spec_fn(FieldNote) -> bool {
    |n: FieldNote| note_matches(n, query)
}

/// The notes that match a search, in their order.
pub fn search_field_notes(notes: Vec<FieldNote>, query: &str) -> (r: Vec<FieldNote>)
    ensures
        r@ == notes@.filter(matches_query(query@)),
{
    let q = to_lowercase(query);
    let ghost all = notes@;
    let mut notes = notes;
    let mut rest: Vec<FieldNote> = Vec::new();
    while notes.len() > 0
        invariant
            notes@.len() + rest@.len() == all.len(),
            forall|k: int| 0 <= k < notes@.len() ==> notes@[k] == all[k],
            forall|k: int| 0 <= k < rest@.len() ==> rest@[k] == all[all.len() - 1 - k],
        decreases notes@.len(),
    {
        let n = notes.pop().unwrap();
        rest.push(n);
    }
    let mut out: Vec<FieldNote> = Vec::new();
    let mut i: usize = 0;
    let n_all = rest.len();
    while rest.len() > 0
        invariant
            rest@.len() + i == all.len(),
            n_all == all.len(),
            q@ == lowercase_text(query@),
            forall|k: int| 0 <= k < rest@.len() ==> rest@[k] == all[all.len() - 1 - k],
            out@ == all.take(i as int).filter(matches_query(query@)),
        decreases rest@.len(),
    {
        let n = rest.pop().unwrap();
        assert(n == all[i as int]);
        let hit = str_contains(to_lowercase(n.user_notes.as_str()).as_str(), q.as_str())
            || str_contains(to_lowercase(n.file_path.as_str()).as_str(), q.as_str())
            || str_contains(to_lowercase(n.finding.why.rationale.as_str()).as_str(), q.as_str());
        proof {
            assert(all.take(i + 1) =~= all.take(i as int).push(n));
            all.take(i as int).lemma_filter_push(n, matches_query(query@));
        }
        if hit {
            out.push(n);
        }
        i = i + 1;
    }
    assert(all.take(i as int) =~= all);
    out
}

/// Index of the first note from `i` on about this file and range.
pub open spec fn first_note_for(notes: Seq<FieldNote>, file_path: Seq<char>, range: LineRange, i: int) -> int
    decreases notes.len() - i,
{
    if i < 0 || i >= notes.len() {
        notes.len() as int
    } else if notes[i].file_path@ == file_path && notes[i].line_range == range {
        i
    } else {
        first_note_for(notes, file_path, range, i + 1)
    }
}

/// The saved note for exactly this file and range, if there is one.
pub fn cached_note_index(notes: &Vec<FieldNote>, file_path: &str, range: LineRange) -> (r: Option<usize>)
    ensures
        ({
            let k = first_note_for(notes@, file_path@, range, 0);
            &&& k == notes@.len() ==> r is None
            &&& k < notes@.len() ==> r == Some(k as usize)
        }),
{
    let mut i: usize = 0;
    while i < notes.len()
        invariant
            i <= notes.len(),
            first_note_for(notes@, file_path@, range, 0) == first_note_for(notes@, file_path@, range, i as int),
        decreases notes.len() - i,
    {
        if str_eq(notes[i].file_path.as_str(), file_path) && notes[i].line_range == range {
            return Some(i);
        }
        i = i + 1;
    }
    None
}

/// A cached Finding still holds for the current HEAD when it was made at
/// that commit, or when `git diff --name-only` between the two commits for
/// the file printed nothing; `diff_output` is `None` when git failed.
pub fn cache_valid_for_head(cached_head: &str, current_head: &str, diff_output: Option<&str>) -> (r: bool)
    ensures
        r == (cached_head@ == current_head@ || (diff_output matches Some(o) && spec_trim(o@).len() == 0)),
{
    if str_eq(cached_head, current_head) {
        return true;
    }
    match diff_output {
        Some(o) => trim(o).as_str().is_empty(),
        None => false,
    }
}

/// A Project's pin after a toggle: an unknown Project becomes pinned; a
/// known one flips.
pub fn pin_after_toggle(current: Option<i32>) -> (r: bool)
    ensures
        r == match current {
            Some(c) => c == 0,
            None => true,
        },
{
    match current {
        Some(c) => c == 0,
        None => true,
    }
}

/// The name a Project is shown under: its directory's name, or `repo`.
pub fn site_name(path: &str) -> (r: String)
    ensures
        r@ == match file_name(path@) {
            Some(n) => n,
            None => "repo"@,
        },
{
    match file_name_of(path) {
        Some(n) => n,
        None => String::from_str("repo"),
    }
}

} // verus!
