use vstd::prelude::*;

use crate::text::{chars_of, spec_split, split_char, str_eq, views};

verus! {

#[derive(Debug, PartialEq, Eq)]
pub enum CandidateError {
    MissingHead,
    GitError(String),
    PathEscape(String),
    PreparationFailed(String),
    ProjectMutated,
}

impl CandidateError {
    pub open spec fn spec_message(&self) -> Seq<char> {
        match *self {
            CandidateError::MissingHead => "Project has no HEAD commit"@,
            CandidateError::GitError(m) => "Git execution failed: "@ + m@,
            CandidateError::PathEscape(m) => "Candidate path escapes the disposable clone: "@ + m@,
            CandidateError::PreparationFailed(m) => "Failed to prepare candidate: "@ + m@,
            CandidateError::ProjectMutated => "Active Project changed during candidate preparation"@,
        }
    }

    /// The error as a sentence.
    pub fn message(&self) -> (r: String)
        ensures
            r@ == self.spec_message(),
    {
        match self {
            CandidateError::MissingHead => String::from_str("Project has no HEAD commit"),
            CandidateError::GitError(m) => String::from_str("Git execution failed: ").concat(
                m.as_str(),
            ),
            CandidateError::PathEscape(m) => String::from_str(
                "Candidate path escapes the disposable clone: ",
            ).concat(m.as_str()),
            CandidateError::PreparationFailed(m) => String::from_str(
                "Failed to prepare candidate: ",
            ).concat(m.as_str()),
            CandidateError::ProjectMutated => String::from_str(
                "Active Project changed during candidate preparation",
            ),
        }
    }
}

/// The state of a Project's working tree: its HEAD commit and its
/// porcelain status.
#[derive(Debug, PartialEq, Eq)]
pub struct GitFingerprint {
    pub head: String,
    pub porcelain: String,
}

impl Clone for GitFingerprint {
    fn clone(&self) -> (r: Self)
        ensures
            r == *self,
    {
        GitFingerprint { head: self.head.clone(), porcelain: self.porcelain.clone() }
    }
}

pub open spec fn same_state(a: GitFingerprint, b: GitFingerprint) -> bool {
    a.head@ == b.head@ && a.porcelain@ == b.porcelain@
}

/// Whether two fingerprints describe the same working tree.
pub fn same_fingerprint(a: &GitFingerprint, b: &GitFingerprint) -> (r: bool)
    ensures
        r == same_state(*a, *b),
{
    str_eq(a.head.as_str(), b.head.as_str()) && str_eq(a.porcelain.as_str(), b.porcelain.as_str())
}

/// The Project must not change while a candidate is prepared.
pub fn check_unchanged(before: &GitFingerprint, after: &GitFingerprint) -> (r: Result<
    (),
    CandidateError,
>)
    ensures
        same_state(*before, *after) ==> r is Ok,
        !same_state(*before, *after) ==> r == Err::<(), CandidateError>(
            CandidateError::ProjectMutated,
        ),
{
    if same_fingerprint(before, after) {
        Ok(())
    } else {
        Err(CandidateError::ProjectMutated)
    }
}

/// A candidate can only be prepared from a Project with a HEAD commit.
pub fn require_head(before: &GitFingerprint) -> (r: Result<(), CandidateError>)
    ensures
        before.head@.len() == 0 ==> r == Err::<(), CandidateError>(CandidateError::MissingHead),
        before.head@.len() > 0 ==> r is Ok,
{
    if before.head.as_str().is_empty() {
        Err(CandidateError::MissingHead)
    } else {
        Ok(())
    }
}

/// One file written into the disposable clone.
#[derive(Debug, Clone, PartialEq, Eq)]
pub struct CandidateEdit {
    pub path: String,
    pub contents: String,
}

/// A relative path escapes the clone when it is empty, absolute, or has a
/// `..` segment.
pub open spec fn escapes_clone(rel: Seq<char>) -> bool {
    ||| rel.len() == 0
    ||| rel[0] == '/'
    ||| exists|i: int| 0 <= i < spec_split(rel, '/').len() && #[trigger] spec_split(rel, '/')[i] == ".."@
}

/// `rel` under `root`, as `Path::join` puts a relative path under a
/// directory.
pub open spec fn joined_path(root: Seq<char>, rel: Seq<char>) -> Seq<char> {
    if root.len() == 0 || root.last() == '/' {
        root + rel
    } else {
        root + seq!['/'] + rel
    }
}

/// Where an edit to `relative` lands in the clone at `root`; paths that
/// would leave the clone are refused.
pub fn confined_path(root: &str, relative: &str) -> (r: Result<String, CandidateError>)
    ensures
        escapes_clone(relative@) ==> (r matches Err(CandidateError::PathEscape(p)) && p@
            == relative@),
        !escapes_clone(relative@) ==> (r matches Ok(p) && p@ == joined_path(root@, relative@)),
{
    let v = chars_of(relative);
    if v.len() == 0 || v[0] == '/' {
        return Err(CandidateError::PathEscape(relative.to_owned()));
    }
    let parts = split_char(&v, '/');
    let ghost pv = views(parts@);
    let mut i: usize = 0;
    while i < parts.len()
        invariant
            i <= parts.len(),
            pv == views(parts@),
            pv == spec_split(relative@, '/'),
            forall|k: int| 0 <= k < i ==> pv[k] != ".."@,
        decreases parts.len() - i,
    {
        let piece = &parts[i];
        proof {
            reveal_strlit("..");
        }
        if piece.len() == 2 && piece[0] == '.' && piece[1] == '.' {
            assert(piece@ =~= ".."@);
            assert(pv[i as int] == ".."@);
            return Err(CandidateError::PathEscape(relative.to_owned()));
        }
        proof {
            if pv[i as int] == ".."@ {
                assert(piece@ == ".."@);
                assert(piece@.len() == 2);
                assert(piece@[0] == '.' && piece@[1] == '.');
            }
        }
        i = i + 1;
    }
    Ok(join_path_str(root, relative))
}

/// `rel` under `root`, as `Path::join` puts a relative path under a
/// directory.
pub fn join_path_str(root: &str, rel: &str) -> (r: String)
    ensures
        r@ == joined_path(root@, rel@),
{
    let mut out = root.to_owned();
    let rv = chars_of(root);
    if rv.len() > 0 && rv[rv.len() - 1] != '/' {
        out.append("/");
        proof {
            reveal_strlit("/");
        }
    }
    out.append(rel);
    assert(out@ =~= joined_path(root@, rel@));
    out
}

} // verus!
