use vstd::prelude::*;

use crate::candidate::joined_path;
use crate::site::Site;
use crate::text::{spec_starts_with, str_eq, str_starts_with};

verus! {

/// A git repository found while scanning for Projects.
#[derive(Debug, Clone, PartialEq, Eq)]
pub struct DiscoveredSiteInfo {
    pub name: String,
    pub path: String,
    pub head_commit: Option<String>,
    pub total_commits_estimate: usize,
    pub is_shallow: bool,
    pub has_remote: bool,
    pub is_pinned: bool,
    pub field_notes_count: usize,
    pub dead_workarounds_count: usize,
}

/// Heavy build, dependency and system directories that a scan skips.
pub open spec fn ignored_names() -> Seq<Seq<char>> {
    seq![
        "node_modules"@, "target"@, ".cargo"@, ".git"@, "vendor"@, "dist"@, "build"@, ".cache"@,
        ".next"@, "Library"@, "System"@, "Applications"@, ".Trash"@,
    ]
}

/// A directory is skipped when it is one of the ignored names or hidden.
pub open spec fn spec_is_ignored(name: Seq<char>) -> bool {
    ignored_names().contains(name) || spec_starts_with(name, "."@)
}

/// Whether a scan skips a directory of this name.
pub fn is_ignored_directory(name: &str) -> (r: bool)
    ensures
        r == spec_is_ignored(name@),
{
    let names = vec![
        "node_modules", "target", ".cargo", ".git", "vendor", "dist", "build", ".cache", ".next",
        "Library", "System", "Applications", ".Trash",
    ];
    let ghost nv = names@.map_values(|s: &str| s@);
    assert(nv =~= ignored_names());
    let mut i: usize = 0;
    while i < names.len()
        invariant
            i <= names.len(),
            nv == names@.map_values(|s: &str| s@),
            nv == ignored_names(),
            forall|k: int| 0 <= k < i ==> nv[k] != name@,
        decreases names.len() - i,
    {
        if str_eq(names[i], name) {
            assert(nv[i as int] == name@);
            return true;
        }
        i = i + 1;
    }
    str_starts_with(name, ".")
}

/// What a scan reports of an opened repository: not pinned, with no notes
/// or workarounds counted yet.
pub fn discovered_from_site(name: String, site: &Site) -> (r: DiscoveredSiteInfo)
    ensures
        r.name == name,
        r.path == site.root_path,
        r.head_commit == site.head_commit,
        r.total_commits_estimate == site.total_commits_estimate,
        r.is_shallow == site.is_shallow,
        r.has_remote == site.has_remote,
        !r.is_pinned,
        r.field_notes_count == 0,
        r.dead_workarounds_count == 0,
{
    DiscoveredSiteInfo {
        name,
        path: site.root_path.clone(),
        head_commit: crate::evidence::clone_opt_string(&site.head_commit),
        total_commits_estimate: site.total_commits_estimate,
        is_shallow: site.is_shallow,
        has_remote: site.has_remote,
        is_pinned: false,
        field_notes_count: 0,
        dead_workarounds_count: 0,
    }
}

/// A scan goes no deeper than its limit.
pub fn within_depth(current_depth: usize, max_depth: usize) -> (r: bool)
    ensures
        r == (current_depth <= max_depth),
{
    current_depth <= max_depth
}

/// The user's home directory, by `dirs::home_dir`; it depends on the
/// environment, so nothing is stated of it.
#[verifier::external_body]
fn home_dir() -> (r: Option<String>) {
    dirs::home_dir().map(|p| p.to_string_lossy().into_owned())
}

/// The folders under a home directory that are searched for Projects.
pub open spec fn scan_folders() -> Seq<Seq<char>> {
    seq!["Work"@, "Projects"@, "dev"@, "code"@, "src"@, "Documents"@]
}

/// The candidate scan roots under a home directory, in order; the caller
/// keeps those that exist.
pub fn scan_roots_under(home: &str) -> (r: Vec<String>)
    ensures
        r@.len() == scan_folders().len(),
        forall|i: int| 0 <= i < r@.len() ==> #[trigger] r@[i]@ == joined_path(home@, scan_folders()[i]),
{
    let folders = vec!["Work", "Projects", "dev", "code", "src", "Documents"];
    let ghost fv = folders@.map_values(|s: &str| s@);
    assert(fv =~= scan_folders());
    let mut out: Vec<String> = Vec::new();
    let mut i: usize = 0;
    while i < folders.len()
        invariant
            i <= folders.len(),
            fv == folders@.map_values(|s: &str| s@),
            fv == scan_folders(),
            out@.len() == i,
            forall|k: int| 0 <= k < i ==> #[trigger] out@[k]@ == joined_path(home@, fv[k]),
        decreases folders.len() - i,
    {
        let p = crate::candidate::join_path_str(home, folders[i]);
        out.push(p);
        i = i + 1;
    }
    out
}

/// The default scan roots: the usual Project folders under the home
/// directory, when there is one.
pub fn default_scan_root_candidates() -> (r: Vec<String>)
    ensures
        r@.len() == 0 || exists|home: Seq<char>|
            crate::text::string_views(r@) == #[trigger] roots_under(home),
{
    match home_dir() {
        Some(home) => {
            let r = scan_roots_under(home.as_str());
            assert(crate::text::string_views(r@) =~= roots_under(home@));
            r
        },
        None => Vec::new(),
    }
}

/// The scan folders under `home`, in order.
pub open spec fn roots_under(home: Seq<char>) -> Seq<Seq<char>> {
    scan_folders().map_values(|f: Seq<char>| joined_path(home, f))
}

} // verus!
