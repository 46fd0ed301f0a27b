use vstd::prelude::*;

use crate::staleness::{all_digits, digits_value, is_ascii_digit, lemma_digits_value_grows};
use crate::text::{
    chars_of, lines_of, spec_lines, spec_trim, str_eq, string_of, trim_chars, views,
};

verus! {

#[derive(Debug, Clone, PartialEq, Eq)]
pub enum SiteError {
    NotAGitRepository(String),
    PathNotFound(String),
    GitError(String),
}

impl SiteError {
    pub fn message(&self) -> (r: String)
        ensures
            r@ == (match *self {
                SiteError::NotAGitRepository(p) => "Path is not a git repository: "@ + p@,
                SiteError::PathNotFound(p) => "Path does not exist: "@ + p@,
                SiteError::GitError(m) => "Git execution failed: "@ + m@,
            }),
    {
        match self {
            SiteError::NotAGitRepository(p) => String::from_str("Path is not a git repository: ").concat(
                p.as_str(),
            ),
            SiteError::PathNotFound(p) => String::from_str("Path does not exist: ").concat(p.as_str()),
            SiteError::GitError(m) => String::from_str("Git execution failed: ").concat(m.as_str()),
        }
    }
}

/// What the on-open index covers.
#[derive(Debug, Clone, Copy, PartialEq, Eq, Structural)]
pub struct SiteIndexReport {
    pub commit_graph_indexed: bool,
    pub file_paths_indexed: bool,
    pub rename_links_indexed: bool,
    pub expensive_walks_indexed: bool,
}

/// The cheap index built when a Site is opened: commit graph, file paths and
/// rename links, but no expensive history walks.
pub fn cheap_index_report() -> (r: SiteIndexReport)
    ensures
        r.commit_graph_indexed,
        r.file_paths_indexed,
        r.rename_links_indexed,
        !r.expensive_walks_indexed,
{
    SiteIndexReport {
        commit_graph_indexed: true,
        file_paths_indexed: true,
        rename_links_indexed: true,
        expensive_walks_indexed: false,
    }
}

/// An opened git repository (a Project).
#[derive(Debug, Clone, PartialEq, Eq)]
pub struct Site {
    pub root_path: String,
    pub is_shallow: bool,
    pub has_remote: bool,
    pub remotes: Vec<String>,
    pub head_commit: Option<String>,
    pub total_commits_estimate: usize,
    pub tracked_files: Vec<String>,
    pub index_report: SiteIndexReport,
}

/// The trimmed, non-empty lines of a command's output.
pub open spec fn nonempty_lines(out: Seq<char>) -> Seq<Seq<char>> {
    spec_lines(out).map_values(|l: Seq<char>| spec_trim(l)).filter(|l: Seq<char>| l.len() > 0)
}

pub fn nonempty_trimmed_lines(out: &str) -> (r: Vec<String>)
    ensures
        crate::text::string_views(r@) == nonempty_lines(out@),
{
    let lines = lines_of(&chars_of(out));
    let ghost ls = views(lines@);
    let ghost trimmed = ls.map_values(|l: Seq<char>| spec_trim(l));
    let mut res: Vec<String> = Vec::new();
    let mut i: usize = 0;
    assert(trimmed.take(0) =~= Seq::<Seq<char>>::empty());
    while i < lines.len()
        invariant
            i <= lines@.len(),
            ls == views(lines@),
            ls == spec_lines(out@),
            trimmed == ls.map_values(|l: Seq<char>| spec_trim(l)),
            crate::text::string_views(res@) == trimmed.take(i as int).filter(
                |l: Seq<char>| l.len() > 0,
            ),
        decreases lines.len() - i,
    {
        let t = trim_chars(&lines[i]);
        proof {
            assert(ls[i as int] == lines@[i as int]@);
            assert(trimmed[i as int] == t@);
            assert(trimmed.take(i + 1) =~= trimmed.take(i as int).push(t@));
            trimmed.take(i as int).lemma_filter_push(t@, |l: Seq<char>| l.len() > 0);
        }
        if t.len() > 0 {
            let ghost before = res@;
            res.push(string_of(&t, 0, t.len()));
            proof {
                assert(t@.subrange(0, t@.len() as int) =~= t@);
                assert(crate::text::string_views(res@) =~= crate::text::string_views(before).push(
                    t@,
                ));
            }
        }
        i = i + 1;
    }
    assert(trimmed.take(trimmed.len() as int) =~= trimmed);
    res
}

/// `git rev-parse --is-shallow-repository` answers `true` for a shallow clone.
pub fn parse_is_shallow(out: &str) -> (r: bool)
    ensures
        r == (spec_trim(out@) == "true"@),
{
    let t = crate::text::trim(out);
    str_eq(t.as_str(), "true")
}

/// A count as `usize::from_str` reads the trimmed output of
/// `git rev-list --count`: an optional `+`, then ASCII digits that fit; any
/// other output counts as zero.
pub open spec fn spec_commit_count(out: Seq<char>) -> usize {
    let t = spec_trim(out);
    let body = if t.len() > 0 && t[0] == '+' {
        t.drop_first()
    } else {
        t
    };
    if body.len() > 0 && all_digits(body) && digits_value(body) <= usize::MAX {
        digits_value(body) as usize
    } else {
        0
    }
}

pub fn commit_count(out: &str) -> (r: usize)
    ensures
        r == spec_commit_count(out@),
{
    let d = trim_chars(&chars_of(out));
    let start: usize = if d.len() > 0 && d[0] == '+' {
        1
    } else {
        0
    };
    let ghost body = if d@.len() > 0 && d@[0] == '+' {
        d@.drop_first()
    } else {
        d@
    };
    assert(body =~= d@.skip(start as int));
    if start >= d.len() {
        return 0;
    }
    let max = usize::MAX as u128;
    let mut value: u128 = 0;
    let mut i = start;
    while i < d.len()
        invariant
            start <= i <= d.len(),
            max == usize::MAX,
            d@ == spec_trim(out@),
            body == d@.skip(start as int),
            body == (if d@.len() > 0 && d@[0] == '+' {
                d@.drop_first()
            } else {
                d@
            }),
            all_digits(d@.subrange(start as int, i as int)),
            value == digits_value(d@.subrange(start as int, i as int)),
            value <= usize::MAX,
        decreases d.len() - i,
    {
        let c = d[i];
        let ghost pre = d@.subrange(start as int, i as int);
        let ghost next = d@.subrange(start as int, i + 1);
        assert(next.drop_last() =~= pre);
        if !('0' <= c && c <= '9') {
            proof {
                assert(body[i - start] == c);
                assert(!all_digits(body)) by {
                    assert(!is_ascii_digit(body[i - start]));
                }
            }
            return 0;
        }
        let digit = (c as u32 - 48) as u128;
        let nv = value * 10 + digit;
        if nv > max {
            proof {
                assert(next.last() == c);
                assert(digits_value(next) == nv);
                if all_digits(body) {
                    lemma_digits_value_grows(body, i + 1 - start);
                    assert(body.subrange(0, i + 1 - start) =~= next);
                }
            }
            return 0;
        }
        value = nv;
        i = i + 1;
    }
    assert(d@.subrange(start as int, d@.len() as int) =~= body);
    value as usize
}

/// What the git commands run when a Site is opened printed. Each output is
/// there when its command ran (and, for the top level, the head and the
/// count, succeeded).
#[derive(Debug, Clone, PartialEq, Eq)]
pub struct SiteProbe {
    /// Whether the path exists.
    pub exists: bool,
    /// `git rev-parse --show-toplevel`.
    pub toplevel: Option<String>,
    /// `git rev-parse --is-shallow-repository`.
    pub shallow: Option<String>,
    /// `git remote`.
    pub remotes: Option<String>,
    /// `git rev-parse HEAD`.
    pub head: Option<String>,
    /// `git rev-list --count HEAD`.
    pub commit_count: Option<String>,
    /// `git ls-files`.
    pub tracked_files: Option<String>,
}

pub open spec fn lines_or_none(out: Option<String>) -> Seq<Seq<char>> {
    match out {
        Some(o) => nonempty_lines(o@),
        None => Seq::empty(),
    }
}

fn lines_of_output(out: &Option<String>) -> (r: Vec<String>)
    ensures
        crate::text::string_views(r@) == lines_or_none(*out),
{
    match out {
        Some(o) => nonempty_trimmed_lines(o.as_str()),
        None => {
            let r: Vec<String> = Vec::new();
            assert(crate::text::string_views(r@) =~= Seq::<Seq<char>>::empty());
            r
        },
    }
}

impl Site {
    /// The Site that `git` reports for `path`: a missing path is not found; a
    /// path where `git rev-parse --show-toplevel` fails is no repository;
    /// otherwise the Site is rooted at the trimmed top level, with its
    /// remotes, head, commit count and tracked files as the commands printed
    /// them (none, or zero, where a command gave nothing), and the cheap
    /// index.
    pub fn from_probe(path: &str, probe: &SiteProbe) -> (r: Result<Site, SiteError>)
        ensures
            !probe.exists ==> (r matches Err(SiteError::PathNotFound(p)) && p@ == path@),
            probe.exists && probe.toplevel is None ==> (r matches Err(
                SiteError::NotAGitRepository(p),
            ) && p@ == path@),
            probe.exists && probe.toplevel is Some ==> (r matches Ok(site) && {
                &&& site.root_path@ == spec_trim(probe.toplevel->0@)
                &&& site.is_shallow == (probe.shallow matches Some(o) && spec_trim(o@) == "true"@)
                &&& crate::text::string_views(site.remotes@) == lines_or_none(probe.remotes)
                &&& site.has_remote == (site.remotes@.len() > 0)
                &&& match probe.head {
                    Some(h) => site.head_commit matches Some(c) && c@ == spec_trim(h@),
                    None => site.head_commit is None,
                }
                &&& site.total_commits_estimate == (match probe.commit_count {
                    Some(c) => spec_commit_count(c@),
                    None => 0,
                })
                &&& crate::text::string_views(site.tracked_files@) == lines_or_none(probe.tracked_files)
                &&& site.index_report == SiteIndexReport {
                    commit_graph_indexed: true,
                    file_paths_indexed: true,
                    rename_links_indexed: true,
                    expensive_walks_indexed: false,
                }
            }),
    {
        if !probe.exists {
            return Err(SiteError::PathNotFound(path.to_owned()));
        }
        let root = match &probe.toplevel {
            Some(t) => crate::text::trim(t.as_str()),
            None => {
                return Err(SiteError::NotAGitRepository(path.to_owned()));
            },
        };
        let is_shallow = match &probe.shallow {
            Some(o) => parse_is_shallow(o.as_str()),
            None => false,
        };
        let remotes = lines_of_output(&probe.remotes);
        let has_remote = remotes.len() > 0;
        let head_commit = match &probe.head {
            Some(h) => Some(crate::text::trim(h.as_str())),
            None => None,
        };
        let total_commits_estimate = match &probe.commit_count {
            Some(c) => commit_count(c.as_str()),
            None => 0,
        };
        let tracked_files = lines_of_output(&probe.tracked_files);
        Ok(
            Site {
                root_path: root,
                is_shallow,
                has_remote,
                remotes,
                head_commit,
                total_commits_estimate,
                tracked_files,
                index_report: cheap_index_report(),
            },
        )
    }
}

/// Recently opened Sites, most recent first, at most twenty.
#[derive(Debug, Clone, PartialEq, Eq)]
pub struct RecentSitesStore {
    pub sites: Vec<String>,
}

/// The list after opening `path`: `path` first, then the others in order
/// without `path`, cut to twenty.
pub open spec fn spec_add_recent(sites: Seq<Seq<char>>, path: Seq<char>) -> Seq<Seq<char>> {
    let rest = sites.filter(|p: Seq<char>| p != path);
    let all = seq![path] + rest;
    if all.len() > 20 {
        all.take(20)
    } else {
        all
    }
}

impl RecentSitesStore {
    pub fn new() -> (r: Self)
        ensures
            r.sites@.len() == 0,
    {
        RecentSitesStore { sites: Vec::new() }
    }

    /// Moves (or puts) `path` to the front, keeping at most twenty entries.
    pub fn add(&mut self, path: String)
        ensures
            crate::text::string_views(final(self).sites@) == spec_add_recent(
                crate::text::string_views(old(self).sites@),
                path@,
            ),
    {
        let ghost old_views = crate::text::string_views(self.sites@);
        let mut kept: Vec<String> = Vec::new();
        kept.push(path.clone());
        let mut i: usize = 0;
        assert(old_views.take(0) =~= Seq::<Seq<char>>::empty());
        while i < self.sites.len()
            invariant
                i <= self.sites@.len(),
                old_views == crate::text::string_views(self.sites@),
                crate::text::string_views(kept@) == seq![path@] + old_views.take(i as int).filter(
                    |p: Seq<char>| p != path@,
                ),
            decreases self.sites.len() - i,
        {
            proof {
                assert(old_views.take(i + 1) =~= old_views.take(i as int).push(self.sites@[i as int]@));
                old_views.take(i as int).lemma_filter_push(
                    self.sites@[i as int]@,
                    |p: Seq<char>| p != path@,
                );
            }
            if !str_eq(self.sites[i].as_str(), path.as_str()) {
                let ghost before = kept@;
                kept.push(self.sites[i].clone());
                assert(crate::text::string_views(kept@) =~= crate::text::string_views(before).push(
                    self.sites@[i as int]@,
                ));
            }
            i = i + 1;
        }
        assert(old_views.take(old_views.len() as int) =~= old_views);
        if kept.len() > 20 {
            kept.truncate(20);
            assert(crate::text::string_views(kept@) =~= (seq![path@] + old_views.filter(
                |p: Seq<char>| p != path@,
            )).take(20));
        }
        self.sites = kept;
    }
}

/// After opening a Site it is the most recent one, appears exactly once, and
/// the list never grows past twenty.
pub proof fn law_recent_sites_front_unique_bounded(sites: Seq<Seq<char>>, path: Seq<char>)
    ensures
        spec_add_recent(sites, path)[0] == path,
        spec_add_recent(sites, path).len() <= 20,
        forall|i: int|
            0 < i < spec_add_recent(sites, path).len() ==> #[trigger] spec_add_recent(sites, path)[i]
                != path,
{
    let rest = sites.filter(|p: Seq<char>| p != path);
    let all = seq![path] + rest;
    assert forall|i: int| 0 < i < all.len() implies #[trigger] all[i] != path by {
        assert(all[i] == rest[i - 1]);
        sites.lemma_filter_pred(|p: Seq<char>| p != path, i - 1);
    }
}

} // verus!
