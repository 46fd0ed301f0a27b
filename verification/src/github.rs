use vstd::prelude::*;

use crate::text::{
    ascii_lowercase, chars_of, is_whitespace, last_index_before, lines_of, next_sep,
    spec_ascii_lowercase, spec_contains, spec_has_char, spec_ends_with, spec_is_whitespace, spec_lines, spec_split,
    spec_join, spec_starts_with, spec_trim, split_char, str_contains, str_ends_with, str_eq,
    str_starts_with, string_of, trim, trim_end_char, trim_end_chars, trim_end_pattern,
    trim_end_pattern_str, trim_start_char, trim_start_chars, views,
};
use crate::hash::{hex_lower, sha256, sha256_digest, spec_hex};
use crate::receipt::{ImprovementReceipt, ReceiptVerdict};
use crate::command::clone_strings;
use crate::url::{
    url_result_view, pair_views, parse_url, text_result, url_parts, url_with_query,
    url_with_query_text, UrlParts, UrlPartsView,
};
use crate::oauth::{OAuthClient, OAuthError};
use vstd::utf8::encode_utf8;

verus! {

/// GitHub is the only Work Item destination.
#[derive(Debug, Clone, Copy, PartialEq, Eq, Structural)]
pub enum WorkItemDestination {
    GitHub,
}

impl WorkItemDestination {
    /// The one destination there is.
    pub fn only() -> (r: Self)
        ensures
            r == WorkItemDestination::GitHub,
    {
        WorkItemDestination::GitHub
    }
}

#[derive(Debug, PartialEq, Eq)]
pub enum GitHubError {
    NoRemote,
    NotGitHub,
    GitError(String),
    Unavailable(String),
    AuthFailed(String),
    Timeout(String),
    Api(String),
    MalformedResponse(String),
}

impl GitHubError {
    pub open spec fn spec_message(&self) -> Seq<char> {
        match *self {
            GitHubError::NoRemote => "Project has no git remotes"@,
            GitHubError::NotGitHub => "No GitHub remote found; GitHub is the only Work Item destination"@,
            GitHubError::GitError(m) => "Git execution failed: "@ + m@,
            GitHubError::Unavailable(m) => "GitHub authentication method is unavailable: "@ + m@,
            GitHubError::AuthFailed(m) => "GitHub authentication failed: "@ + m@,
            GitHubError::Timeout(m) => "GitHub request timed out: "@ + m@,
            GitHubError::Api(m) => "GitHub API error: "@ + m@,
            GitHubError::MalformedResponse(m) => "Malformed GitHub response: "@ + m@,
        }
    }

    /// The error as a sentence.
    pub fn message(&self) -> (r: String)
        ensures
            r@ == self.spec_message(),
    {
        match self {
            GitHubError::NoRemote => String::from_str("Project has no git remotes"),
            GitHubError::NotGitHub => String::from_str(
                "No GitHub remote found; GitHub is the only Work Item destination",
            ),
            GitHubError::GitError(m) => String::from_str("Git execution failed: ").concat(
                m.as_str(),
            ),
            GitHubError::Unavailable(m) => String::from_str(
                "GitHub authentication method is unavailable: ",
            ).concat(m.as_str()),
            GitHubError::AuthFailed(m) => String::from_str(
                "GitHub authentication failed: ",
            ).concat(m.as_str()),
            GitHubError::Timeout(m) => String::from_str("GitHub request timed out: ").concat(
                m.as_str(),
            ),
            GitHubError::Api(m) => String::from_str("GitHub API error: ").concat(m.as_str()),
            GitHubError::MalformedResponse(m) => String::from_str(
                "Malformed GitHub response: ",
            ).concat(m.as_str()),
        }
    }
}

/// A GitHub repository that Work Items are published to, with the remote
/// it was inferred from.
#[derive(Debug, PartialEq, Eq)]
pub struct GitHubDestination {
    pub owner: String,
    pub repo: String,
    pub remote_name: String,
    pub remote_url: String,
}

impl Clone for GitHubDestination {
    fn clone(&self) -> (r: Self)
        ensures
            r == *self,
    {
        GitHubDestination {
            owner: self.owner.clone(),
            repo: self.repo.clone(),
            remote_name: self.remote_name.clone(),
            remote_url: self.remote_url.clone(),
        }
    }
}

impl GitHubDestination {
    pub fn kind(&self) -> (r: WorkItemDestination)
        ensures
            r == WorkItemDestination::GitHub,
    {
        WorkItemDestination::GitHub
    }
}

#[derive(Debug, Clone, Copy, PartialEq, Eq, Structural)]
pub enum GitHubAuthMethod {
    GhCli,
    Browser,
    Device,
    Token,
}

/// The order in which authentication methods are tried.
pub open spec fn spec_fallback_order() -> Seq<GitHubAuthMethod> {
    seq![
        GitHubAuthMethod::GhCli,
        GitHubAuthMethod::Browser,
        GitHubAuthMethod::Device,
        GitHubAuthMethod::Token,
    ]
}

impl GitHubAuthMethod {
    /// The canonical fallback order after the destination is inferred.
    pub fn fallback_order() -> (r: Vec<GitHubAuthMethod>)
        ensures
            r@ == spec_fallback_order(),
    {
        let r = vec![
            GitHubAuthMethod::GhCli,
            GitHubAuthMethod::Browser,
            GitHubAuthMethod::Device,
            GitHubAuthMethod::Token,
        ];
        assert(r@ =~= spec_fallback_order());
        r
    }
}

/// A resolved GitHub credential, with the methods tried to get it.
#[derive(PartialEq, Eq)]
pub struct GitHubAuth {
    pub method: GitHubAuthMethod,
    pub token: String,
    pub attempted: Vec<GitHubAuthMethod>,
}

/// The name a method is logged under.
pub open spec fn method_name(m: GitHubAuthMethod) -> Seq<char> {
    match m {
        GitHubAuthMethod::GhCli => "GhCli"@,
        GitHubAuthMethod::Browser => "Browser"@,
        GitHubAuthMethod::Device => "Device"@,
        GitHubAuthMethod::Token => "Token"@,
    }
}

/// How a credential reads in a log: the token replaced by `[redacted]`, so
/// the text depends only on the methods.
pub open spec fn spec_redacted_auth(method: GitHubAuthMethod, attempted: Seq<GitHubAuthMethod>) -> Seq<char> {
    "GitHubAuth { method: "@ + method_name(method) + ", token: \"[redacted]\", attempted: ["@
        + spec_join(attempted.map_values(|m: GitHubAuthMethod| method_name(m)), ", "@) + "] }"@
}

fn method_text(m: GitHubAuthMethod) -> (r: &'static str)
    ensures
        r@ == method_name(m),
{
    match m {
        GitHubAuthMethod::GhCli => "GhCli",
        GitHubAuthMethod::Browser => "Browser",
        GitHubAuthMethod::Device => "Device",
        GitHubAuthMethod::Token => "Token",
    }
}

impl GitHubAuth {
    /// The credential as a log may show it, with no token in the text.
    pub fn redacted(&self) -> (r: String)
        ensures
            r@ == spec_redacted_auth(self.method, self.attempted@),
    {
        let ghost names = self.attempted@.map_values(|m: GitHubAuthMethod| method_name(m));
        let mut list = String::new();
        let mut i: usize = 0;
        while i < self.attempted.len()
            invariant
                i <= self.attempted.len(),
                names == self.attempted@.map_values(|m: GitHubAuthMethod| method_name(m)),
                list@ == spec_join(names.take(i as int), ", "@),
            decreases self.attempted.len() - i,
        {
            let ghost before = list@;
            if i > 0 {
                list.append(", ");
            }
            list.append(method_text(self.attempted[i]));
            proof {
                let t = names.take(i + 1);
                assert(t.drop_last() =~= names.take(i as int));
                assert(t.last() == names[i as int]);
                if i == 0 {
                    assert(spec_join(t, ", "@) == t[0]);
                }
            }
            i = i + 1;
        }
        assert(names.take(i as int) =~= names);
        let mut out = String::from_str("GitHubAuth { method: ");
        out.append(method_text(self.method));
        out.append(", token: \"[redacted]\", attempted: [");
        out.append(list.as_str());
        out.append("] }");
        out
    }
}

/// Permission to run the GitHub CLI; denied until the user grants it.
#[derive(Debug, Clone, Copy, PartialEq, Eq, Structural, Default)]
pub struct GhPermission {
    granted: bool,
}

impl GhPermission {
    pub closed spec fn spec_granted(self) -> bool {
        self.granted
    }

    pub fn granted() -> (r: Self)
        ensures
            r.spec_granted(),
    {
        GhPermission { granted: true }
    }

    pub fn denied() -> (r: Self)
        ensures
            !r.spec_granted(),
    {
        GhPermission { granted: false }
    }

    pub fn is_granted(self) -> (r: bool)
        ensures
            r == self.spec_granted(),
    {
        self.granted
    }
}

/// A local `gh` executable, run only once permission is granted.
#[derive(Debug, Clone, PartialEq, Eq)]
pub struct GhCli {
    executable: String,
}

impl GhCli {
    pub closed spec fn spec_executable(&self) -> Seq<char> {
        self.executable@
    }

    /// A CLI at the given path; an empty path is refused.
    pub fn from_executable(executable: &str) -> (r: Result<Self, GitHubError>)
        ensures
            executable@.len() == 0 ==> (r matches Err(GitHubError::Unavailable(m)) && m@
                == "GitHub CLI path is empty"@),
            executable@.len() > 0 ==> (r matches Ok(c) && c.spec_executable() == executable@),
    {
        if executable.is_empty() {
            return Err(GitHubError::Unavailable(String::from_str("GitHub CLI path is empty")));
        }
        Ok(GhCli { executable: executable.to_owned() })
    }

    /// The CLI found as `gh` on the search path.
    pub fn detect() -> (r: Option<Self>)
        ensures
            r matches Some(c) && c.spec_executable() == "gh"@,
    {
        proof {
            reveal_strlit("gh");
        }
        match Self::from_executable("gh") {
            Ok(c) => Some(c),
            Err(_) => None,
        }
    }

    pub fn executable(&self) -> (r: &str)
        ensures
            r@ == self.spec_executable(),
    {
        self.executable.as_str()
    }
}

// ---------------------------------------------------------------------------
// Inferring the destination from git remotes
// ---------------------------------------------------------------------------

/// The host and path of an scp-like address `[user@]host:path`; `None` for
/// URLs with a scheme, addresses without `:`, and paths starting `//`.
pub open spec fn scp_parts(url: Seq<char>) -> Option<(Seq<char>, Seq<char>)> {
    let k = next_sep(url, ':', 0);
    if spec_contains(url, "://"@) || k >= url.len() {
        None
    } else {
        let host_part = url.subrange(0, k);
        let path_part = url.subrange(k + 1, url.len() as int);
        if spec_starts_with(path_part, "//"@) {
            None
        } else {
            let at = last_index_before(host_part, '@', host_part.len() as int);
            Some((host_part.subrange(at + 1, host_part.len() as int), path_part))
        }
    }
}

/// `github.com` or `www.github.com`, ignoring case, surrounding blanks and
/// trailing dots.
pub open spec fn github_host(host: Seq<char>) -> bool {
    let h = spec_ascii_lowercase(trim_end_char(spec_trim(host), '.'));
    h == "github.com"@ || h == "www.github.com"@
}

pub open spec fn valid_segment(x: Seq<char>) -> bool {
    x.len() > 0 && x != "."@ && x != ".."@
}

/// The path without surrounding blanks, leading `/`, a `.git` ending and
/// trailing `/`.
pub open spec fn repo_path_core(path: Seq<char>) -> Seq<char> {
    let p1 = trim_start_char(spec_trim(path), '/');
    let p2 = if spec_ends_with(p1, ".git"@) {
        p1.subrange(0, p1.len() - 4)
    } else {
        p1
    };
    trim_end_char(p2, '/')
}

/// Owner and repository of a repository path: exactly two segments, each
/// non-empty (after trimming) and neither `.` nor `..`.
pub open spec fn owner_repo_of_path(path: Seq<char>) -> Option<(Seq<char>, Seq<char>)> {
    let parts = spec_split(repo_path_core(path), '/');
    if parts.len() == 2 && valid_segment(spec_trim(parts[0])) && valid_segment(spec_trim(parts[1])) {
        Some((spec_trim(parts[0]), spec_trim(parts[1])))
    } else {
        None
    }
}

/// Owner and repository from parsed URL parts with a GitHub host.
pub open spec fn owner_repo_from_parts(parts: Result<UrlPartsView, Seq<char>>) -> Option<(Seq<char>, Seq<char>)> {
    match parts {
        Ok(p) => match p.host {
            Some(h) => if github_host(h) {
                owner_repo_of_path(p.path)
            } else {
                None
            },
            None => None,
        },
        Err(_) => None,
    }
}

/// Owner and repository of a GitHub remote address, scp-like or a URL.
pub open spec fn github_owner_repo(url: Seq<char>) -> Option<(Seq<char>, Seq<char>)> {
    let u = spec_trim(url);
    if u.len() == 0 {
        None
    } else {
        match scp_parts(u) {
            Some((h, p)) => if github_host(h) {
                owner_repo_of_path(p)
            } else {
                None
            },
            None => owner_repo_from_parts(url_parts(u)),
        }
    }
}

pub open spec fn pair_view(p: Option<(String, String)>) -> Option<(Seq<char>, Seq<char>)> {
    match p {
        Some((a, b)) => Some((a@, b@)),
        None => None,
    }
}

fn index_of_char(v: &Vec<char>, c: char) -> (r: usize)
    ensures
        r == next_sep(v@, c, 0),
        r <= v.len(),
{
    let mut i: usize = 0;
    while i < v.len() && v[i] != c
        invariant
            i <= v.len(),
            next_sep(v@, c, 0) == next_sep(v@, c, i as int),
        decreases v.len() - i,
    {
        i = i + 1;
    }
    i
}

/// The position just after the last `c`, or 0 when there is none.
fn after_last_char(v: &Vec<char>, c: char) -> (r: usize)
    ensures
        r == last_index_before(v@, c, v@.len() as int) + 1,
        r <= v.len(),
{
    let mut k: usize = v.len();
    while k > 0 && v[k - 1] != c
        invariant
            k <= v.len(),
            last_index_before(v@, c, v@.len() as int) == last_index_before(v@, c, k as int),
        decreases k,
    {
        k = k - 1;
    }
    k
}

fn scp_like_parts(url: &str) -> (r: Option<(String, String)>)
    ensures
        pair_view(r) == scp_parts(url@),
{
    if str_contains(url, "://") {
        return None;
    }
    let v = chars_of(url);
    let k = index_of_char(&v, ':');
    if k >= v.len() {
        return None;
    }
    let host_part = string_of(&v, 0, k);
    let path_part = string_of(&v, k + 1, v.len());
    if str_starts_with(path_part.as_str(), "//") {
        return None;
    }
    let hv = chars_of(host_part.as_str());
    let start = after_last_char(&hv, '@');
    let host = string_of(&hv, start, hv.len());
    Some((host, path_part))
}

fn is_github_host(host: &str) -> (r: bool)
    ensures
        r == github_host(host@),
{
    let t = trim(host);
    let d = trim_end_chars(t.as_str(), '.');
    let lower = ascii_lowercase(&chars_of(d.as_str()));
    let h = string_of(&lower, 0, lower.len());
    assert(lower@.subrange(0, lower@.len() as int) =~= lower@);
    str_eq(h.as_str(), "github.com") || str_eq(h.as_str(), "www.github.com")
}

fn is_valid_segment(x: &str) -> (r: bool)
    ensures
        r == valid_segment(x@),
{
    !x.is_empty() && !str_eq(x, ".") && !str_eq(x, "..")
}

fn split_owner_repo(path: &str) -> (r: Option<(String, String)>)
    ensures
        pair_view(r) == owner_repo_of_path(path@),
{
    let t = trim(path);
    let p1 = trim_start_chars(t.as_str(), '/');
    let p2 = if str_ends_with(p1.as_str(), ".git") {
        let v = chars_of(p1.as_str());
        proof {
            reveal_strlit(".git");
        }
        string_of(&v, 0, v.len() - 4)
    } else {
        p1
    };
    let p3 = trim_end_chars(p2.as_str(), '/');
    let pieces = split_char(&chars_of(p3.as_str()), '/');
    if pieces.len() != 2 {
        return None;
    }
    let owner = trim(string_of(&pieces[0], 0, pieces[0].len()).as_str());
    let repo = trim(string_of(&pieces[1], 0, pieces[1].len()).as_str());
    proof {
        assert(pieces@[0]@.subrange(0, pieces@[0]@.len() as int) =~= pieces@[0]@);
        assert(pieces@[1]@.subrange(0, pieces@[1]@.len() as int) =~= pieces@[1]@);
        assert(views(pieces@)[0] == pieces@[0]@);
        assert(views(pieces@)[1] == pieces@[1]@);
    }
    if is_valid_segment(owner.as_str()) && is_valid_segment(repo.as_str()) {
        Some((owner, repo))
    } else {
        None
    }
}

/// Owner and repository from parsed URL parts: only a GitHub host counts.
pub fn owner_repo_from_url_parts(parts: &Result<UrlParts, String>) -> (r: Option<(String, String)>)
    ensures
        pair_view(r) == owner_repo_from_parts(url_result_view(*parts)),
{
    match parts {
        Ok(p) => match &p.host {
            Some(h) => if is_github_host(h.as_str()) {
                split_owner_repo(p.path.as_str())
            } else {
                None
            },
            None => None,
        },
        Err(_) => None,
    }
}

/// Owner and repository of a GitHub remote address, scp-like
/// (`git@github.com:owner/repo.git`) or a URL; other forges give `None`.
pub fn parse_github_owner_repo(url: &str) -> (r: Option<(String, String)>)
    ensures
        pair_view(r) == github_owner_repo(url@),
{
    let u = trim(url);
    if u.as_str().is_empty() {
        return None;
    }
    match scp_like_parts(u.as_str()) {
        Some((host, path)) => {
            if !is_github_host(host.as_str()) {
                return None;
            }
            split_owner_repo(path.as_str())
        },
        None => {
            let parts = parse_url(u.as_str());
            owner_repo_from_url_parts(&parts)
        },
    }
}

/// A fetch remote: its name and address.
#[derive(Debug, PartialEq, Eq)]
pub struct RemoteUrl {
    pub name: String,
    pub url: String,
}

pub open spec fn remote_views(v: Seq<RemoteUrl>) -> Seq<(Seq<char>, Seq<char>)> {
    v.map_values(|r: RemoteUrl| (r.name@, r.url@))
}

/// Index of the first whitespace character at or after `i`, or the length.
pub open spec fn first_blank(s: Seq<char>, i: int) -> int
    decreases s.len() - i,
{
    if i >= s.len() || i < 0 {
        s.len() as int
    } else if spec_is_whitespace(s[i]) {
        i
    } else {
        first_blank(s, i + 1)
    }
}

/// The remote named by one line of `git remote -v`: only `(fetch)` lines
/// count; the name is what comes before the first blank, the address what
/// comes after, both trimmed and non-empty.
pub open spec fn remote_of_line(line: Seq<char>) -> Option<(Seq<char>, Seq<char>)> {
    let l = spec_trim(line);
    if !spec_ends_with(l, "(fetch)"@) {
        None
    } else {
        let w = spec_trim(trim_end_pattern(l, "(fetch)"@));
        let k = first_blank(w, 0);
        if k >= w.len() {
            None
        } else {
            let name = spec_trim(w.subrange(0, k));
            let url = spec_trim(w.subrange(k + 1, w.len() as int));
            if name.len() == 0 || url.len() == 0 {
                None
            } else {
                Some((name, url))
            }
        }
    }
}

pub open spec fn names_include(rs: Seq<(Seq<char>, Seq<char>)>, n: Seq<char>) -> bool {
    exists|j: int| 0 <= j < rs.len() && #[trigger] rs[j].0 == n
}

/// The fetch remotes of `git remote -v` output, each name once, in order.
pub open spec fn fetch_remotes(lines: Seq<Seq<char>>) -> Seq<(Seq<char>, Seq<char>)>
    decreases lines.len(),
{
    if lines.len() == 0 {
        Seq::empty()
    } else {
        let prev = fetch_remotes(lines.drop_last());
        match remote_of_line(lines.last()) {
            Some((n, u)) => if names_include(prev, n) {
                prev
            } else {
                prev.push((n, u))
            },
            None => prev,
        }
    }
}

fn first_blank_index(v: &Vec<char>) -> (r: usize)
    ensures
        r == first_blank(v@, 0),
        r <= v.len(),
{
    let mut i: usize = 0;
    while i < v.len() && !is_whitespace(v[i])
        invariant
            i <= v.len(),
            first_blank(v@, 0) == first_blank(v@, i as int),
        decreases v.len() - i,
    {
        i = i + 1;
    }
    i
}

fn remote_line(line: &str) -> (r: Option<(String, String)>)
    ensures
        pair_view(r) == remote_of_line(line@),
{
    let l = trim(line);
    if !str_ends_with(l.as_str(), "(fetch)") {
        return None;
    }
    let w = trim(trim_end_pattern_str(l.as_str(), "(fetch)").as_str());
    let wv = chars_of(w.as_str());
    let k = first_blank_index(&wv);
    if k >= wv.len() {
        return None;
    }
    let name = trim(string_of(&wv, 0, k).as_str());
    let url = trim(string_of(&wv, k + 1, wv.len()).as_str());
    if name.as_str().is_empty() || url.as_str().is_empty() {
        return None;
    }
    Some((name, url))
}

/// The fetch remotes listed by `git remote -v`, each name once.
pub fn parse_remote_listing(output: &str) -> (r: Vec<RemoteUrl>)
    ensures
        remote_views(r@) == fetch_remotes(spec_lines(output@)),
{
    let lines = lines_of(&chars_of(output));
    let ghost ls = views(lines@);
    let mut remotes: Vec<RemoteUrl> = Vec::new();
    let mut i: usize = 0;
    while i < lines.len()
        invariant
            i <= lines.len(),
            ls == views(lines@),
            ls == spec_lines(output@),
            remote_views(remotes@) == fetch_remotes(ls.take(i as int)),
        decreases lines.len() - i,
    {
        let text = string_of(&lines[i], 0, lines[i].len());
        proof {
            assert(lines@[i as int]@.subrange(0, lines@[i as int]@.len() as int) =~= lines@[i as int]@);
            assert(ls.take(i + 1).drop_last() =~= ls.take(i as int));
            assert(ls.take(i + 1).last() == ls[i as int]);
        }
        match remote_line(text.as_str()) {
            Some((name, url)) => {
                let mut seen = false;
                let mut j: usize = 0;
                while j < remotes.len()
                    invariant
                        j <= remotes.len(),
                        seen == names_include(remote_views(remotes@).take(j as int), name@),
                    decreases remotes.len() - j,
                {
                    if str_eq(remotes[j].name.as_str(), name.as_str()) {
                        proof {
                            assert(remote_views(remotes@).take(j + 1)[j as int].0 == name@);
                        }
                        seen = true;
                    }
                    proof {
                        let a = remote_views(remotes@).take(j as int);
                        let b = remote_views(remotes@).take(j + 1);
                        if names_include(b, name@) && !seen {
                            let q = choose|q: int| 0 <= q < b.len() && #[trigger] b[q].0 == name@;
                            assert(a[q].0 == name@);
                        }
                        if names_include(a, name@) {
                            let q = choose|q: int| 0 <= q < a.len() && #[trigger] a[q].0 == name@;
                            assert(b[q].0 == name@);
                        }
                    }
                    j = j + 1;
                }
                assert(remote_views(remotes@).take(j as int) =~= remote_views(remotes@));
                if !seen {
                    let ghost before = remotes@;
                    remotes.push(RemoteUrl { name, url });
                    assert(remote_views(remotes@) =~= remote_views(before).push(
                        (remotes@.last().name@, remotes@.last().url@),
                    ));
                }
            },
            None => {},
        }
        i = i + 1;
    }
    assert(ls.take(ls.len() as int) =~= ls);
    remotes
}

// ---------------------------------------------------------------------------
// Choosing the destination
// ---------------------------------------------------------------------------

/// Index of the first remote from `i` on named `origin`, or the count.
pub open spec fn origin_from(rs: Seq<(Seq<char>, Seq<char>)>, i: int) -> int
    decreases rs.len() - i,
{
    if i < 0 || i >= rs.len() {
        rs.len() as int
    } else if rs[i].0 == "origin"@ {
        i
    } else {
        origin_from(rs, i + 1)
    }
}

/// Index of the first remote from `i` on with a GitHub address, or the
/// count.
pub open spec fn github_from(rs: Seq<(Seq<char>, Seq<char>)>, i: int) -> int
    decreases rs.len() - i,
{
    if i < 0 || i >= rs.len() {
        rs.len() as int
    } else if github_owner_repo(rs[i].1) is Some {
        i
    } else {
        github_from(rs, i + 1)
    }
}

/// The remote a destination is taken from: `origin` when it is a GitHub
/// remote, otherwise the first GitHub remote; -1 when there is none.
pub open spec fn chosen_remote(rs: Seq<(Seq<char>, Seq<char>)>) -> int {
    let o = origin_from(rs, 0);
    if o < rs.len() && github_owner_repo(rs[o].1) is Some {
        o
    } else if github_from(rs, 0) < rs.len() {
        github_from(rs, 0)
    } else {
        -1
    }
}

/// A destination built from a remote and its owner and repository.
pub open spec fn destination_of(d: GitHubDestination, remote: (Seq<char>, Seq<char>)) -> bool {
    &&& github_owner_repo(remote.1) == Some((d.owner@, d.repo@))
    &&& d.remote_name@ == remote.0
    &&& d.remote_url@ == remote.1
}

fn destination_from_remote(remote: &RemoteUrl) -> (r: Option<GitHubDestination>)
    ensures
        match r {
            Some(d) => destination_of(d, (remote.name@, remote.url@)),
            None => github_owner_repo(remote.url@) is None,
        },
{
    match parse_github_owner_repo(remote.url.as_str()) {
        Some((owner, repo)) => Some(
            GitHubDestination {
                owner,
                repo,
                remote_name: remote.name.clone(),
                remote_url: remote.url.clone(),
            },
        ),
        None => None,
    }
}

/// The GitHub destination among a Project's fetch remotes: `origin` when it
/// points at GitHub, otherwise the first remote that does. Other forges are
/// never a destination.
pub fn destination_from_remotes(remotes: &Vec<RemoteUrl>) -> (r: Result<GitHubDestination, GitHubError>)
    ensures
        ({
            let rs = remote_views(remotes@);
            &&& rs.len() == 0 ==> r == Err::<GitHubDestination, GitHubError>(GitHubError::NoRemote)
            &&& rs.len() > 0 && chosen_remote(rs) < 0 ==> r == Err::<GitHubDestination, GitHubError>(
                GitHubError::NotGitHub,
            )
            &&& rs.len() > 0 && chosen_remote(rs) >= 0 ==> (r matches Ok(d) && destination_of(
                d,
                rs[chosen_remote(rs)],
            ))
        }),
{
    let ghost rs = remote_views(remotes@);
    if remotes.len() == 0 {
        return Err(GitHubError::NoRemote);
    }
    proof {
        reveal_strlit("origin");
    }
    let mut i: usize = 0;
    while i < remotes.len() && !str_eq(remotes[i].name.as_str(), "origin")
        invariant
            i <= remotes.len(),
            rs == remote_views(remotes@),
            origin_from(rs, 0) == origin_from(rs, i as int),
        decreases remotes.len() - i,
    {
        i = i + 1;
    }
    if i < remotes.len() {
        assert(origin_from(rs, i as int) == i);
        match destination_from_remote(&remotes[i]) {
            Some(d) => {
                return Ok(d);
            },
            None => {},
        }
    }
    let mut j: usize = 0;
    while j < remotes.len()
        invariant
            j <= remotes.len(),
            rs == remote_views(remotes@),
            github_from(rs, 0) == github_from(rs, j as int),
            !(origin_from(rs, 0) < rs.len() && github_owner_repo(rs[origin_from(rs, 0)].1) is Some),
        decreases remotes.len() - j,
    {
        match destination_from_remote(&remotes[j]) {
            Some(d) => {
                return Ok(d);
            },
            None => {},
        }
        j = j + 1;
    }
    Err(GitHubError::NotGitHub)
}

/// The destination named by `git remote -v` output.
pub fn infer_destination_from_listing(output: &str) -> (r: Result<GitHubDestination, GitHubError>)
    ensures
        ({
            let rs = fetch_remotes(spec_lines(output@));
            &&& rs.len() == 0 ==> r == Err::<GitHubDestination, GitHubError>(GitHubError::NoRemote)
            &&& rs.len() > 0 && chosen_remote(rs) < 0 ==> r == Err::<GitHubDestination, GitHubError>(
                GitHubError::NotGitHub,
            )
            &&& rs.len() > 0 && chosen_remote(rs) >= 0 ==> (r matches Ok(d) && destination_of(
                d,
                rs[chosen_remote(rs)],
            ))
        }),
{
    let remotes = parse_remote_listing(output);
    destination_from_remotes(&remotes)
}

// ---------------------------------------------------------------------------
// Authentication fallback
// ---------------------------------------------------------------------------

/// The methods tried, in order: the GitHub CLI only with permission, then
/// browser, device and pasted token.
pub open spec fn methods_to_try(permission: GhPermission) -> Seq<GitHubAuthMethod> {
    if permission.spec_granted() {
        spec_fallback_order()
    } else {
        spec_fallback_order().drop_first()
    }
}

/// What the last failure becomes once every method has failed.
pub open spec fn final_auth_error(e: GitHubError) -> Seq<char> {
    match e {
        GitHubError::AuthFailed(m) => m@,
        other => other.spec_message(),
    }
}

/// The next thing to do while resolving GitHub authentication.
#[derive(Debug, PartialEq, Eq)]
pub enum AuthStep {
    /// Try this method and report what it gave.
    Try(GitHubAuthMethod),
    /// Every method failed.
    Failed(GitHubError),
}

/// Resolving GitHub authentication: the methods are tried in order until
/// one gives a token.
pub struct AuthFallback {
    permission: GhPermission,
    attempted: Vec<GitHubAuthMethod>,
    last_error: GitHubError,
}

impl AuthFallback {
    pub closed spec fn spec_attempted(&self) -> Seq<GitHubAuthMethod> {
        self.attempted@
    }

    pub closed spec fn spec_permission(&self) -> GhPermission {
        self.permission
    }

    pub closed spec fn spec_last_error(&self) -> GitHubError {
        self.last_error
    }

    /// The methods tried so far are the first ones of the order.
    pub closed spec fn wf(&self) -> bool {
        &&& self.attempted@.len() <= methods_to_try(self.permission).len()
        &&& self.attempted@ == methods_to_try(self.permission).take(self.attempted@.len() as int)
    }

    pub fn new(permission: GhPermission) -> (r: Self)
        ensures
            r.wf(),
            r.spec_permission() == permission,
            r.spec_attempted().len() == 0,
            r.spec_last_error() matches GitHubError::AuthFailed(m) && m@
                == "no GitHub authentication method succeeded"@,
    {
        let r = AuthFallback {
            permission,
            attempted: Vec::new(),
            last_error: GitHubError::AuthFailed(
                String::from_str("no GitHub authentication method succeeded"),
            ),
        };
        assert(r.attempted@ =~= methods_to_try(permission).take(0));
        r
    }

    /// The next method to try, recorded as attempted; or, when none is
    /// left, the failure, which carries the last method's error.
    pub fn next_step(&mut self) -> (r: AuthStep)
        requires
            old(self).wf(),
        ensures
            final(self).wf(),
            final(self).spec_permission() == old(self).spec_permission(),
            final(self).spec_last_error() == old(self).spec_last_error(),
            ({
                let methods = methods_to_try(old(self).spec_permission());
                let n = old(self).spec_attempted().len();
                &&& n < methods.len() ==> r == AuthStep::Try(methods[n as int])
                    && final(self).spec_attempted() == old(self).spec_attempted().push(
                    methods[n as int],
                )
                &&& n == methods.len() ==> (r matches AuthStep::Failed(GitHubError::AuthFailed(m))
                    && m@ == final_auth_error(old(self).spec_last_error()))
                    && final(self).spec_attempted() == old(self).spec_attempted()
            }),
    {
        let order = GitHubAuthMethod::fallback_order();
        let skip: usize = if self.permission.is_granted() {
            0
        } else {
            1
        };
        let n = self.attempted.len();
        if n + skip < order.len() {
            let m = order[n + skip];
            self.attempted.push(m);
            proof {
                let methods = methods_to_try(self.permission);
                assert(methods[n as int] == m);
                assert(self.attempted@ =~= methods.take(n + 1));
            }
            AuthStep::Try(m)
        } else {
            let message = match &self.last_error {
                GitHubError::AuthFailed(m) => m.clone(),
                other => other.message(),
            };
            AuthStep::Failed(GitHubError::AuthFailed(message))
        }
    }

    /// Records what the method last tried gave: a token resolves the
    /// credential; an error is kept for the final failure.
    pub fn record(&mut self, result: Result<String, GitHubError>) -> (r: Option<GitHubAuth>)
        requires
            old(self).wf(),
            old(self).spec_attempted().len() > 0,
        ensures
            final(self).wf(),
            final(self).spec_permission() == old(self).spec_permission(),
            final(self).spec_attempted() == old(self).spec_attempted(),
            match result {
                Ok(token) => (r matches Some(a) && a.method == old(self).spec_attempted().last()
                    && a.token == token && a.attempted@ == old(self).spec_attempted())
                    && final(self).spec_last_error() == old(self).spec_last_error(),
                Err(e) => r is None && final(self).spec_last_error() == e,
            },
    {
        match result {
            Ok(token) => {
                let method = self.attempted[self.attempted.len() - 1];
                let mut attempted: Vec<GitHubAuthMethod> = Vec::new();
                let mut i: usize = 0;
                while i < self.attempted.len()
                    invariant
                        i <= self.attempted.len(),
                        attempted@ == self.attempted@.take(i as int),
                    decreases self.attempted.len() - i,
                {
                    attempted.push(self.attempted[i]);
                    assert(attempted@ =~= self.attempted@.take(i + 1));
                    i = i + 1;
                }
                assert(self.attempted@.take(i as int) =~= self.attempted@);
                Some(GitHubAuth { method, token, attempted })
            },
            Err(e) => {
                self.last_error = e;
                None
            },
        }
    }
}

/// The GitHub CLI is tried only once the user has granted permission to run
/// it, and no more than the four methods are ever tried.
pub proof fn law_cli_only_with_permission(f: AuthFallback)
    requires
        f.wf(),
    ensures
        !f.spec_permission().spec_granted() ==> !f.spec_attempted().contains(GitHubAuthMethod::GhCli),
        f.spec_attempted().len() <= 4,
{
    let a = f.spec_attempted();
    let methods = methods_to_try(f.spec_permission());
    assert(a == methods.take(a.len() as int));
    if !f.spec_permission().spec_granted() {
        assert forall|k: int| 0 <= k < a.len() implies a[k] != GitHubAuthMethod::GhCli by {
            assert(a[k] == methods[k]);
            assert(methods[k] == spec_fallback_order()[k + 1]);
        }
    }
}

/// Each method is tried at most once: no method appears twice among those
/// attempted.
pub proof fn law_each_method_tried_once(f: AuthFallback, i: int, j: int)
    requires
        f.wf(),
        0 <= i < j < f.spec_attempted().len(),
    ensures
        f.spec_attempted()[i] != f.spec_attempted()[j],
{
    let a = f.spec_attempted();
    let methods = methods_to_try(f.spec_permission());
    assert(a[i] == methods[i]);
    assert(a[j] == methods[j]);
}

/// A pasted token, trimmed; a missing or blank token is unavailable.
pub fn pasted_token(token: &Option<String>) -> (r: Result<String, GitHubError>)
    ensures
        match *token {
            Some(t) if spec_trim(t@).len() > 0 => r matches Ok(s) && s@ == spec_trim(t@),
            _ => r matches Err(GitHubError::Unavailable(m)) && m@ == "no pasted GitHub token"@,
        },
{
    match token {
        Some(t) => {
            let trimmed = trim(t.as_str());
            if !trimmed.as_str().is_empty() {
                return Ok(trimmed);
            }
        },
        None => {},
    }
    Err(GitHubError::Unavailable(String::from_str("no pasted GitHub token")))
}

/// The address the browser is sent back to with an authorization code:
/// the redirect URI with `code` and `state` added to its query.
pub open spec fn spec_callback_url(redirect: Seq<char>, code: Seq<char>, state: Seq<char>) -> Seq<char> {
    redirect + (if spec_has_char(redirect, '?') {
        "&"@
    } else {
        "?"@
    }) + "code="@ + code + "&state="@ + state
}

pub fn browser_callback_url(redirect_uri: &str, code: &str, state: &str) -> (r: String)
    ensures
        r@ == spec_callback_url(redirect_uri@, code@, state@),
{
    let has_query = crate::text::seq_has_char(&chars_of(redirect_uri), '?');
    let mut out = redirect_uri.to_owned();
    if has_query {
        out.append("&");
    } else {
        out.append("?");
    }
    out.append("code=");
    out.append(code);
    out.append("&state=");
    out.append(state);
    out
}

// ---------------------------------------------------------------------------
// Work Items
// ---------------------------------------------------------------------------

/// An approved change proposal, ready to publish as a GitHub Work Item.
#[derive(Debug, PartialEq, Eq)]
pub struct WorkItemDraft {
    pub id: String,
    pub title: String,
    pub category: String,
    pub file_path: String,
    pub summary: String,
    pub evidence_ids: Vec<String>,
    pub base_commit: Option<String>,
    pub receipt: Option<WorkItemReceipt>,
}

/// The part of an Improvement Receipt shown on a Work Item.
#[derive(Debug, PartialEq, Eq)]
pub struct WorkItemReceipt {
    pub verdict: String,
    pub improved: Vec<String>,
    pub proving_checks: Vec<String>,
    pub remaining: Vec<String>,
}

pub open spec fn verdict_word(v: ReceiptVerdict) -> Seq<char> {
    match v {
        ReceiptVerdict::Improved => "improved"@,
        ReceiptVerdict::Failed => "failed"@,
    }
}

impl WorkItemDraft {
    /// The draft with a receipt attached: the receipt's base commit, its
    /// verdict and its lists.
    pub fn with_improvement_receipt(self, receipt: &ImprovementReceipt) -> (r: Self)
        ensures
            r.id == self.id,
            r.title == self.title,
            r.category == self.category,
            r.file_path == self.file_path,
            r.summary == self.summary,
            r.evidence_ids == self.evidence_ids,
            r.base_commit == Some(receipt.base_commit),
            r.receipt matches Some(w) && {
                &&& w.verdict@ == verdict_word(receipt.verdict)
                &&& w.improved@ == receipt.improved@
                &&& w.proving_checks@ == receipt.proving_checks@
                &&& w.remaining@ == receipt.remaining@
            },
    {
        let verdict = match receipt.verdict {
            ReceiptVerdict::Improved => String::from_str("improved"),
            ReceiptVerdict::Failed => String::from_str("failed"),
        };
        WorkItemDraft {
            base_commit: Some(receipt.base_commit.clone()),
            receipt: Some(
                WorkItemReceipt {
                    verdict,
                    improved: clone_strings(&receipt.improved),
                    proving_checks: clone_strings(&receipt.proving_checks),
                    remaining: clone_strings(&receipt.remaining),
                },
            ),
            ..self
        }
    }
}

/// A Work Item's GitHub title and body, and its fingerprint.
#[derive(Debug, Clone, PartialEq, Eq)]
pub struct RenderedWorkItem {
    pub title: String,
    pub body: String,
    pub fingerprint: String,
}

#[derive(Debug, Clone, Copy, PartialEq, Eq, Structural)]
pub enum PublishOutcome {
    Created,
    Existing,
}

/// A Work Item as published.
#[derive(Debug, PartialEq, Eq)]
pub struct PublishedWorkItem {
    pub destination: GitHubDestination,
    pub number: u64,
    pub html_url: String,
    pub fingerprint: String,
    pub outcome: PublishOutcome,
}

impl Clone for PublishedWorkItem {
    fn clone(&self) -> (r: Self)
        ensures
            r == *self,
    {
        PublishedWorkItem {
            destination: self.destination.clone(),
            number: self.number,
            html_url: self.html_url.clone(),
            fingerprint: self.fingerprint.clone(),
            outcome: self.outcome,
        }
    }
}

/// Where GitHub Issues are reached.
pub struct GitHubClient {
    base_url: String,
    timeout_millis: u64,
}

impl GitHubClient {
    pub closed spec fn spec_base_url(&self) -> Seq<char> {
        self.base_url@
    }

    pub closed spec fn spec_timeout_millis(&self) -> u64 {
        self.timeout_millis
    }

    /// The public GitHub API with a 45 second timeout.
    pub fn new() -> (r: Self)
        ensures
            r.spec_base_url() == "https://api.github.com"@,
            r.spec_timeout_millis() == 45_000,
    {
        GitHubClient {
            base_url: String::from_str("https://api.github.com"),
            timeout_millis: 45_000,
        }
    }

    /// Another API address, without trailing slashes.
    pub fn with_base_url(self, base_url: &str) -> (r: Self)
        ensures
            r.spec_base_url() == trim_end_char(base_url@, '/'),
            r.spec_timeout_millis() == self.spec_timeout_millis(),
    {
        GitHubClient { base_url: trim_end_chars(base_url, '/'), ..self }
    }

    pub fn with_timeout(self, timeout_millis: u64) -> (r: Self)
        ensures
            r.spec_base_url() == self.spec_base_url(),
            r.spec_timeout_millis() == timeout_millis,
    {
        GitHubClient { timeout_millis, ..self }
    }

    pub fn base_url(&self) -> (r: &str)
        ensures
            r@ == self.spec_base_url(),
    {
        self.base_url.as_str()
    }

    pub fn timeout_millis(&self) -> (r: u64)
        ensures
            r == self.spec_timeout_millis(),
    {
        self.timeout_millis
    }
}

/// The UTF-8 bytes of each text, each followed by a zero byte.
pub open spec fn zero_terminated(texts: Seq<Seq<char>>) -> Seq<u8>
    decreases texts.len(),
{
    if texts.len() == 0 {
        Seq::empty()
    } else {
        zero_terminated(texts.drop_last()) + encode_utf8(texts.last()) + seq![0u8]
    }
}

/// What a Work Item's identity at a destination is hashed from: a fixed
/// tag, then the owner, repository, id, category, file path and each
/// Evidence id, each ended by a zero byte.
pub open spec fn fingerprint_input(d: GitHubDestination, draft: WorkItemDraft) -> Seq<u8> {
    zero_terminated(
        seq![
            "subsurface-work-item"@,
            d.owner@,
            d.repo@,
            draft.id@,
            draft.category@,
            draft.file_path@,
        ] + text_views(draft.evidence_ids@),
    )
}

pub open spec fn text_views(v: Seq<String>) -> Seq<Seq<char>> {
    v.map_values(|s: String| s@)
}

pub open spec fn spec_fingerprint(d: GitHubDestination, draft: WorkItemDraft) -> Seq<char> {
    spec_hex(sha256_digest(fingerprint_input(d, draft)))
}

fn push_text(buf: &mut Vec<u8>, text: &str, texts: Ghost<Seq<Seq<char>>>)
    requires
        old(buf)@ == zero_terminated(texts@),
    ensures
        final(buf)@ == zero_terminated(texts@.push(text@)),
{
    let bytes = text.as_bytes();
    let mut i: usize = 0;
    let ghost start = buf@;
    while i < bytes.len()
        invariant
            i <= bytes@.len(),
            bytes@ == encode_utf8(text@),
            buf@ == start + bytes@.take(i as int),
        decreases bytes@.len() - i,
    {
        buf.push(bytes[i]);
        assert(buf@ =~= start + bytes@.take(i + 1));
        i = i + 1;
    }
    buf.push(0u8);
    proof {
        assert(bytes@.take(i as int) =~= bytes@);
        assert(texts@.push(text@).drop_last() =~= texts@);
        assert(buf@ =~= zero_terminated(texts@.push(text@)));
    }
}

/// The stable fingerprint of one Work Item identity at one destination:
/// the lower-case hexadecimal SHA-256 of its identity fields.
pub fn work_item_fingerprint(destination: &GitHubDestination, draft: &WorkItemDraft) -> (r: String)
    ensures
        r@ == spec_fingerprint(*destination, *draft),
{
    let ghost head = seq![
        "subsurface-work-item"@,
        destination.owner@,
        destination.repo@,
        draft.id@,
        draft.category@,
        draft.file_path@,
    ];
    let mut buf: Vec<u8> = Vec::new();
    proof {
        assert(seq![].push("subsurface-work-item"@) =~= seq!["subsurface-work-item"@]);
    }
    push_text(&mut buf, "subsurface-work-item", Ghost(Seq::empty()));
    assert(Seq::<Seq<char>>::empty().push("subsurface-work-item"@) =~= head.take(1));
    push_text(&mut buf, destination.owner.as_str(), Ghost(head.take(1)));
    assert(head.take(1).push(destination.owner@) =~= head.take(2));
    push_text(&mut buf, destination.repo.as_str(), Ghost(head.take(2)));
    assert(head.take(2).push(destination.repo@) =~= head.take(3));
    push_text(&mut buf, draft.id.as_str(), Ghost(head.take(3)));
    assert(head.take(3).push(draft.id@) =~= head.take(4));
    push_text(&mut buf, draft.category.as_str(), Ghost(head.take(4)));
    assert(head.take(4).push(draft.category@) =~= head.take(5));
    push_text(&mut buf, draft.file_path.as_str(), Ghost(head.take(5)));
    assert(head.take(5).push(draft.file_path@) =~= head);
    let ghost ev = text_views(draft.evidence_ids@);
    let mut i: usize = 0;
    while i < draft.evidence_ids.len()
        invariant
            i <= draft.evidence_ids.len(),
            ev == text_views(draft.evidence_ids@),
            buf@ == zero_terminated(head + ev.take(i as int)),
        decreases draft.evidence_ids.len() - i,
    {
        push_text(&mut buf, draft.evidence_ids[i].as_str(), Ghost(head + ev.take(i as int)));
        assert((head + ev.take(i as int)).push(ev[i as int]) =~= head + ev.take(i + 1));
        i = i + 1;
    }
    assert(ev.take(i as int) =~= ev);
    hex_lower(&sha256(&buf))
}

pub open spec fn spec_marker(fingerprint: Seq<char>) -> Seq<char> {
    "subsurface-work-item:sha256:"@ + fingerprint
}

/// The marker that identifies a Work Item in an issue body.
pub fn fingerprint_marker(fingerprint: &str) -> (r: String)
    ensures
        r@ == spec_marker(fingerprint@),
{
    String::from_str("subsurface-work-item:sha256:").concat(fingerprint)
}

/// A heading and its items as `- item` lines, or `- none`.
pub open spec fn named_list(heading: Seq<char>, items: Seq<Seq<char>>) -> Seq<Seq<char>> {
    seq![Seq::empty(), heading + ":"@] + if items.len() == 0 {
        seq!["- none"@]
    } else {
        items.map_values(|i: Seq<char>| "- "@ + i)
    }
}

pub open spec fn head_lines(draft: WorkItemDraft) -> Seq<Seq<char>> {
    seq![
        "# "@ + spec_trim(draft.title@),
        Seq::empty(),
        "This Work Item is an approved change proposal for `"@ + draft.file_path@ + "`."@,
        Seq::empty(),
        "## Category"@,
        draft.category@,
        Seq::empty(),
        "## Problem"@,
        draft.summary@,
        Seq::empty(),
        "## Evidence"@,
    ]
}

pub open spec fn evidence_lines(draft: WorkItemDraft) -> Seq<Seq<char>> {
    if draft.evidence_ids@.len() == 0 {
        seq!["No Evidence recorded."@]
    } else {
        text_views(draft.evidence_ids@).map_values(|e: Seq<char>| "- `"@ + e + "`"@)
    }
}

pub open spec fn base_lines(draft: WorkItemDraft) -> Seq<Seq<char>> {
    match draft.base_commit {
        Some(c) => seq![Seq::empty(), "## Base commit"@, "`"@ + c@ + "`"@],
        None => Seq::empty(),
    }
}

pub open spec fn receipt_lines(draft: WorkItemDraft) -> Seq<Seq<char>> {
    match draft.receipt {
        Some(w) => seq![Seq::empty(), "## Improvement Receipt"@, "Result: "@ + w.verdict@]
            + named_list("Improved"@, text_views(w.improved@)) + named_list(
            "Proving checks"@,
            text_views(w.proving_checks@),
        ) + named_list("Remaining"@, text_views(w.remaining@)),
        None => Seq::empty(),
    }
}

pub open spec fn tail_lines(marker: Seq<char>) -> Seq<Seq<char>> {
    seq![
        Seq::empty(),
        "---"@,
        "`"@ + marker + "`"@,
        "<!-- "@ + marker + " -->"@,
        Seq::empty(),
    ]
}

/// The lines of a Work Item body: title, file, category, problem and
/// Evidence; the base commit and the receipt when there are; and the
/// fingerprint marker, visible and as an HTML comment.
pub open spec fn body_lines(draft: WorkItemDraft, marker: Seq<char>) -> Seq<Seq<char>> {
    head_lines(draft) + evidence_lines(draft) + base_lines(draft) + receipt_lines(draft)
        + tail_lines(marker)
}

fn push_line(lines: &mut Vec<String>, line: String)
    ensures
        text_views(final(lines)@) == text_views(old(lines)@).push(line@),
{
    lines.push(line);
    assert(text_views(lines@) =~= text_views(old(lines)@).push(line@));
}

fn push_named_list(lines: &mut Vec<String>, heading: &str, items: &Vec<String>)
    ensures
        text_views(final(lines)@) == text_views(old(lines)@) + named_list(heading@, text_views(items@)),
{
    let ghost start = text_views(lines@);
    push_line(lines, String::new());
    push_line(lines, heading.to_owned().concat(":"));
    if items.len() == 0 {
        push_line(lines, String::from_str("- none"));
        assert(text_views(lines@) =~= start + named_list(heading@, text_views(items@)));
        return;
    }
    let ghost iv = text_views(items@);
    let mut i: usize = 0;
    while i < items.len()
        invariant
            i <= items.len(),
            iv == text_views(items@),
            iv.len() > 0,
            text_views(lines@) == start + seq![Seq::empty(), heading@ + ":"@] + iv.take(
                i as int,
            ).map_values(|x: Seq<char>| "- "@ + x),
        decreases items.len() - i,
    {
        push_line(lines, String::from_str("- ").concat(items[i].as_str()));
        assert(iv.take(i + 1).map_values(|x: Seq<char>| "- "@ + x) =~= iv.take(i as int).map_values(
            |x: Seq<char>| "- "@ + x,
        ).push("- "@ + iv[i as int]));
        i = i + 1;
    }
    assert(iv.take(i as int) =~= iv);
    assert(text_views(lines@) =~= start + named_list(heading@, iv));
}

fn join_lines(lines: &Vec<String>) -> (r: String)
    ensures
        r@ == crate::text::spec_join(text_views(lines@), "\n"@),
{
    let mut pieces: Vec<Vec<char>> = Vec::new();
    let mut i: usize = 0;
    while i < lines.len()
        invariant
            i <= lines.len(),
            views(pieces@) == text_views(lines@).take(i as int),
        decreases lines.len() - i,
    {
        let ghost before = pieces@;
        pieces.push(chars_of(lines[i].as_str()));
        assert(views(pieces@) =~= views(before).push(lines@[i as int]@));
        assert(views(pieces@) =~= text_views(lines@).take(i + 1));
        i = i + 1;
    }
    assert(text_views(lines@).take(i as int) =~= text_views(lines@));
    let r = crate::text::join_range(&pieces, 0, pieces.len(), "\n");
    assert(views(pieces@).subrange(0, pieces@.len() as int) =~= views(pieces@));
    r
}


fn render_head(draft: &WorkItemDraft) -> (r: Vec<String>)
    ensures
        text_views(r@) == head_lines(*draft),
{
    let mut lines: Vec<String> = Vec::new();
    push_line(&mut lines, String::from_str("# ").concat(trim(draft.title.as_str()).as_str()));
    push_line(&mut lines, String::new());
    push_line(
        &mut lines,
        String::from_str("This Work Item is an approved change proposal for `").concat(
            draft.file_path.as_str(),
        ).concat("`."),
    );
    push_line(&mut lines, String::new());
    push_line(&mut lines, String::from_str("## Category"));
    push_line(&mut lines, draft.category.clone());
    push_line(&mut lines, String::new());
    push_line(&mut lines, String::from_str("## Problem"));
    push_line(&mut lines, draft.summary.clone());
    push_line(&mut lines, String::new());
    push_line(&mut lines, String::from_str("## Evidence"));
    assert(text_views(lines@) =~= head_lines(*draft));
    lines
}

fn push_evidence(lines: &mut Vec<String>, draft: &WorkItemDraft)
    ensures
        text_views(final(lines)@) == text_views(old(lines)@) + evidence_lines(*draft),
{
    let ghost head = text_views(lines@);
    if draft.evidence_ids.len() == 0 {
        push_line(lines, String::from_str("No Evidence recorded."));
        assert(text_views(lines@) =~= head + evidence_lines(*draft));
        return;
    }
    let ghost ev = text_views(draft.evidence_ids@);
    let mut i: usize = 0;
    while i < draft.evidence_ids.len()
        invariant
            i <= draft.evidence_ids.len(),
            ev == text_views(draft.evidence_ids@),
            text_views(lines@) == head + ev.take(i as int).map_values(
                |e: Seq<char>| "- `"@ + e + "`"@,
            ),
        decreases draft.evidence_ids.len() - i,
    {
        push_line(
            lines,
            String::from_str("- `").concat(draft.evidence_ids[i].as_str()).concat("`"),
        );
        assert(ev.take(i + 1).map_values(|e: Seq<char>| "- `"@ + e + "`"@) =~= ev.take(
            i as int,
        ).map_values(|e: Seq<char>| "- `"@ + e + "`"@).push("- `"@ + ev[i as int] + "`"@));
        i = i + 1;
    }
    assert(ev.take(i as int) =~= ev);
    assert(text_views(lines@) =~= head + evidence_lines(*draft));
}

fn push_base(lines: &mut Vec<String>, draft: &WorkItemDraft)
    ensures
        text_views(final(lines)@) == text_views(old(lines)@) + base_lines(*draft),
{
    let ghost head = text_views(lines@);
    match &draft.base_commit {
        Some(c) => {
            push_line(lines, String::new());
            push_line(lines, String::from_str("## Base commit"));
            push_line(lines, String::from_str("`").concat(c.as_str()).concat("`"));
        },
        None => {},
    }
    assert(text_views(lines@) =~= head + base_lines(*draft));
}

fn push_receipt(lines: &mut Vec<String>, draft: &WorkItemDraft)
    ensures
        text_views(final(lines)@) == text_views(old(lines)@) + receipt_lines(*draft),
{
    let ghost head = text_views(lines@);
    match &draft.receipt {
        Some(w) => {
            push_line(lines, String::new());
            push_line(lines, String::from_str("## Improvement Receipt"));
            push_line(lines, String::from_str("Result: ").concat(w.verdict.as_str()));
            let ghost a = text_views(lines@);
            push_named_list(lines, "Improved", &w.improved);
            push_named_list(lines, "Proving checks", &w.proving_checks);
            push_named_list(lines, "Remaining", &w.remaining);
        },
        None => {},
    }
    assert(text_views(lines@) =~= head + receipt_lines(*draft));
}

fn push_tail(lines: &mut Vec<String>, marker: &str)
    ensures
        text_views(final(lines)@) == text_views(old(lines)@) + tail_lines(marker@),
{
    let ghost head = text_views(lines@);
    push_line(lines, String::new());
    push_line(lines, String::from_str("---"));
    push_line(lines, String::from_str("`").concat(marker).concat("`"));
    push_line(lines, String::from_str("<!-- ").concat(marker).concat(" -->"));
    push_line(lines, String::new());
    assert(text_views(lines@) =~= head + tail_lines(marker@));
}

/// The GitHub issue for a Work Item: its title, a body with its category,
/// problem, Evidence, base commit, receipt and fingerprint marker, and the
/// fingerprint.
pub fn render_work_item(destination: &GitHubDestination, draft: &WorkItemDraft) -> (r: RenderedWorkItem)
    ensures
        r.title == draft.title,
        r.fingerprint@ == spec_fingerprint(*destination, *draft),
        r.body@ == crate::text::spec_join(
            body_lines(*draft, spec_marker(spec_fingerprint(*destination, *draft))),
            "\n"@,
        ),
{
    let fingerprint = work_item_fingerprint(destination, draft);
    let marker = fingerprint_marker(fingerprint.as_str());
    let mut lines = render_head(draft);
    push_evidence(&mut lines, draft);
    push_base(&mut lines, draft);
    push_receipt(&mut lines, draft);
    push_tail(&mut lines, marker.as_str());
    assert(text_views(lines@) =~= body_lines(*draft, marker@));
    let body = join_lines(&lines);
    RenderedWorkItem { title: draft.title.clone(), body, fingerprint }
}

// ---------------------------------------------------------------------------
// Publishing decisions
// ---------------------------------------------------------------------------

/// The search that finds a Work Item by its marker in one repository.
pub open spec fn spec_search_query(d: GitHubDestination, marker: Seq<char>) -> Seq<char> {
    "repo:"@ + d.owner@ + "/"@ + d.repo@ + " \""@ + marker + "\" in:body"@
}

pub fn search_query(destination: &GitHubDestination, marker: &str) -> (r: String)
    ensures
        r@ == spec_search_query(*destination, marker@),
{
    String::from_str("repo:").concat(destination.owner.as_str()).concat("/").concat(
        destination.repo.as_str(),
    ).concat(" \"").concat(marker).concat("\" in:body")
}

/// The issue-search URL for a fingerprint; a base URL the parser refuses is
/// an API error with the parser's message.
pub fn search_url(client: &GitHubClient, destination: &GitHubDestination, fingerprint: &str) -> (r:
    Result<String, GitHubError>)
    ensures
        ({
            let base = client.spec_base_url() + "/search/issues"@;
            let q = spec_search_query(*destination, spec_marker(fingerprint@));
            match url_with_query_text(base, seq![("q"@, q)]) {
                Ok(u) => r matches Ok(s) && s@ == u,
                Err(m) => r matches Err(GitHubError::Api(e)) && e@ == m,
            }
        }),
{
    let marker = fingerprint_marker(fingerprint);
    let base = client.base_url.clone().concat("/search/issues");
    let pairs = vec![(String::from_str("q"), search_query(destination, marker.as_str()))];
    proof {
        assert(pair_views(pairs@) =~= seq![("q"@, spec_search_query(*destination, marker@))]);
    }
    match url_with_query(base.as_str(), &pairs) {
        Ok(u) => Ok(u),
        Err(m) => Err(GitHubError::Api(m)),
    }
}

/// Where a new issue is created.
pub fn issues_url(client: &GitHubClient, destination: &GitHubDestination) -> (r: String)
    ensures
        r@ == client.spec_base_url() + "/repos/"@ + destination.owner@ + "/"@ + destination.repo@
            + "/issues"@,
{
    client.base_url.clone().concat("/repos/").concat(destination.owner.as_str()).concat("/").concat(
        destination.repo.as_str(),
    ).concat("/issues")
}

/// An issue as the search or create response gives it.
#[derive(Debug, Clone, PartialEq, Eq)]
pub struct IssueSummary {
    pub number: u64,
    pub html_url: String,
    pub body: Option<String>,
}

/// Index of the first issue from `i` on whose body holds the marker.
pub open spec fn first_marked(items: Seq<IssueSummary>, marker: Seq<char>, i: int) -> int
    decreases items.len() - i,
{
    if i < 0 || i >= items.len() {
        items.len() as int
    } else if items[i].body matches Some(b) && spec_contains(b@, marker) {
        i
    } else {
        first_marked(items, marker, i + 1)
    }
}

/// The existing Work Item among search results: the first issue whose body
/// holds the fingerprint's marker.
pub fn find_marked_issue(
    items: &Vec<IssueSummary>,
    destination: &GitHubDestination,
    fingerprint: &str,
) -> (r: Option<PublishedWorkItem>)
    ensures
        ({
            let k = first_marked(items@, spec_marker(fingerprint@), 0);
            &&& k == items@.len() ==> r is None
            &&& k < items@.len() ==> (r matches Some(p) && p.destination == *destination
                && p.number == items@[k].number && p.html_url == items@[k].html_url
                && p.fingerprint@ == fingerprint@ && p.outcome == PublishOutcome::Existing)
        }),
{
    let marker = fingerprint_marker(fingerprint);
    let mut i: usize = 0;
    while i < items.len()
        invariant
            i <= items.len(),
            marker@ == spec_marker(fingerprint@),
            first_marked(items@, marker@, 0) == first_marked(items@, marker@, i as int),
        decreases items.len() - i,
    {
        let item = &items[i];
        let marked = match &item.body {
            Some(b) => crate::text::str_contains(b.as_str(), marker.as_str()),
            None => false,
        };
        if marked {
            return Some(
                PublishedWorkItem {
                    destination: destination.clone(),
                    number: item.number,
                    html_url: item.html_url.clone(),
                    fingerprint: fingerprint.to_owned(),
                    outcome: PublishOutcome::Existing,
                },
            );
        }
        i = i + 1;
    }
    None
}

/// A rendered Work Item body carries its fingerprint marker, so a later
/// search for the marker finds the issue it was published as.
pub proof fn law_rendered_body_carries_marker(draft: WorkItemDraft, marker: Seq<char>)
    ensures
        spec_contains(crate::text::spec_join(body_lines(draft, marker), "\n"@), marker),
{
    let lines = body_lines(draft, marker);
    let n = lines.len();
    assert(n >= 5);
    let comment = "<!-- "@ + marker + " -->"@;
    assert(lines[n - 2] == comment);
    assert(lines[n - 1] == Seq::<char>::empty());
    let shorter = lines.drop_last();
    assert(shorter.last() == comment);
    let prefix = crate::text::spec_join(shorter.drop_last(), "\n"@);
    assert(crate::text::spec_join(shorter, "\n"@) == prefix + "\n"@ + comment);
    let body = crate::text::spec_join(lines, "\n"@);
    assert(body == crate::text::spec_join(shorter, "\n"@) + "\n"@ + Seq::<char>::empty());
    reveal_strlit("\n");
    reveal_strlit("<!-- ");
    assert("\n"@.len() == 1);
    assert("<!-- "@.len() == 5);
    let head = prefix + "\n"@ + "<!-- "@;
    assert(body =~= head + marker + (" -->"@ + "\n"@));
    let i: int = prefix.len() as int + 6;
    assert(head.len() == i);
    assert(body.subrange(i, i + marker.len()) =~= marker);
    assert(crate::text::occurs_at(body, marker, i));
}

/// Among search results, an issue whose body is a rendered Work Item body
/// with the marker is found: no issue after it is taken for the Work Item.
pub proof fn law_published_item_found_again(
    items: Seq<IssueSummary>,
    k: int,
    draft: WorkItemDraft,
    marker: Seq<char>,
)
    requires
        0 <= k < items.len(),
        items[k].body matches Some(b) && b@ == crate::text::spec_join(body_lines(draft, marker), "\n"@),
    ensures
        first_marked(items, marker, 0) <= k,
{
    law_rendered_body_carries_marker(draft, marker);
    lemma_first_marked_at_most(items, marker, 0, k);
}

proof fn lemma_first_marked_at_most(items: Seq<IssueSummary>, marker: Seq<char>, i: int, k: int)
    requires
        0 <= i <= k < items.len(),
        items[k].body matches Some(b) && spec_contains(b@, marker),
    ensures
        first_marked(items, marker, i) <= k,
    decreases k - i,
{
    if i < k {
        lemma_first_marked_at_most(items, marker, i + 1, k);
    }
}

/// What to do after the create request.
#[derive(Debug, PartialEq, Eq)]
pub enum CreateFollowUp {
    /// The publication is decided.
    Done(Result<PublishedWorkItem, GitHubError>),
    /// The create timed out: GitHub may have accepted it, so search again
    /// before reporting the timeout.
    SearchAgain(String),
}

/// A created issue is published; a timeout is searched for again, so that
/// an issue GitHub accepted is not created twice; other errors stand.
pub fn after_create(result: Result<PublishedWorkItem, GitHubError>) -> (r: CreateFollowUp)
    ensures
        match result {
            Err(GitHubError::Timeout(m)) => r == CreateFollowUp::SearchAgain(m),
            other => r == CreateFollowUp::Done(other),
        },
{
    match result {
        Err(GitHubError::Timeout(m)) => CreateFollowUp::SearchAgain(m),
        other => CreateFollowUp::Done(other),
    }
}

/// After a timed-out create, a Work Item found by its fingerprint is the
/// one published; otherwise the timeout is reported.
pub fn after_recovery_search(found: Option<PublishedWorkItem>, timeout_message: String) -> (r: Result<
    PublishedWorkItem,
    GitHubError,
>)
    ensures
        match found {
            Some(p) => r == Ok::<PublishedWorkItem, GitHubError>(p),
            None => r == Err::<PublishedWorkItem, GitHubError>(GitHubError::Timeout(timeout_message)),
        },
{
    match found {
        Some(p) => Ok(p),
        None => Err(GitHubError::Timeout(timeout_message)),
    }
}

/// A GitHub API reply with a non-success status is an API error carrying the
/// status and body. `status_line` is the status as HTTP displays it.
pub fn check_api_status(success: bool, status_line: &str, body: &str) -> (r: Result<(), GitHubError>)
    ensures
        success ==> r is Ok,
        !success ==> (r matches Err(GitHubError::Api(m)) && m@ == "HTTP "@ + status_line@ + ": "@
            + body@),
{
    if success {
        Ok(())
    } else {
        Err(GitHubError::Api(String::from_str("HTTP ").concat(status_line).concat(": ").concat(body)))
    }
}

/// What `gh auth token` gives: the trimmed token; a failed run is unavailable
/// with its trimmed error output (or the exit status when there is none), and
/// an empty token is unavailable too.
pub fn gh_token_outcome(success: bool, exit_status: &str, stdout: &str, stderr: &str) -> (r: Result<
    String,
    GitHubError,
>)
    ensures
        !success && spec_trim(stderr@).len() == 0 ==> (r matches Err(GitHubError::Unavailable(m))
            && m@ == "gh auth token exited "@ + exit_status@),
        !success && spec_trim(stderr@).len() > 0 ==> (r matches Err(GitHubError::Unavailable(m))
            && m@ == spec_trim(stderr@)),
        success && spec_trim(stdout@).len() == 0 ==> (r matches Err(GitHubError::Unavailable(m))
            && m@ == "gh auth token returned no token"@),
        success && spec_trim(stdout@).len() > 0 ==> (r matches Ok(t) && t@ == spec_trim(stdout@)),
{
    if !success {
        let err = trim(stderr);
        if err.as_str().is_empty() {
            return Err(GitHubError::Unavailable(String::from_str("gh auth token exited ").concat(exit_status)));
        }
        return Err(GitHubError::Unavailable(err));
    }
    let token = trim(stdout);
    if token.as_str().is_empty() {
        return Err(GitHubError::Unavailable(String::from_str("gh auth token returned no token")));
    }
    Ok(token)
}

/// How many times the device flow is polled before it is given up.
pub const DEVICE_POLL_ATTEMPTS: usize = 3;

/// The device flow did not complete within its polls.
pub fn device_flow_incomplete() -> (r: GitHubError)
    ensures
        r matches GitHubError::Unavailable(m) && m@ == "device authorization did not complete"@,
{
    GitHubError::Unavailable(String::from_str("device authorization did not complete"))
}

/// How a failed request reads: a timeout, or else an API error.
pub fn classify_request_error(timed_out: bool, message: String) -> (r: GitHubError)
    ensures
        timed_out ==> r == GitHubError::Timeout(message),
        !timed_out ==> r == GitHubError::Api(message),
{
    if timed_out {
        GitHubError::Timeout(message)
    } else {
        GitHubError::Api(message)
    }
}

/// The Work Item a create response describes.
pub fn created_work_item(
    destination: &GitHubDestination,
    issue: &IssueSummary,
    rendered: &RenderedWorkItem,
) -> (r: PublishedWorkItem)
    ensures
        r.destination == *destination,
        r.number == issue.number,
        r.html_url == issue.html_url,
        r.fingerprint == rendered.fingerprint,
        r.outcome == PublishOutcome::Created,
{
    PublishedWorkItem {
        destination: destination.clone(),
        number: issue.number,
        html_url: issue.html_url.clone(),
        fingerprint: rendered.fingerprint.clone(),
        outcome: PublishOutcome::Created,
    }
}

// ---------------------------------------------------------------------------
// Authentication sources
// ---------------------------------------------------------------------------

/// The sources that GitHub authentication may use; each is optional.
pub struct GitHubAuthProbes {
    gh: Option<GhCli>,
    oauth: Option<OAuthClient>,
    redirect_uri: String,
    scopes: Vec<String>,
    browser_code: Option<String>,
    pasted_token: Option<String>,
}

impl GitHubAuthProbes {
    pub closed spec fn spec_gh(&self) -> Option<GhCli> {
        self.gh
    }

    pub closed spec fn spec_has_oauth(&self) -> bool {
        self.oauth is Some
    }

    /// The OAuth client the probes hold, if any.
    pub closed spec fn spec_oauth(&self) -> Option<OAuthClient> {
        self.oauth
    }

    pub closed spec fn spec_redirect_uri(&self) -> Seq<char> {
        self.redirect_uri@
    }

    pub closed spec fn spec_scopes(&self) -> Seq<Seq<char>> {
        text_views(self.scopes@)
    }

    pub closed spec fn spec_browser_code(&self) -> Option<Seq<char>> {
        crate::url::opt_text(self.browser_code)
    }

    pub closed spec fn spec_pasted_token(&self) -> Option<Seq<char>> {
        crate::url::opt_text(self.pasted_token)
    }

    /// No sources; the redirect is the local callback and the scope `repo`.
    pub fn new() -> (r: Self)
        ensures
            r.spec_gh() is None,
            !r.spec_has_oauth(),
            r.spec_redirect_uri() == "http://127.0.0.1/callback"@,
            r.spec_scopes() == seq!["repo"@],
            r.spec_browser_code() is None,
            r.spec_pasted_token() is None,
    {
        let scopes = vec![String::from_str("repo")];
        assert(text_views(scopes@) =~= seq!["repo"@]);
        GitHubAuthProbes {
            gh: None,
            oauth: None,
            redirect_uri: String::from_str("http://127.0.0.1/callback"),
            scopes,
            browser_code: None,
            pasted_token: None,
        }
    }

    pub fn with_gh(self, gh: GhCli) -> (r: Self)
        ensures
            r.spec_gh() == Some(gh),
            r.spec_has_oauth() == self.spec_has_oauth(),
            r.spec_oauth() == self.spec_oauth(),
            r.spec_redirect_uri() == self.spec_redirect_uri(),
            r.spec_scopes() == self.spec_scopes(),
            r.spec_browser_code() == self.spec_browser_code(),
            r.spec_pasted_token() == self.spec_pasted_token(),
    {
        GitHubAuthProbes { gh: Some(gh), ..self }
    }

    pub fn with_oauth(self, oauth: OAuthClient, redirect_uri: &str) -> (r: Self)
        ensures
            r.spec_gh() == self.spec_gh(),
            r.spec_has_oauth(),
            r.spec_oauth() == Some(oauth),
            r.spec_redirect_uri() == redirect_uri@,
            r.spec_scopes() == self.spec_scopes(),
            r.spec_browser_code() == self.spec_browser_code(),
            r.spec_pasted_token() == self.spec_pasted_token(),
    {
        GitHubAuthProbes { oauth: Some(oauth), redirect_uri: redirect_uri.to_owned(), ..self }
    }

    pub fn with_scopes(self, scopes: Vec<String>) -> (r: Self)
        ensures
            r.spec_gh() == self.spec_gh(),
            r.spec_has_oauth() == self.spec_has_oauth(),
            r.spec_oauth() == self.spec_oauth(),
            r.spec_redirect_uri() == self.spec_redirect_uri(),
            r.spec_scopes() == text_views(scopes@),
            r.spec_browser_code() == self.spec_browser_code(),
            r.spec_pasted_token() == self.spec_pasted_token(),
    {
        GitHubAuthProbes { scopes, ..self }
    }

    /// Completes the browser flow with an authorization code supplied by
    /// the caller.
    pub fn with_browser_code(self, code: &str) -> (r: Self)
        ensures
            r.spec_gh() == self.spec_gh(),
            r.spec_has_oauth() == self.spec_has_oauth(),
            r.spec_oauth() == self.spec_oauth(),
            r.spec_redirect_uri() == self.spec_redirect_uri(),
            r.spec_scopes() == self.spec_scopes(),
            r.spec_browser_code() == Some(code@),
            r.spec_pasted_token() == self.spec_pasted_token(),
    {
        GitHubAuthProbes { browser_code: Some(code.to_owned()), ..self }
    }

    pub fn with_token(self, token: &str) -> (r: Self)
        ensures
            r.spec_gh() == self.spec_gh(),
            r.spec_has_oauth() == self.spec_has_oauth(),
            r.spec_oauth() == self.spec_oauth(),
            r.spec_redirect_uri() == self.spec_redirect_uri(),
            r.spec_scopes() == self.spec_scopes(),
            r.spec_browser_code() == self.spec_browser_code(),
            r.spec_pasted_token() == Some(token@),
    {
        GitHubAuthProbes { pasted_token: Some(token.to_owned()), ..self }
    }

    pub fn redirect_uri(&self) -> (r: &str)
        ensures
            r@ == self.spec_redirect_uri(),
    {
        self.redirect_uri.as_str()
    }

    pub fn scopes(&self) -> (r: &Vec<String>)
        ensures
            text_views(r@) == self.spec_scopes(),
    {
        &self.scopes
    }

    /// The GitHub CLI, if one is configured.
    pub fn gh_cli(&self) -> (r: Result<&GhCli, GitHubError>)
        ensures
            match self.spec_gh() {
                Some(g) => r == Ok::<&GhCli, GitHubError>(&g),
                None => r matches Err(GitHubError::Unavailable(m)) && m@
                    == "GitHub CLI is not configured"@,
            },
    {
        match &self.gh {
            Some(g) => Ok(g),
            None => Err(GitHubError::Unavailable(String::from_str("GitHub CLI is not configured"))),
        }
    }

    /// The OAuth client and the code for the browser flow, if both are
    /// there.
    pub fn browser_setup(&self) -> (r: Result<(&OAuthClient, &str), GitHubError>)
        ensures
            !self.spec_has_oauth() ==> (r matches Err(GitHubError::Unavailable(m)) && m@
                == "browser OAuth is not configured"@),
            self.spec_has_oauth() && self.spec_browser_code() is None ==> (r matches Err(
                GitHubError::Unavailable(m),
            ) && m@ == "browser OAuth callback is not available"@),
            self.spec_has_oauth() && self.spec_browser_code() is Some ==> (r matches Ok((o, c))
                && Some(*o) == self.spec_oauth() && Some(c@) == self.spec_browser_code()),
    {
        let oauth = match &self.oauth {
            Some(o) => o,
            None => {
                return Err(
                    GitHubError::Unavailable(String::from_str("browser OAuth is not configured")),
                );
            },
        };
        match &self.browser_code {
            Some(code) => Ok((oauth, code.as_str())),
            None => Err(
                GitHubError::Unavailable(
                    String::from_str("browser OAuth callback is not available"),
                ),
            ),
        }
    }

    /// The OAuth client for the device flow, if there is one.
    pub fn device_setup(&self) -> (r: Result<&OAuthClient, GitHubError>)
        ensures
            !self.spec_has_oauth() ==> (r matches Err(GitHubError::Unavailable(m)) && m@
                == "device OAuth is not configured"@),
            self.spec_has_oauth() ==> (r matches Ok(o) && Some(*o) == self.spec_oauth()),
    {
        match &self.oauth {
            Some(o) => Ok(o),
            None => Err(GitHubError::Unavailable(String::from_str("device OAuth is not configured"))),
        }
    }

    /// The pasted token, trimmed; missing or blank is unavailable.
    pub fn try_token(&self) -> (r: Result<String, GitHubError>)
        ensures
            match self.spec_pasted_token() {
                Some(t) if spec_trim(t).len() > 0 => r matches Ok(s) && s@ == spec_trim(t),
                _ => r matches Err(GitHubError::Unavailable(m)) && m@ == "no pasted GitHub token"@,
            },
    {
        pasted_token(&self.pasted_token)
    }
}

/// How an OAuth failure reads as a GitHub authentication failure.
pub fn oauth_error(error: OAuthError) -> (r: GitHubError)
    ensures
        match error {
            OAuthError::DeviceUnsupported => r matches GitHubError::Unavailable(m) && m@
                == "device authorization is not exposed"@,
            OAuthError::Cancelled => r matches GitHubError::Unavailable(m) && m@
                == "OAuth flow was cancelled"@,
            other => r matches GitHubError::AuthFailed(m) && m@ == other.spec_message(),
        },
{
    match error {
        OAuthError::DeviceUnsupported => GitHubError::Unavailable(
            String::from_str("device authorization is not exposed"),
        ),
        OAuthError::Cancelled => GitHubError::Unavailable(String::from_str("OAuth flow was cancelled")),
        other => GitHubError::AuthFailed(other.message()),
    }
}

/// The GitHub OAuth client: the given endpoints, a device endpoint and a
/// 45 second timeout.
pub fn github_oauth_client(
    client_id: &str,
    auth_url: &str,
    token_url: &str,
    device_authorization_url: &str,
) -> (r: OAuthClient)
    ensures
        r.spec_client_id() == client_id@,
        r.spec_auth_url() == auth_url@,
        r.spec_token_url() == token_url@,
        r.spec_device_url() == Some(device_authorization_url@),
        r.spec_timeout_millis() == 45_000,
{
    OAuthClient::new(client_id, auth_url, token_url).with_device_authorization_url(
        device_authorization_url,
    ).with_timeout(45_000)
}

} // verus!
