use vstd::prelude::*;

use crate::candidate::{same_fingerprint, same_state, CandidateError, GitFingerprint};
use crate::text::{
    ascii_lowercase, ascii_uppercase, chars_of, seq_contains, spec_ascii_lowercase,
    spec_ascii_uppercase, spec_contains, spec_split, spec_starts_with, split_char, str_eq,
    push_char, string_of, string_views, views,
};

verus! {

#[derive(Debug, PartialEq, Eq)]
pub enum IsolationError {
    NotAllowlisted { program: String, args: Vec<String> },
    PathEscape(String),
    ConcurrencyLimit,
    Spawn(String),
    ProjectMutated,
    GitError(String),
}

impl IsolationError {
    pub open spec fn spec_message(&self) -> Seq<char> {
        match *self {
            IsolationError::NotAllowlisted { program, .. } => "command is not on the Project allowlist: "@
                + program@,
            IsolationError::PathEscape(m) => "command path escapes the disposable clone: "@ + m@,
            IsolationError::ConcurrencyLimit => "too many candidate commands already running"@,
            IsolationError::Spawn(m) => "failed to start isolated command: "@ + m@,
            IsolationError::ProjectMutated => "Active Project changed during isolated command"@,
            IsolationError::GitError(m) => "Git execution failed: "@ + m@,
        }
    }

    /// The error as a sentence.
    pub fn message(&self) -> (r: String)
        ensures
            r@ == self.spec_message(),
    {
        match self {
            IsolationError::NotAllowlisted { program, .. } => String::from_str(
                "command is not on the Project allowlist: ",
            ).concat(program.as_str()),
            IsolationError::PathEscape(m) => String::from_str(
                "command path escapes the disposable clone: ",
            ).concat(m.as_str()),
            IsolationError::ConcurrencyLimit => String::from_str(
                "too many candidate commands already running",
            ),
            IsolationError::Spawn(m) => String::from_str("failed to start isolated command: ").concat(
                m.as_str(),
            ),
            IsolationError::ProjectMutated => String::from_str(
                "Active Project changed during isolated command",
            ),
            IsolationError::GitError(m) => String::from_str("Git execution failed: ").concat(
                m.as_str(),
            ),
        }
    }

    /// How a preparation failure reads as an isolation failure.
    pub fn from_candidate(error: CandidateError) -> (r: Self)
        ensures
            r == match error {
                CandidateError::ProjectMutated => IsolationError::ProjectMutated,
                CandidateError::GitError(m) => IsolationError::GitError(m),
                CandidateError::PreparationFailed(m) => IsolationError::GitError(m),
                CandidateError::PathEscape(p) => IsolationError::PathEscape(p),
                CandidateError::MissingHead => IsolationError::GitError(r->GitError_0),
            },
            error matches CandidateError::MissingHead ==> (r matches IsolationError::GitError(m)
                && m@ == error.spec_message()),
    {
        match error {
            CandidateError::ProjectMutated => IsolationError::ProjectMutated,
            CandidateError::GitError(m) => IsolationError::GitError(m),
            CandidateError::PreparationFailed(m) => IsolationError::GitError(m),
            CandidateError::PathEscape(p) => IsolationError::PathEscape(p),
            CandidateError::MissingHead => IsolationError::GitError(error.message()),
        }
    }
}

/// A program the Project allows, with the arguments it must start with.
#[derive(Debug, PartialEq, Eq)]
pub struct AllowedCommand {
    pub program: String,
    pub arg_prefix: Vec<String>,
    pub network: bool,
}

pub fn clone_strings(v: &Vec<String>) -> (r: Vec<String>)
    ensures
        r@ == v@,
{
    let mut out: Vec<String> = Vec::new();
    let mut i: usize = 0;
    while i < v.len()
        invariant
            i <= v.len(),
            out@ == v@.take(i as int),
        decreases v.len() - i,
    {
        out.push(v[i].clone());
        assert(out@ =~= v@.take(i + 1));
        i = i + 1;
    }
    assert(v@.take(i as int) =~= v@);
    out
}

/// Two allowlist entries say the same thing.
pub open spec fn same_allowed(a: AllowedCommand, b: AllowedCommand) -> bool {
    a.program == b.program && a.arg_prefix@ == b.arg_prefix@ && a.network == b.network
}

impl Clone for AllowedCommand {
    fn clone(&self) -> (r: Self)
        ensures
            same_allowed(r, *self),
    {
        AllowedCommand {
            program: self.program.clone(),
            arg_prefix: clone_strings(&self.arg_prefix),
            network: self.network,
        }
    }
}

impl AllowedCommand {
    /// A program allowed with any arguments and no network.
    pub fn new(program: &str) -> (r: Self)
        ensures
            r.program@ == program@,
            r.arg_prefix@.len() == 0,
            !r.network,
    {
        AllowedCommand { program: program.to_owned(), arg_prefix: Vec::new(), network: false }
    }

    pub fn with_arg_prefix(self, prefix: Vec<String>) -> (r: Self)
        ensures
            r.program == self.program,
            r.arg_prefix == prefix,
            r.network == self.network,
    {
        AllowedCommand { arg_prefix: prefix, ..self }
    }

    pub fn with_network(self, network: bool) -> (r: Self)
        ensures
            r.program == self.program,
            r.arg_prefix == self.arg_prefix,
            r.network == network,
    {
        AllowedCommand { network, ..self }
    }
}

/// The commands a Project allows in a disposable clone.
#[derive(Debug, Clone, PartialEq, Eq, Default)]
pub struct CommandAllowlist {
    entries: Vec<AllowedCommand>,
}

/// The last component of a path as `Path::file_name` reads it: the last
/// segment that is neither empty nor `.`, unless that is `..`.
pub open spec fn file_name(p: Seq<char>) -> Option<Seq<char>> {
    let segs = spec_split(p, '/').filter(|s: Seq<char>| s.len() > 0 && s != "."@);
    if segs.len() == 0 || segs.last() == ".."@ {
        None
    } else {
        Some(segs.last())
    }
}

/// A program's file name, or the program itself when it has none.
pub open spec fn basename(p: Seq<char>) -> Seq<char> {
    match file_name(p) {
        Some(n) => n,
        None => p,
    }
}

/// `args` starts with the strings of `prefix`.
pub open spec fn args_start_with(args: Seq<String>, prefix: Seq<String>) -> bool {
    prefix.len() <= args.len() && forall|i: int| 0 <= i < prefix.len() ==> #[trigger] args[i]@ == prefix[i]@
}

/// An allowlist entry admits a command when the programs have the same file
/// name and the arguments start with the entry's prefix.
pub open spec fn admits(entry: AllowedCommand, program: Seq<char>, args: Seq<String>) -> bool {
    basename(entry.program@) == basename(program) && args_start_with(args, entry.arg_prefix@)
}

/// Index of the first entry from `i` on that admits the command, or the
/// number of entries.
pub open spec fn first_admitting(
    entries: Seq<AllowedCommand>,
    program: Seq<char>,
    args: Seq<String>,
    i: int,
) -> int
    decreases entries.len() - i,
{
    if i < 0 || i >= entries.len() {
        entries.len() as int
    } else if admits(entries[i], program, args) {
        i
    } else {
        first_admitting(entries, program, args, i + 1)
    }
}

/// The file name of a path, as `Path::file_name` reads it.
pub fn file_name_of(program: &str) -> (r: Option<String>)
    ensures
        crate::url::opt_text(r) == file_name(program@),
{
    let parts = split_char(&chars_of(program), '/');
    let ghost all = views(parts@);
    let ghost keep = |s: Seq<char>| s.len() > 0 && s != "."@;
    let mut last: Option<usize> = None;
    let mut i: usize = 0;
    proof {
        reveal_strlit(".");
        reveal_strlit("..");
    }
    while i < parts.len()
        invariant
            i <= parts.len(),
            all == views(parts@),
            all == spec_split(program@, '/'),
            keep == (|s: Seq<char>| s.len() > 0 && s != "."@),
            "."@ == seq!['.'],
            match last {
                Some(k) => k < i && all.take(i as int).filter(keep).len() > 0 && all.take(
                    i as int,
                ).filter(keep).last() == all[k as int],
                None => all.take(i as int).filter(keep).len() == 0,
            },
        decreases parts.len() - i,
    {
        let piece = &parts[i];
        let kept = piece.len() > 0 && !(piece.len() == 1 && piece[0] == '.');
        proof {
            assert(all.take(i + 1) =~= all.take(i as int).push(piece@));
            all.take(i as int).lemma_filter_push(piece@, keep);
            if piece@ == "."@ {
                assert(piece@.len() == 1 && piece@[0] == '.');
            }
            if piece@.len() == 1 && piece@[0] == '.' {
                assert(piece@ =~= "."@);
            }
        }
        if kept {
            last = Some(i);
        }
        i = i + 1;
    }
    assert(all.take(i as int) =~= all);
    match last {
        None => None,
        Some(k) => {
            let name = &parts[k];
            proof {
                assert(all[k as int] == name@);
            }
            if name.len() == 2 && name[0] == '.' && name[1] == '.' {
                assert(name@ =~= ".."@);
                None
            } else {
                proof {
                    if name@ == ".."@ {
                        assert(name@.len() == 2 && name@[0] == '.' && name@[1] == '.');
                    }
                }
                let r = string_of(name, 0, name.len());
                assert(name@.subrange(0, name@.len() as int) =~= name@);
                Some(r)
            }
        },
    }
}

fn program_basename(program: &str) -> (r: String)
    ensures
        r@ == basename(program@),
{
    match file_name_of(program) {
        Some(n) => n,
        None => program.to_owned(),
    }
}

fn starts_with_args(args: &Vec<String>, prefix: &Vec<String>) -> (r: bool)
    ensures
        r == args_start_with(args@, prefix@),
{
    if prefix.len() > args.len() {
        return false;
    }
    let mut i: usize = 0;
    while i < prefix.len()
        invariant
            i <= prefix.len() <= args.len(),
            forall|k: int| 0 <= k < i ==> #[trigger] args@[k]@ == prefix@[k]@,
        decreases prefix.len() - i,
    {
        if !str_eq(args[i].as_str(), prefix[i].as_str()) {
            return false;
        }
        i = i + 1;
    }
    true
}

impl CommandAllowlist {
    pub closed spec fn spec_entries(&self) -> Seq<AllowedCommand> {
        self.entries@
    }

    pub fn new(entries: Vec<AllowedCommand>) -> (r: Self)
        ensures
            r.spec_entries() == entries@,
    {
        CommandAllowlist { entries }
    }

    /// The entries, as shown to the user before anything runs.
    pub fn preview(&self) -> (r: &[AllowedCommand])
        ensures
            r@ == self.spec_entries(),
    {
        self.entries.as_slice()
    }

    /// The first entry that admits the command.
    pub fn matching(&self, program: &str, args: &Vec<String>) -> (r: Option<&AllowedCommand>)
        ensures
            match r {
                Some(e) => {
                    let k = first_admitting(self.spec_entries(), program@, args@, 0);
                    k < self.spec_entries().len() && *e == self.spec_entries()[k]
                },
                None => first_admitting(self.spec_entries(), program@, args@, 0)
                    == self.spec_entries().len(),
            },
    {
        let base = program_basename(program);
        let mut i: usize = 0;
        while i < self.entries.len()
            invariant
                i <= self.entries.len(),
                base@ == basename(program@),
                first_admitting(self.entries@, program@, args@, 0) == first_admitting(
                    self.entries@,
                    program@,
                    args@,
                    i as int,
                ),
            decreases self.entries.len() - i,
        {
            let entry = &self.entries[i];
            let entry_base = program_basename(entry.program.as_str());
            if str_eq(entry_base.as_str(), base.as_str()) && starts_with_args(
                args,
                &entry.arg_prefix,
            ) {
                return Some(entry);
            }
            i = i + 1;
        }
        None
    }
}

/// Limits on one isolated command.
#[derive(Debug, Clone, Copy, PartialEq, Eq, Structural)]
pub struct ResourceBounds {
    pub timeout_millis: u64,
    pub max_output_bytes: usize,
    pub max_cpu_millis: u64,
    pub max_concurrency: usize,
}

impl Default for ResourceBounds {
    /// Thirty seconds of wall and CPU time, one MiB of output, two commands
    /// at a time.
    fn default() -> (r: Self)
        ensures
            r.timeout_millis == 30_000,
            r.max_output_bytes == 1_048_576,
            r.max_cpu_millis == 30_000,
            r.max_concurrency == 2,
    {
        ResourceBounds {
            timeout_millis: 30_000,
            max_output_bytes: 1_048_576,
            max_cpu_millis: 30_000,
            max_concurrency: 2,
        }
    }
}

/// A command to run in a disposable clone.
#[derive(Debug, PartialEq, Eq)]
pub struct IsolatedCommand {
    pub program: String,
    pub args: Vec<String>,
}

impl Clone for IsolatedCommand {
    fn clone(&self) -> (r: Self)
        ensures
            r.program == self.program,
            r.args@ == self.args@,
    {
        IsolatedCommand { program: self.program.clone(), args: clone_strings(&self.args) }
    }
}

impl IsolatedCommand {
    pub fn new(program: &str, args: Vec<String>) -> (r: Self)
        ensures
            r.program@ == program@,
            r.args == args,
    {
        IsolatedCommand { program: program.to_owned(), args }
    }
}

#[derive(Debug, Clone, Copy, PartialEq, Eq, Structural)]
pub enum CommandOutcome {
    Succeeded,
    Failed,
    TimedOut,
    OutputLimited,
    CpuLimited,
}

/// What an isolated command did, with the Project's state around it.
#[derive(Debug, PartialEq, Eq)]
pub struct CommandReceipt {
    pub program: String,
    pub args: Vec<String>,
    pub outcome: CommandOutcome,
    pub stdout: String,
    pub stderr: String,
    pub exit_code: Option<i32>,
    pub fingerprint_before: GitFingerprint,
    pub fingerprint_after: GitFingerprint,
}

/// A program path with a `..` segment, split at `/` or `\`.
pub open spec fn program_escapes(program: Seq<char>) -> bool {
    exists|i: int, j: int|
        0 <= i <= j <= program.len() && program.subrange(i, j) == ".."@ && (i == 0 || program[i - 1]
            == '/' || program[i - 1] == '\\') && (j == program.len() || program[j] == '/'
            || program[j] == '\\')
}

fn escapes_by_dots(program: &str) -> (r: bool)
    ensures
        r == program_escapes(program@),
{
    let v = chars_of(program);
    proof {
        reveal_strlit("..");
    }
    let mut i: usize = 0;
    while i < v.len() && v.len() - i > 1
        invariant
            v@ == program@,
            ".."@ == seq!['.', '.'],
            forall|a: int, b: int|
                0 <= a < i && a <= b <= v.len() && v@.subrange(a, b) == ".."@ && (a == 0 || v@[a
                    - 1] == '/' || v@[a - 1] == '\\') ==> !(b == v.len() || v@[b] == '/' || v@[b]
                    == '\\'),
        decreases v.len() - i,
    {
        let starts = i == 0 || v[i - 1] == '/' || v[i - 1] == '\\';
        let ends = i + 2 == v.len() || v[i + 2] == '/' || v[i + 2] == '\\';
        if starts && ends && v[i] == '.' && v[i + 1] == '.' {
            assert(v@.subrange(i as int, i + 2) =~= ".."@);
            return true;
        }
        proof {
            assert forall|a: int, b: int|
                0 <= a < i + 1 && a <= b <= v.len() && v@.subrange(a, b) == ".."@ && (a == 0 || v@[a
                    - 1] == '/' || v@[a - 1] == '\\') implies !(b == v.len() || v@[b] == '/'
                || v@[b] == '\\') by {
                if a == i {
                    assert(v@.subrange(a, b).len() == 2);
                    assert(v@.subrange(a, b)[0] == v@[a]);
                    assert(v@.subrange(a, b)[1] == v@[a + 1]);
                }
            }
        }
        i = i + 1;
    }
    proof {
        assert forall|a: int, b: int|
            0 <= a <= b <= v.len() && v@.subrange(a, b) == ".."@ implies !((a == 0 || v@[a - 1]
            == '/' || v@[a - 1] == '\\') && (b == v.len() || v@[b] == '/' || v@[b] == '\\')) by {
            assert(v@.subrange(a, b).len() == 2);
        }
    }
    false
}

/// The checks made before a command runs: it must be on the allowlist, and
/// its program path must not climb out with `..`.
pub fn check_command(allowlist: &CommandAllowlist, command: &IsolatedCommand) -> (r: Result<
    AllowedCommand,
    IsolationError,
>)
    ensures
        ({
            let k = first_admitting(
                allowlist.spec_entries(),
                command.program@,
                command.args@,
                0,
            );
            &&& k == allowlist.spec_entries().len() ==> (r matches Err(
                IsolationError::NotAllowlisted { program, args },
            ) && program == command.program && args@ == command.args@)
            &&& k < allowlist.spec_entries().len() && program_escapes(command.program@) ==> r
                == Err::<AllowedCommand, IsolationError>(
                IsolationError::PathEscape(command.program),
            )
            &&& k < allowlist.spec_entries().len() && !program_escapes(command.program@) ==> (r matches Ok(
                e,
            ) && same_allowed(e, allowlist.spec_entries()[k]))
        }),
{
    let allowed = match allowlist.matching(command.program.as_str(), &command.args) {
        Some(entry) => entry.clone(),
        None => {
            return Err(
                IsolationError::NotAllowlisted {
                    program: command.program.clone(),
                    args: clone_strings(&command.args),
                },
            );
        },
    };
    if escapes_by_dots(command.program.as_str()) {
        return Err(IsolationError::PathEscape(command.program.clone()));
    }
    Ok(allowed)
}

/// Where an allowlisted program is run from.
#[derive(Debug, PartialEq, Eq)]
pub enum ProgramLocation {
    /// An absolute path, used as it is.
    Absolute(String),
    /// A relative path with a `/`, inside the clone.
    InClone(String),
    /// A bare name, looked up on the search path.
    SearchPath,
}

/// Where to find a program: paths with a `..` segment are refused, absolute
/// paths are used as they are, paths with a `/` are taken inside the clone,
/// and bare names are looked up on the search path.
pub fn locate_program(program: &str, clone_root: &str) -> (r: Result<ProgramLocation, IsolationError>)
    ensures
        ({
            let segs = spec_split(program@, '/');
            let dotted = exists|i: int| 0 <= i < segs.len() && #[trigger] segs[i] == ".."@;
            &&& dotted ==> (r matches Err(IsolationError::PathEscape(p)) && p@ == program@)
            &&& !dotted && program@.len() > 0 && program@[0] == '/' ==> (r matches Ok(
                ProgramLocation::Absolute(p),
            ) && p@ == program@)
            &&& !dotted && !(program@.len() > 0 && program@[0] == '/') && program@.contains('/')
                ==> (r matches Ok(ProgramLocation::InClone(p)) && p@ == crate::candidate::joined_path(
                clone_root@,
                program@,
            ))
            &&& !dotted && !program@.contains('/') ==> r == Ok::<ProgramLocation, IsolationError>(
                ProgramLocation::SearchPath,
            )
        }),
{
    let v = chars_of(program);
    let parts = split_char(&v, '/');
    let ghost pv = views(parts@);
    proof {
        reveal_strlit("..");
    }
    let mut i: usize = 0;
    while i < parts.len()
        invariant
            i <= parts.len(),
            pv == views(parts@),
            pv == spec_split(program@, '/'),
            ".."@ == seq!['.', '.'],
            forall|k: int| 0 <= k < i ==> pv[k] != ".."@,
        decreases parts.len() - i,
    {
        let piece = &parts[i];
        if piece.len() == 2 && piece[0] == '.' && piece[1] == '.' {
            assert(pv[i as int] =~= ".."@);
            return Err(IsolationError::PathEscape(program.to_owned()));
        }
        i = i + 1;
    }
    if v.len() > 0 && v[0] == '/' {
        return Ok(ProgramLocation::Absolute(program.to_owned()));
    }
    let mut has_slash = false;
    let mut j: usize = 0;
    while j < v.len()
        invariant
            j <= v.len(),
            v@ == program@,
            has_slash == v@.take(j as int).contains('/'),
        decreases v.len() - j,
    {
        if v[j] == '/' {
            assert(v@.take(j + 1)[j as int] == '/');
            has_slash = true;
        }
        proof {
            if v@.take(j + 1).contains('/') && !has_slash {
                let q = choose|q: int| 0 <= q < j + 1 && #[trigger] v@.take(j + 1)[q] == '/';
                assert(v@.take(j as int)[q] == '/');
            }
            if v@.take(j as int).contains('/') {
                let q = choose|q: int| 0 <= q < j && #[trigger] v@.take(j as int)[q] == '/';
                assert(v@.take(j + 1)[q] == '/');
            }
        }
        j = j + 1;
    }
    assert(v@.take(j as int) =~= v@);
    if has_slash {
        match crate::candidate::confined_path(clone_root, program) {
            Ok(p) => Ok(ProgramLocation::InClone(p)),
            Err(_) => Ok(ProgramLocation::InClone(program.to_owned())),
        }
    } else {
        Ok(ProgramLocation::SearchPath)
    }
}

// ---------------------------------------------------------------------------
// Environment scrubbing
// ---------------------------------------------------------------------------

/// Variables that a clone's commands may see.
pub open spec fn safe_env_names() -> Seq<Seq<char>> {
    seq![
        "PATH"@, "HOME"@, "USER"@, "LOGNAME"@, "TMPDIR"@, "TMP"@, "TEMP"@, "LANG"@, "LC_ALL"@,
        "LC_CTYPE"@, "LC_MESSAGES"@, "TERM"@, "TZ"@, "SHELL"@,
    ]
}

/// Words that mark a variable as a secret.
pub open spec fn secret_markers() -> Seq<Seq<char>> {
    seq![
        "TOKEN"@, "SECRET"@, "PASSWORD"@, "PASSWD"@, "CREDENTIAL"@, "API_KEY"@, "PRIVATE_KEY"@,
        "ACCESS_KEY"@, "AUTH"@,
    ]
}

/// Prefixes that mark a variable as a secret.
pub open spec fn secret_prefixes() -> Seq<Seq<char>> {
    seq!["AWS_"@, "GITHUB_"@, "SSH_"@, "OPENAI_"@, "XAI_"@]
}

/// A variable name looks secret when, in upper case, it holds a secret
/// marker or starts with a secret prefix.
pub open spec fn spec_looks_secret(key: Seq<char>) -> bool {
    let upper = spec_ascii_uppercase(key);
    ||| exists|i: int| 0 <= i < secret_markers().len() && spec_contains(upper, #[trigger] secret_markers()[i])
    ||| exists|i: int| 0 <= i < secret_prefixes().len() && spec_starts_with(upper, #[trigger] secret_prefixes()[i])
}

/// A variable is passed on when it is one of the safe names (ignoring ASCII
/// case) and does not look secret.
pub open spec fn spec_keeps_env(key: Seq<char>) -> bool {
    &&& exists|i: int|
        0 <= i < safe_env_names().len() && spec_ascii_lowercase(key) == spec_ascii_lowercase(
            #[trigger] safe_env_names()[i],
        )
    &&& !spec_looks_secret(key)
}

fn markers() -> (r: Vec<&'static str>)
    ensures
        r@.map_values(|s: &str| s@) == secret_markers(),
{
    let r = vec![
        "TOKEN",
        "SECRET",
        "PASSWORD",
        "PASSWD",
        "CREDENTIAL",
        "API_KEY",
        "PRIVATE_KEY",
        "ACCESS_KEY",
        "AUTH",
    ];
    assert(r@.map_values(|s: &str| s@) =~= secret_markers());
    r
}

fn prefixes() -> (r: Vec<&'static str>)
    ensures
        r@.map_values(|s: &str| s@) == secret_prefixes(),
{
    let r = vec!["AWS_", "GITHUB_", "SSH_", "OPENAI_", "XAI_"];
    assert(r@.map_values(|s: &str| s@) =~= secret_prefixes());
    r
}

fn safe_names() -> (r: Vec<&'static str>)
    ensures
        r@.map_values(|s: &str| s@) == safe_env_names(),
{
    let r = vec![
        "PATH",
        "HOME",
        "USER",
        "LOGNAME",
        "TMPDIR",
        "TMP",
        "TEMP",
        "LANG",
        "LC_ALL",
        "LC_CTYPE",
        "LC_MESSAGES",
        "TERM",
        "TZ",
        "SHELL",
    ];
    assert(r@.map_values(|s: &str| s@) =~= safe_env_names());
    r
}

/// Whether an environment variable's name looks like it holds a secret.
pub fn looks_secret(key: &str) -> (r: bool)
    ensures
        r == spec_looks_secret(key@),
{
    let upper_chars = ascii_uppercase(&chars_of(key));
    let upper = string_of(&upper_chars, 0, upper_chars.len());
    assert(upper_chars@.subrange(0, upper_chars@.len() as int) =~= upper_chars@);
    let ms = markers();
    let ghost mv = ms@.map_values(|s: &str| s@);
    let mut i: usize = 0;
    while i < ms.len()
        invariant
            i <= ms.len(),
            mv == ms@.map_values(|s: &str| s@),
            mv == secret_markers(),
            upper@ == spec_ascii_uppercase(key@),
            forall|k: int| 0 <= k < i ==> !spec_contains(upper@, #[trigger] mv[k]),
        decreases ms.len() - i,
    {
        if crate::text::str_contains(upper.as_str(), ms[i]) {
            assert(spec_contains(upper@, mv[i as int]));
            return true;
        }
        i = i + 1;
    }
    let ps = prefixes();
    let ghost pv = ps@.map_values(|s: &str| s@);
    let mut j: usize = 0;
    while j < ps.len()
        invariant
            j <= ps.len(),
            pv == ps@.map_values(|s: &str| s@),
            pv == secret_prefixes(),
            upper@ == spec_ascii_uppercase(key@),
            forall|k: int| 0 <= k < j ==> !spec_starts_with(upper@, #[trigger] pv[k]),
        decreases ps.len() - j,
    {
        if crate::text::str_starts_with(upper.as_str(), ps[j]) {
            assert(spec_starts_with(upper@, pv[j as int]));
            return true;
        }
        j = j + 1;
    }
    false
}

/// Whether an environment variable is passed on to a clone's commands.
pub fn keeps_env_var(key: &str) -> (r: bool)
    ensures
        r == spec_keeps_env(key@),
{
    let lower_key = ascii_lowercase(&chars_of(key));
    let names = safe_names();
    let ghost nv = names@.map_values(|s: &str| s@);
    let mut found = false;
    let mut i: usize = 0;
    while i < names.len()
        invariant
            i <= names.len(),
            nv == names@.map_values(|s: &str| s@),
            nv == safe_env_names(),
            lower_key@ == spec_ascii_lowercase(key@),
            found == exists|k: int| 0 <= k < i && spec_ascii_lowercase(key@) == spec_ascii_lowercase(#[trigger] nv[k]),
        decreases names.len() - i,
    {
        let lower_name = ascii_lowercase(&chars_of(names[i]));
        let a = string_of(&lower_key, 0, lower_key.len());
        let b = string_of(&lower_name, 0, lower_name.len());
        assert(lower_key@.subrange(0, lower_key@.len() as int) =~= lower_key@);
        assert(lower_name@.subrange(0, lower_name@.len() as int) =~= lower_name@);
        if str_eq(a.as_str(), b.as_str()) {
            found = true;
        }
        proof {
            if found && !(exists|k: int| 0 <= k < i && spec_ascii_lowercase(key@) == spec_ascii_lowercase(#[trigger] nv[k])) {
                assert(spec_ascii_lowercase(key@) == spec_ascii_lowercase(nv[i as int]));
            }
        }
        i = i + 1;
    }
    found && !looks_secret(key)
}

// ---------------------------------------------------------------------------
// Running decisions
// ---------------------------------------------------------------------------

/// How a finished command is classified: a timeout first, then an output
/// cap, then the CPU limit, then the exit status.
pub fn classify_outcome(
    timed_out: bool,
    output_limited: bool,
    cpu_limited: bool,
    success: bool,
) -> (r: CommandOutcome)
    ensures
        r == if timed_out {
            CommandOutcome::TimedOut
        } else if output_limited {
            CommandOutcome::OutputLimited
        } else if cpu_limited {
            CommandOutcome::CpuLimited
        } else if success {
            CommandOutcome::Succeeded
        } else {
            CommandOutcome::Failed
        },
{
    if timed_out {
        CommandOutcome::TimedOut
    } else if output_limited {
        CommandOutcome::OutputLimited
    } else if cpu_limited {
        CommandOutcome::CpuLimited
    } else if success {
        CommandOutcome::Succeeded
    } else {
        CommandOutcome::Failed
    }
}

/// Whether another command may start while `running` are running: the
/// limit is at least one.
pub fn acquire_slot(running: usize, max_concurrency: usize) -> (r: Result<usize, IsolationError>)
    ensures
        running >= (if max_concurrency > 1 { max_concurrency } else { 1 }) ==> r
            == Err::<usize, IsolationError>(IsolationError::ConcurrencyLimit),
        running < (if max_concurrency > 1 { max_concurrency } else { 1 }) ==> r == Ok::<
            usize,
            IsolationError,
        >((running + 1) as usize),
{
    let limit = if max_concurrency > 1 {
        max_concurrency
    } else {
        1
    };
    if running >= limit {
        Err(IsolationError::ConcurrencyLimit)
    } else {
        Ok(running + 1)
    }
}

/// The CPU limit in whole seconds, at least one.
pub fn cpu_seconds(max_cpu_millis: u64) -> (r: u64)
    ensures
        r == if max_cpu_millis / 1000 > 1 { max_cpu_millis / 1000 } else { 1 },
{
    let s = max_cpu_millis / 1000;
    if s > 1 {
        s
    } else {
        1
    }
}

/// The receipt of a command that ran, or `ProjectMutated` when the active
/// Project changed meanwhile.
pub fn finish_run(
    command: &IsolatedCommand,
    outcome: CommandOutcome,
    stdout: String,
    stderr: String,
    exit_code: Option<i32>,
    before: GitFingerprint,
    after: GitFingerprint,
) -> (r: Result<CommandReceipt, IsolationError>)
    ensures
        !same_state(before, after) ==> r == Err::<CommandReceipt, IsolationError>(
            IsolationError::ProjectMutated,
        ),
        same_state(before, after) ==> (r matches Ok(c) && c.program == command.program && c.args@
            == command.args@ && c.outcome == outcome && c.stdout == stdout && c.stderr == stderr
            && c.exit_code == exit_code && c.fingerprint_before == before && c.fingerprint_after
            == after),
{
    if !same_fingerprint(&before, &after) {
        return Err(IsolationError::ProjectMutated);
    }
    Ok(
        CommandReceipt {
            program: command.program.clone(),
            args: clone_strings(&command.args),
            outcome,
            stdout,
            stderr,
            exit_code,
            fingerprint_before: before,
            fingerprint_after: after,
        },
    )
}


// ---------------------------------------------------------------------------
// Sandbox profile and the watch loop
// ---------------------------------------------------------------------------

/// How one character of a path is written inside a quoted sandbox string:
/// a backslash and a double quote are escaped with a backslash.
pub open spec fn escaped_char(c: char) -> Seq<char> {
    if c == '\\' {
        seq!['\\', '\\']
    } else if c == '"' {
        seq!['\\', '"']
    } else {
        seq![c]
    }
}

/// A path as written inside a quoted sandbox string.
pub open spec fn spec_escape_sandbox_path(s: Seq<char>) -> Seq<char>
    decreases s.len(),
{
    if s.len() == 0 {
        Seq::empty()
    } else {
        spec_escape_sandbox_path(s.drop_last()) + escaped_char(s.last())
    }
}

/// Escapes a path for a quoted sandbox string.
pub fn escape_sandbox_path(path: &str) -> (r: String)
    ensures
        r@ == spec_escape_sandbox_path(path@),
{
    let v = chars_of(path);
    let mut out = String::new();
    let mut i: usize = 0;
    assert(v@.take(0) =~= Seq::<char>::empty());
    while i < v.len()
        invariant
            i <= v@.len(),
            v@ == path@,
            out@ == spec_escape_sandbox_path(v@.take(i as int)),
        decreases v.len() - i,
    {
        let c = v[i];
        let ghost t = v@.take(i + 1);
        assert(t.drop_last() =~= v@.take(i as int));
        assert(t.last() == c);
        if c == '\\' {
            push_char(&mut out, '\\');
            push_char(&mut out, '\\');
        } else if c == '"' {
            push_char(&mut out, '\\');
            push_char(&mut out, '"');
        } else {
            push_char(&mut out, c);
        }
        assert(out@ =~= spec_escape_sandbox_path(t));
        i = i + 1;
    }
    assert(v@.take(v@.len() as int) =~= v@);
    out
}

/// The rules that deny the network, one per line.
pub open spec fn network_deny_rules() -> Seq<char> {
    "(deny network*)\n(deny network-outbound)\n(deny network-inbound)\n(deny network-bind)\n"@
}

pub open spec fn subpath_rule(p: Seq<char>) -> Seq<char> {
    "(subpath \""@ + p + "\")"@
}

/// The sandbox profile of a command: everything is allowed but writing
/// under the Project (its path as given and, when it differs once escaped,
/// its canonical path), and, without network permission, the network.
pub open spec fn spec_sandbox_profile(network: bool, root: Seq<char>, canonical: Option<Seq<char>>) -> Seq<
    char,
> {
    let first = spec_escape_sandbox_path(root);
    let writes = match canonical {
        Some(c) => if spec_escape_sandbox_path(c) != first {
            subpath_rule(first) + " "@ + subpath_rule(spec_escape_sandbox_path(c))
        } else {
            subpath_rule(first)
        },
        None => subpath_rule(first),
    };
    "(version 1)\n(allow default)\n(deny file-write* "@ + writes + ")\n"@ + if network {
        Seq::empty()
    } else {
        network_deny_rules()
    }
}

fn subpath_of(p: &String) -> (r: String)
    ensures
        r@ == subpath_rule(p@),
{
    String::from_str("(subpath \"").concat(p.as_str()).concat("\")")
}

/// The profile `sandbox-exec` runs a command under; `canonical` is the
/// Project's canonical path where the file system gave one.
pub fn sandbox_profile(network: bool, project_root: &str, canonical: Option<&str>) -> (r: String)
    ensures
        r@ == spec_sandbox_profile(
            network,
            project_root@,
            match canonical {
                Some(c) => Some(c@),
                None => None,
            },
        ),
{
    let first = escape_sandbox_path(project_root);
    let writes = match canonical {
        Some(c) => {
            let second = escape_sandbox_path(c);
            if str_eq(second.as_str(), first.as_str()) {
                subpath_of(&first)
            } else {
                subpath_of(&first).concat(" ").concat(subpath_of(&second).as_str())
            }
        },
        None => subpath_of(&first),
    };
    let head = String::from_str("(version 1)\n(allow default)\n(deny file-write* ").concat(
        writes.as_str(),
    ).concat(")\n");
    if network {
        head
    } else {
        head.concat(
            "(deny network*)\n(deny network-outbound)\n(deny network-inbound)\n(deny network-bind)\n",
        )
    }
}

/// What the runner does next while a command runs.
#[derive(Debug, Clone, Copy, PartialEq, Eq, Structural)]
pub enum WatchAction {
    /// The output budget ran out: stop the process group.
    StopForOutput,
    /// The time bound passed: stop the process group.
    StopForTimeout,
    /// The process exited: collect it.
    Collect,
    /// Nothing happened yet: wait a little and look again.
    Wait,
}

/// One look at a running command: running out of output is checked first,
/// then the time bound, then whether the process exited.
pub fn watch_step(output_exhausted: bool, elapsed_millis: u64, timeout_millis: u64, exited: bool) -> (r:
    WatchAction)
    ensures
        r == if output_exhausted {
            WatchAction::StopForOutput
        } else if elapsed_millis >= timeout_millis {
            WatchAction::StopForTimeout
        } else if exited {
            WatchAction::Collect
        } else {
            WatchAction::Wait
        },
{
    if output_exhausted {
        WatchAction::StopForOutput
    } else if elapsed_millis >= timeout_millis {
        WatchAction::StopForTimeout
    } else if exited {
        WatchAction::Collect
    } else {
        WatchAction::Wait
    }
}

} // verus!
