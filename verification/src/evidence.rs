use vstd::prelude::*;

use crate::text::{
    chars_of, lines_of, next_sep, slice_chars, spec_contains, spec_ends_with, spec_lines, spec_split,
    spec_split_text, spec_starts_with, lowercase_text, spec_trim, split_char, split_text,
    str_contains, str_ends_with, str_eq, str_starts_with, string_of, to_lowercase, trim, trim_chars,
    views,
};

verus! {

/// An inclusive range of 1-based line numbers.
#[derive(Debug, Clone, Copy, PartialEq, Eq, Structural)]
pub struct LineRange {
    pub start: usize,
    pub end: usize,
}

#[derive(Debug, Clone, Copy, PartialEq, Eq, Structural)]
pub enum EvidenceKind {
    DirectDiff,
    CoCommittedTest,
    CoCommittedDoc,
}

/// One piece of git history about a selection.
#[derive(Debug, PartialEq, Eq)]
pub struct Evidence {
    pub commit_sha: String,
    pub author: String,
    pub timestamp: String,
    pub message: String,
    pub diff: String,
    pub lines_touched: usize,
    pub kind: EvidenceKind,
    pub is_heuristic: bool,
    pub heuristic_note: Option<String>,
    pub file_path: String,
}

/// Walking the history failed.
#[derive(Debug, Clone, PartialEq, Eq)]
pub enum EvidenceError {
    Git(String),
}

impl EvidenceError {
    pub fn message(&self) -> (r: String)
        ensures
            r@ == (match *self {
                EvidenceError::Git(m) => "Git execution failed: "@ + m@,
            }),
    {
        match self {
            EvidenceError::Git(m) => String::from_str("Git execution failed: ").concat(m.as_str()),
        }
    }
}

/// What an Evidence item holds, as values.
pub struct EvidenceView {
    pub commit_sha: Seq<char>,
    pub author: Seq<char>,
    pub timestamp: Seq<char>,
    pub message: Seq<char>,
    pub diff: Seq<char>,
    pub lines_touched: nat,
    pub kind: EvidenceKind,
    pub is_heuristic: bool,
    pub heuristic_note: Option<Seq<char>>,
    pub file_path: Seq<char>,
}

impl View for Evidence {
    type V = EvidenceView;

    open spec fn view(&self) -> EvidenceView {
        EvidenceView {
            commit_sha: self.commit_sha@,
            author: self.author@,
            timestamp: self.timestamp@,
            message: self.message@,
            diff: self.diff@,
            lines_touched: self.lines_touched as nat,
            kind: self.kind,
            is_heuristic: self.is_heuristic,
            heuristic_note: match self.heuristic_note {
                Some(n) => Some(n@),
                None => None,
            },
            file_path: self.file_path@,
        }
    }
}

pub open spec fn evidence_views(es: Seq<Evidence>) -> Seq<EvidenceView> {
    es.map_values(|e: Evidence| e@)
}

pub fn clone_opt_string(s: &Option<String>) -> (r: Option<String>)
    ensures
        r == *s,
{
    match s {
        Some(x) => Some(x.clone()),
        None => None,
    }
}

impl Clone for Evidence {
    fn clone(&self) -> (r: Self)
        ensures
            r == *self,
    {
        Evidence {
            commit_sha: self.commit_sha.clone(),
            author: self.author.clone(),
            timestamp: self.timestamp.clone(),
            message: self.message.clone(),
            diff: self.diff.clone(),
            lines_touched: self.lines_touched,
            kind: self.kind,
            is_heuristic: self.is_heuristic,
            heuristic_note: clone_opt_string(&self.heuristic_note),
            file_path: self.file_path.clone(),
        }
    }
}

/// A changed path looks like a test: its lower-cased form mentions `test`
/// or `spec`, or lies under `tests/` or `test/`.
pub open spec fn spec_is_test_file(path: Seq<char>) -> bool {
    let lower = lowercase_text(path);
    spec_contains(lower, "test"@) || spec_contains(lower, "spec"@) || spec_starts_with(
        lower,
        "tests/"@,
    ) || spec_starts_with(lower, "test/"@)
}

/// A changed path looks like documentation: a `.md`, `.rst` or `.txt` file,
/// or one under `docs/` or `doc/` (compared in lower case).
pub open spec fn spec_is_doc_file(path: Seq<char>) -> bool {
    let lower = lowercase_text(path);
    spec_ends_with(lower, ".md"@) || spec_ends_with(lower, ".rst"@) || spec_ends_with(
        lower,
        ".txt"@,
    ) || spec_starts_with(lower, "docs/"@) || spec_starts_with(lower, "doc/"@)
}

pub fn is_test_file(path: &str) -> (r: bool)
    ensures
        r == spec_is_test_file(path@),
{
    let lower = to_lowercase(path);
    let l = lower.as_str();
    str_contains(l, "test") || str_contains(l, "spec") || str_starts_with(l, "tests/")
        || str_starts_with(l, "test/")
}

pub fn is_doc_file(path: &str) -> (r: bool)
    ensures
        r == spec_is_doc_file(path@),
{
    let lower = to_lowercase(path);
    let l = lower.as_str();
    str_ends_with(l, ".md") || str_ends_with(l, ".rst") || str_ends_with(l, ".txt")
        || str_starts_with(l, "docs/") || str_starts_with(l, "doc/")
}

// ---------------------------------------------------------------------------
// Reading the history of a selection
// ---------------------------------------------------------------------------

/// The marker that starts each commit in the `git log -L` output.
pub open spec fn commit_marker() -> Seq<char> {
    "__SUB_COMMIT__"@
}

/// The `i`-th header field, or nothing when there are fewer.
pub open spec fn field_at(fields: Seq<Seq<char>>, i: int) -> Seq<char> {
    if 0 <= i < fields.len() {
        fields[i]
    } else {
        Seq::empty()
    }
}

/// Whether a diff line adds or removes a line.
pub open spec fn is_change_line(l: Seq<char>) -> bool {
    l.len() > 0 && (l[0] == '+' || l[0] == '-')
}

/// The number of added or removed lines in a diff.
pub open spec fn changed_lines(diff: Seq<char>) -> nat {
    spec_lines(diff).filter(|l: Seq<char>| is_change_line(l)).len()
}

/// A commit message: the subject, then the body after a blank line when
/// there is one.
pub open spec fn full_message(subject: Seq<char>, body: Seq<char>) -> Seq<char> {
    if body.len() == 0 {
        subject
    } else {
        subject + "\n\n"@ + body
    }
}

/// The direct Evidence one commit chunk of the log gives: its header line
/// holds sha, author, date, subject and body separated by NUL characters, and
/// the diff follows. A blank chunk, or one with no sha field, gives none.
/// At least one touched line is counted.
pub open spec fn spec_parse_chunk(chunk: Seq<char>, file_path: Seq<char>) -> Option<EvidenceView> {
    let c = spec_trim(chunk);
    let k = next_sep(c, '\n', 0);
    let header = c.subrange(0, k);
    let diff = if k < c.len() {
        c.subrange(k + 1, c.len() as int)
    } else {
        Seq::empty()
    };
    let fields = spec_split(header, '\0');
    let n = changed_lines(diff);
    if c.len() == 0 || fields.len() == 0 || fields[0].len() == 0 {
        None
    } else {
        Some(
            EvidenceView {
                commit_sha: spec_trim(fields[0]),
                author: spec_trim(field_at(fields, 1)),
                timestamp: spec_trim(field_at(fields, 2)),
                message: full_message(spec_trim(field_at(fields, 3)), spec_trim(field_at(fields, 4))),
                diff,
                lines_touched: if n == 0 {
                    1
                } else {
                    n
                },
                kind: EvidenceKind::DirectDiff,
                is_heuristic: false,
                heuristic_note: None,
                file_path,
            },
        )
    }
}

/// Some item of `es` is about commit `sha`.
pub open spec fn sha_seen(es: Seq<EvidenceView>, sha: Seq<char>) -> bool {
    exists|j: int| 0 <= j < es.len() && #[trigger] es[j].commit_sha == sha
}

/// The direct Evidence of the chunks, in order, each commit once (its first
/// chunk).
pub open spec fn direct_from_chunks(chunks: Seq<Seq<char>>, file_path: Seq<char>) -> Seq<EvidenceView>
    decreases chunks.len(),
{
    if chunks.len() == 0 {
        Seq::empty()
    } else {
        let prev = direct_from_chunks(chunks.drop_last(), file_path);
        match spec_parse_chunk(chunks.last(), file_path) {
            Some(e) => if sha_seen(prev, e.commit_sha) {
                prev
            } else {
                prev.push(e)
            },
            None => prev,
        }
    }
}

/// The direct Evidence in a `git log -L` output whose commits each start with
/// the commit marker.
pub open spec fn spec_direct_evidence(log: Seq<char>, file_path: Seq<char>) -> Seq<EvidenceView> {
    direct_from_chunks(spec_split_text(log, commit_marker()), file_path)
}

fn field_chars(fields: &Vec<Vec<char>>, i: usize) -> (r: Vec<char>)
    ensures
        r@ == spec_trim(field_at(views(fields@), i as int)),
{
    if i < fields.len() {
        trim_chars(&fields[i])
    } else {
        let empty: Vec<char> = Vec::new();
        trim_chars(&empty)
    }
}

fn count_changed_lines(diff: &Vec<char>) -> (r: usize)
    ensures
        r == changed_lines(diff@),
{
    let lines = lines_of(diff);
    let ghost ls = views(lines@);
    let mut n: usize = 0;
    let mut i: usize = 0;
    while i < lines.len()
        invariant
            i <= lines.len(),
            ls == views(lines@),
            n == ls.take(i as int).filter(|l: Seq<char>| is_change_line(l)).len(),
            n <= i,
        decreases lines.len() - i,
    {
        let l = &lines[i];
        let change = l.len() > 0 && (l[0] == '+' || l[0] == '-');
        proof {
            assert(ls.take(i + 1) =~= ls.take(i as int).push(ls[i as int]));
            ls.take(i as int).lemma_filter_push(ls[i as int], |l: Seq<char>| is_change_line(l));
            assert(ls[i as int] == l@);
        }
        if change {
            n = n + 1;
        }
        i = i + 1;
    }
    assert(ls.take(i as int) =~= ls);
    n
}

fn text_of(v: &Vec<char>) -> (r: String)
    ensures
        r@ == v@,
{
    let r = string_of(v, 0, v.len());
    assert(v@.subrange(0, v@.len() as int) =~= v@);
    r
}

/// The direct Evidence of one chunk of the log.
pub fn parse_log_chunk(chunk: &Vec<char>, file_path: &str) -> (r: Option<Evidence>)
    ensures
        match r {
            Some(e) => spec_parse_chunk(chunk@, file_path@) == Some(e@),
            None => spec_parse_chunk(chunk@, file_path@) is None,
        },
{
    let c = trim_chars(chunk);
    let mut k: usize = 0;
    while k < c.len() && c[k] != '\n'
        invariant
            k <= c.len(),
            forall|j: int| 0 <= j < k ==> c@[j] != '\n',
        decreases c.len() - k,
    {
        k = k + 1;
    }
    proof {
        lemma_first_sep(c@, '\n', k as int);
    }
    if c.len() == 0 {
        return None;
    }
    let header = slice_chars(&c, 0, k);
    let diff = if k < c.len() {
        slice_chars(&c, k + 1, c.len())
    } else {
        Vec::new()
    };
    let fields = split_char(&header, '\0');
    if fields.len() == 0 || fields[0].len() == 0 {
        return None;
    }
    let sha = trim_chars(&fields[0]);
    let author = field_chars(&fields, 1);
    let timestamp = field_chars(&fields, 2);
    let subject = field_chars(&fields, 3);
    let body = field_chars(&fields, 4);
    let mut message = text_of(&subject);
    if body.len() > 0 {
        message.append("\n\n");
        let b = text_of(&body);
        message.append(b.as_str());
    }
    let n = count_changed_lines(&diff);
    let touched = if n == 0 {
        1
    } else {
        n
    };
    let e = Evidence {
        commit_sha: text_of(&sha),
        author: text_of(&author),
        timestamp: text_of(&timestamp),
        message,
        diff: text_of(&diff),
        lines_touched: touched,
        kind: EvidenceKind::DirectDiff,
        is_heuristic: false,
        heuristic_note: None,
        file_path: file_path.to_owned(),
    };
    proof {
        assert(views(fields@)[0] == fields@[0]@);
        if k >= c.len() {
            assert(diff@ =~= Seq::<char>::empty());
        }
    }
    Some(e)
}

proof fn lemma_first_sep(s: Seq<char>, sep: char, k: int)
    requires
        0 <= k <= s.len(),
        forall|j: int| 0 <= j < k ==> s[j] != sep,
        k == s.len() || s[k] == sep,
    ensures
        next_sep(s, sep, 0) == k,
{
    lemma_first_sep_from(s, sep, 0, k);
}

proof fn lemma_first_sep_from(s: Seq<char>, sep: char, from: int, k: int)
    requires
        0 <= from <= k <= s.len(),
        forall|j: int| from <= j < k ==> s[j] != sep,
        k == s.len() || s[k] == sep,
    ensures
        next_sep(s, sep, from) == k,
    decreases k - from,
{
    if from < k {
        lemma_first_sep_from(s, sep, from + 1, k);
    }
}

fn seen_sha(items: &Vec<Evidence>, sha: &str) -> (r: bool)
    ensures
        r == sha_seen(evidence_views(items@), sha@),
{
    let ghost vs = evidence_views(items@);
    let mut i: usize = 0;
    while i < items.len()
        invariant
            i <= items.len(),
            vs == evidence_views(items@),
            forall|j: int| 0 <= j < i ==> vs[j].commit_sha != sha@,
        decreases items.len() - i,
    {
        if str_eq(items[i].commit_sha.as_str(), sha) {
            assert(vs[i as int].commit_sha == sha@);
            return true;
        }
        i = i + 1;
    }
    false
}

/// The direct Evidence in a `git log -L` output: one item per commit, in the
/// order of the log.
pub fn direct_evidence_from_log(log: &str, file_path: &str) -> (r: Vec<Evidence>)
    ensures
        evidence_views(r@) == spec_direct_evidence(log@, file_path@),
{
    let marker = chars_of("__SUB_COMMIT__");
    proof {
        reveal_strlit("__SUB_COMMIT__");
    }
    assert(marker@.len() > 0);
    let chunks = split_text(&chars_of(log), &marker);
    let ghost cs = views(chunks@);
    let mut out: Vec<Evidence> = Vec::new();
    let mut i: usize = 0;
    while i < chunks.len()
        invariant
            i <= chunks.len(),
            cs == views(chunks@),
            cs == spec_split_text(log@, commit_marker()),
            evidence_views(out@) == direct_from_chunks(cs.take(i as int), file_path@),
        decreases chunks.len() - i,
    {
        proof {
            assert(cs.take(i + 1).drop_last() =~= cs.take(i as int));
            assert(cs.take(i + 1).last() == chunks@[i as int]@);
        }
        match parse_log_chunk(&chunks[i], file_path) {
            Some(e) => {
                if !seen_sha(&out, e.commit_sha.as_str()) {
                    let ghost before = out@;
                    out.push(e);
                    assert(evidence_views(out@) =~= evidence_views(before).push(e@));
                }
            },
            None => {},
        }
        i = i + 1;
    }
    assert(cs.take(i as int) =~= cs);
    out
}

/// The note on co-committed Evidence: it is a heuristic link.
pub open spec fn co_note(word: Seq<char>, path: Seq<char>) -> Seq<char> {
    "Co-committed "@ + word + " file `"@ + path + "`; heuristic linkage, not verified coverage"@
}

pub open spec fn co_item(d: EvidenceView, path: Seq<char>, kind: EvidenceKind, word: Seq<char>) -> EvidenceView {
    EvidenceView {
        commit_sha: d.commit_sha,
        author: d.author,
        timestamp: d.timestamp,
        message: d.message,
        diff: Seq::empty(),
        lines_touched: 0,
        kind,
        is_heuristic: true,
        heuristic_note: Some(co_note(word, path)),
        file_path: path,
    }
}

/// The co-committed Evidence one line of `git show --name-only` gives: a
/// test or else a doc file other than the selection's file.
pub open spec fn co_of_line(d: EvidenceView, line: Seq<char>, file_path: Seq<char>) -> Seq<EvidenceView> {
    let p = spec_trim(line);
    if p.len() == 0 || p == file_path {
        Seq::empty()
    } else if spec_is_test_file(p) {
        seq![co_item(d, p, EvidenceKind::CoCommittedTest, "test"@)]
    } else if spec_is_doc_file(p) {
        seq![co_item(d, p, EvidenceKind::CoCommittedDoc, "doc"@)]
    } else {
        Seq::empty()
    }
}

pub open spec fn co_from_lines(d: EvidenceView, lines: Seq<Seq<char>>, file_path: Seq<char>) -> Seq<EvidenceView>
    decreases lines.len(),
{
    if lines.len() == 0 {
        Seq::empty()
    } else {
        co_from_lines(d, lines.drop_last(), file_path) + co_of_line(d, lines.last(), file_path)
    }
}

/// The tests and docs changed in the same commit as a direct item, from the
/// commit's file list.
pub open spec fn spec_co_committed(d: EvidenceView, show: Seq<char>, file_path: Seq<char>) -> Seq<EvidenceView> {
    co_from_lines(d, spec_lines(show), file_path)
}

fn co_evidence(d: &Evidence, path: &str, kind: EvidenceKind, word: &str) -> (r: Evidence)
    ensures
        r@ == co_item(d@, path@, kind, word@),
{
    let note = String::from_str("Co-committed ").concat(word).concat(" file `").concat(path).concat(
        "`; heuristic linkage, not verified coverage",
    );
    Evidence {
        commit_sha: d.commit_sha.clone(),
        author: d.author.clone(),
        timestamp: d.timestamp.clone(),
        message: d.message.clone(),
        diff: String::new(),
        lines_touched: 0,
        kind,
        is_heuristic: true,
        heuristic_note: Some(note),
        file_path: path.to_owned(),
    }
}

/// The co-committed test and doc Evidence of a direct item, from the output
/// of `git show --name-only` for its commit.
pub fn co_committed_evidence(direct: &Evidence, show: &str, file_path: &str) -> (r: Vec<Evidence>)
    ensures
        evidence_views(r@) == spec_co_committed(direct@, show@, file_path@),
{
    let lines = lines_of(&chars_of(show));
    let ghost ls = views(lines@);
    let mut out: Vec<Evidence> = Vec::new();
    let mut i: usize = 0;
    while i < lines.len()
        invariant
            i <= lines.len(),
            ls == views(lines@),
            ls == spec_lines(show@),
            evidence_views(out@) == co_from_lines(direct@, ls.take(i as int), file_path@),
        decreases lines.len() - i,
    {
        proof {
            assert(ls.take(i + 1).drop_last() =~= ls.take(i as int));
            assert(ls.take(i + 1).last() == lines@[i as int]@);
        }
        let p = text_of(&trim_chars(&lines[i]));
        let ghost before = out@;
        if p.as_str().is_empty() || str_eq(p.as_str(), file_path) {
            assert(evidence_views(out@) =~= evidence_views(before) + Seq::<EvidenceView>::empty());
        } else if is_test_file(p.as_str()) {
            out.push(co_evidence(direct, p.as_str(), EvidenceKind::CoCommittedTest, "test"));
            proof {
                reveal_strlit("test");
            }
            assert(evidence_views(out@) =~= evidence_views(before) + co_of_line(
                direct@,
                ls[i as int],
                file_path@,
            ));
        } else if is_doc_file(p.as_str()) {
            out.push(co_evidence(direct, p.as_str(), EvidenceKind::CoCommittedDoc, "doc"));
            assert(evidence_views(out@) =~= evidence_views(before) + co_of_line(
                direct@,
                ls[i as int],
                file_path@,
            ));
        } else {
            assert(evidence_views(out@) =~= evidence_views(before) + Seq::<EvidenceView>::empty());
        }
        i = i + 1;
    }
    assert(ls.take(i as int) =~= ls);
    out
}

/// Each direct item followed by its co-committed Evidence; `shows[i]` is the
/// file list of the `i`-th item's commit, when it could be read.
pub open spec fn with_co_commits(
    ds: Seq<EvidenceView>,
    shows: Seq<Option<Seq<char>>>,
    file_path: Seq<char>,
) -> Seq<EvidenceView>
    decreases ds.len(),
{
    if ds.len() == 0 {
        Seq::empty()
    } else {
        let i = ds.len() - 1;
        with_co_commits(ds.drop_last(), shows, file_path).push(ds.last()) + if i < shows.len()
            && shows[i] is Some {
            spec_co_committed(ds.last(), shows[i]->0, file_path)
        } else {
            Seq::empty()
        }
    }
}

pub open spec fn opt_texts(v: Seq<Option<String>>) -> Seq<Option<Seq<char>>> {
    v.map_values(
        |o: Option<String>|
            match o {
                Some(s) => Some(s@),
                None => None,
            },
    )
}

/// The Evidence of a history walk: each direct item, then the tests and
/// docs committed with it.
pub fn evidence_with_co_commits(
    direct: &Vec<Evidence>,
    shows: &Vec<Option<String>>,
    file_path: &str,
) -> (r: Vec<Evidence>)
    ensures
        evidence_views(r@) == with_co_commits(evidence_views(direct@), opt_texts(shows@), file_path@),
{
    let ghost ds = evidence_views(direct@);
    let ghost ss = opt_texts(shows@);
    let mut out: Vec<Evidence> = Vec::new();
    let mut i: usize = 0;
    while i < direct.len()
        invariant
            i <= direct.len(),
            ds == evidence_views(direct@),
            ss == opt_texts(shows@),
            evidence_views(out@) == with_co_commits(ds.take(i as int), ss, file_path@),
        decreases direct.len() - i,
    {
        proof {
            assert(ds.take(i + 1).drop_last() =~= ds.take(i as int));
            assert(ds.take(i + 1).last() == direct@[i as int]@);
        }
        let ghost before = out@;
        out.push(direct[i].clone());
        let ghost pushed = out@;
        assert(evidence_views(pushed) =~= evidence_views(before).push(direct@[i as int]@));
        let co = if i < shows.len() {
            match &shows[i] {
                Some(show) => co_committed_evidence(&direct[i], show.as_str(), file_path),
                None => Vec::new(),
            }
        } else {
            Vec::new()
        };
        proof {
            if i < shows.len() {
                assert(ss[i as int] == (match shows@[i as int] {
                    Some(s) => Some(s@),
                    None => None,
                }));
            }
        }
        let mut co = co;
        let ghost co_view = co@;
        out.append(&mut co);
        assert(out@ =~= pushed + co_view);
        assert(evidence_views(out@) =~= evidence_views(pushed) + evidence_views(co_view));
        i = i + 1;
    }
    assert(ds.take(i as int) =~= ds);
    out
}

} // verus!
