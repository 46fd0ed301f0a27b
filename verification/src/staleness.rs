use vstd::prelude::*;

use crate::confidence::{is_alphanumeric, spec_is_alphanumeric};
use crate::excavate::TimelineEntry;
use crate::text::{
    chars_of, decimal, lines_of, seq_contains, spec_contains, spec_decimal, spec_lines,
    spec_split, lowercase_text, spec_trim, split_char, string_of, to_lowercase, trim,
    trim_chars, views,
};

verus! {

#[derive(Debug, Clone, Copy, PartialEq, Eq, Structural)]
pub enum ReceiptKind {
    ClosedIssue,
    DependencyUpgraded,
}

/// Concrete proof that a workaround is dead.
#[derive(Debug, Clone, PartialEq, Eq)]
pub struct StalenessReceipt {
    pub kind: ReceiptKind,
    pub receipt_text: String,
    pub commit_sha: String,
    pub file_path: String,
}

#[derive(Debug, Clone, PartialEq, Eq)]
pub enum StalenessStatus {
    Stale { receipt: StalenessReceipt },
    Active,
}

// ---------------------------------------------------------------------------
// Issue references
// ---------------------------------------------------------------------------

pub open spec fn is_word_char(c: char) -> bool {
    spec_is_alphanumeric(c) || c == '#'
}

/// Every non-word character becomes a NUL separator (NUL is itself no word character).
pub open spec fn mark_separators(s: Seq<char>) -> Seq<char> {
    Seq::new(s.len(), |i: int| if is_word_char(s[i]) { s[i] } else { '\0' })
}

/// The pieces of `s` between non-word characters, as
/// `str::split(|c| !c.is_alphanumeric() && c != '#')` gives them.
pub open spec fn spec_words(s: Seq<char>) -> Seq<Seq<char>> {
    spec_split(mark_separators(s), '\0')
}

pub open spec fn is_ascii_digit(c: char) -> bool {
    '0' <= c <= '9'
}

pub open spec fn digits_value(d: Seq<char>) -> nat
    decreases d.len(),
{
    if d.len() == 0 {
        0
    } else {
        digits_value(d.drop_last()) * 10 + ((d.last() as u32) - 48) as nat
    }
}

pub open spec fn all_digits(d: Seq<char>) -> bool {
    forall|i: int| 0 <= i < d.len() ==> is_ascii_digit(#[trigger] d[i])
}

/// `u32::from_str`: an optional `+`, then at least one ASCII digit, no overflow.
pub open spec fn spec_parse_u32(d: Seq<char>) -> Option<u32> {
    let body = if d.len() > 0 && d[0] == '+' {
        d.drop_first()
    } else {
        d
    };
    if body.len() > 0 && all_digits(body) && digits_value(body) <= u32::MAX {
        Some(digits_value(body) as u32)
    } else {
        None
    }
}

/// The issue number a word refers to: `#` followed by a number.
pub open spec fn issue_of_word(w: Seq<char>) -> Option<u32> {
    if w.len() > 1 && w[0] == '#' {
        spec_parse_u32(w.drop_first())
    } else {
        None
    }
}

/// Appends the issue numbers of `words` not yet in `acc`, in order.
pub open spec fn collect_issues(acc: Seq<u32>, words: Seq<Seq<char>>) -> Seq<u32>
    decreases words.len(),
{
    if words.len() == 0 {
        acc
    } else {
        let prev = collect_issues(acc, words.drop_last());
        match issue_of_word(words.last()) {
            Some(n) => if prev.contains(n) {
                prev
            } else {
                prev.push(n)
            },
            None => prev,
        }
    }
}

/// Issue numbers referenced by the messages (`#42`), each once, in order of
/// first mention.
pub open spec fn issues_of_messages(messages: Seq<Seq<char>>) -> Seq<u32>
    decreases messages.len(),
{
    if messages.len() == 0 {
        Seq::empty()
    } else {
        collect_issues(issues_of_messages(messages.drop_last()), spec_words(messages.last()))
    }
}

pub open spec fn timeline_messages(timeline: Seq<TimelineEntry>) -> Seq<Seq<char>> {
    timeline.map_values(|e: TimelineEntry| e.message@)
}

fn mark_word_separators(v: &Vec<char>) -> (r: Vec<char>)
    ensures
        r@ == mark_separators(v@),
{
    let mut out: Vec<char> = Vec::new();
    let mut i: usize = 0;
    while i < v.len()
        invariant
            i <= v.len(),
            out@.len() == i,
            forall|j: int| 0 <= j < i ==> out@[j] == (if is_word_char(v@[j]) { v@[j] } else { '\0' }),
        decreases v.len() - i,
    {
        let c = v[i];
        out.push(
            if is_alphanumeric(c) || c == '#' {
                c
            } else {
                '\0'
            },
        );
        i = i + 1;
    }
    assert(out@ =~= mark_separators(v@));
    out
}

fn parse_u32(d: &Vec<char>) -> (r: Option<u32>)
    ensures
        r == spec_parse_u32(d@),
{
    let start: usize = if d.len() > 0 && d[0] == '+' {
        1
    } else {
        0
    };
    let ghost body = if d@.len() > 0 && d@[0] == '+' {
        d@.drop_first()
    } else {
        d@
    };
    assert(body =~= d@.skip(start as int));
    if start >= d.len() {
        return None;
    }
    let mut value: u64 = 0;
    let mut i = start;
    while i < d.len()
        invariant
            start <= i <= d.len(),
            body == d@.skip(start as int),
            body == (if d@.len() > 0 && d@[0] == '+' {
                d@.drop_first()
            } else {
                d@
            }),
            all_digits(d@.subrange(start as int, i as int)),
            value == digits_value(d@.subrange(start as int, i as int)),
            value <= u32::MAX,
        decreases d.len() - i,
    {
        let c = d[i];
        let ghost pre = d@.subrange(start as int, i as int);
        let ghost next = d@.subrange(start as int, i + 1);
        assert(next.drop_last() =~= pre);
        if !('0' <= c && c <= '9') {
            proof {
                assert(body[i - start] == c);
                assert(!all_digits(body)) by {
                    assert(!is_ascii_digit(body[i - start]));
                }
            }
            return None;
        }
        let digit = (c as u32 - 48) as u64;
        let nv = value * 10 + digit;
        if nv > 4294967295 {
            proof {
                assert(next.last() == c);
                assert(digits_value(next) == nv);
                if all_digits(body) {
                    lemma_digits_value_grows(body, i + 1 - start);
                    assert(body.subrange(0, i + 1 - start) =~= next);
                }
            }
            return None;
        }
        value = nv;
        i = i + 1;
    }
    assert(d@.subrange(start as int, d@.len() as int) =~= body);
    Some(value as u32)
}

/// The value of a digit prefix never exceeds the value of the whole.
pub(crate) proof fn lemma_digits_value_grows(d: Seq<char>, k: int)
    requires
        0 <= k <= d.len(),
        all_digits(d),
    ensures
        digits_value(d.subrange(0, k)) <= digits_value(d),
    decreases d.len(),
{
    if k < d.len() {
        assert(d.drop_last().subrange(0, k) =~= d.subrange(0, k));
        assert(is_ascii_digit(d[d.len() - 1]));
        lemma_digits_value_grows(d.drop_last(), k);
    } else {
        assert(d.subrange(0, k) =~= d);
    }
}

fn issue_in_word(w: &Vec<char>) -> (r: Option<u32>)
    ensures
        r == issue_of_word(w@),
{
    if w.len() > 1 && w[0] == '#' {
        let mut rest: Vec<char> = Vec::new();
        let mut i: usize = 1;
        while i < w.len()
            invariant
                1 <= i <= w.len(),
                rest@ == w@.subrange(1, i as int),
            decreases w.len() - i,
        {
            rest.push(w[i]);
            i = i + 1;
            assert(rest@ =~= w@.subrange(1, i as int));
        }
        assert(rest@ =~= w@.drop_first());
        parse_u32(&rest)
    } else {
        None
    }
}

fn vec_contains_u32(v: &Vec<u32>, n: u32) -> (r: bool)
    ensures
        r == v@.contains(n),
{
    let mut i: usize = 0;
    while i < v.len()
        invariant
            i <= v.len(),
            forall|j: int| 0 <= j < i ==> v@[j] != n,
        decreases v.len() - i,
    {
        if v[i] == n {
            return true;
        }
        i = i + 1;
    }
    false
}

/// Issue numbers referenced in the timeline's commit messages, each once.
pub fn referenced_issues(timeline: &[TimelineEntry]) -> (r: Vec<u32>)
    ensures
        r@ == issues_of_messages(timeline_messages(timeline@)),
{
    let mut issues: Vec<u32> = Vec::new();
    let mut t: usize = 0;
    let ghost msgs = timeline_messages(timeline@);
    assert(msgs.take(0) =~= Seq::<Seq<char>>::empty());
    while t < timeline.len()
        invariant
            t <= timeline@.len(),
            msgs == timeline_messages(timeline@),
            msgs.len() == timeline@.len(),
            issues@ == issues_of_messages(msgs.take(t as int)),
        decreases timeline.len() - t,
    {
        let chars = chars_of(timeline[t].message.as_str());
        let words = split_char(&mark_word_separators(&chars), '\0');
        let ghost base = issues@;
        let ghost ws = views(words@);
        assert(ws.take(0) =~= Seq::<Seq<char>>::empty());
        let mut w: usize = 0;
        while w < words.len()
            invariant
                w <= words@.len(),
                ws == views(words@),
                ws.len() == words@.len(),
                issues@ == collect_issues(base, ws.take(w as int)),
            decreases words.len() - w,
        {
            let found = issue_in_word(&words[w]);
            proof {
                assert(ws.take(w + 1).drop_last() =~= ws.take(w as int));
                assert(ws.take(w + 1).last() == words@[w as int]@);
            }
            if let Some(n) = found {
                if !vec_contains_u32(&issues, n) {
                    issues.push(n);
                }
            }
            w = w + 1;
        }
        proof {
            assert(ws.take(ws.len() as int) =~= ws);
            assert(msgs.take(t + 1).drop_last() =~= msgs.take(t as int));
            assert(msgs.take(t + 1).last() == timeline@[t as int].message@);
        }
        t = t + 1;
    }
    assert(msgs.take(msgs.len() as int) =~= msgs);
    issues
}

// ---------------------------------------------------------------------------
// Closing commits
// ---------------------------------------------------------------------------

/// A log line says something closing, fixing, resolving or upgrading.
pub open spec fn has_closing_word(full: Seq<char>) -> bool {
    ||| spec_contains(full, "close"@)
    ||| spec_contains(full, "closed"@)
    ||| spec_contains(full, "closes"@)
    ||| spec_contains(full, "fix"@)
    ||| spec_contains(full, "fixed"@)
    ||| spec_contains(full, "fixes"@)
    ||| spec_contains(full, "resolve"@)
    ||| spec_contains(full, "resolved"@)
    ||| spec_contains(full, "upgrade"@)
}

/// Fields of a `%H%x00%s%x00%b` log line: sha, subject and body, trimmed.
pub open spec fn log_fields(line: Seq<char>) -> (Seq<char>, Seq<char>, Seq<char>) {
    let parts = spec_split(line, '\0');
    (spec_trim(parts[0]), spec_trim(parts[1]), if parts.len() > 2 {
        spec_trim(parts[2])
    } else {
        Seq::empty()
    })
}

/// Subject and body, lower-cased, as the closing check reads them.
pub open spec fn log_text(line: Seq<char>) -> Seq<char> {
    lowercase_text(log_fields(line).1 + " "@ + log_fields(line).2)
}

pub open spec fn issue_tag(n: u32) -> Seq<char> {
    "#"@ + spec_decimal(n as nat)
}

/// The first of `issues` that a log line closes.
pub open spec fn closed_issue(line: Seq<char>, issues: Seq<u32>) -> Option<u32>
    decreases issues.len(),
{
    if issues.len() == 0 {
        None
    } else if spec_split(line, '\0').len() >= 2 && spec_contains(
        log_text(line),
        issue_tag(issues[0]),
    ) && has_closing_word(log_text(line)) {
        Some(issues[0])
    } else {
        closed_issue(line, issues.drop_first())
    }
}

/// The first seven characters of a commit sha (all of it when shorter).
pub open spec fn short_sha(sha: Seq<char>) -> Seq<char> {
    if sha.len() <= 7 {
        sha
    } else {
        sha.subrange(0, 7)
    }
}

pub open spec fn closed_issue_text(n: u32, sha: Seq<char>, subject: Seq<char>) -> Seq<char> {
    "Linked issue #"@ + spec_decimal(n as nat) + " was resolved/closed in commit "@ + short_sha(sha)
        + ": '"@ + subject + "'"@
}

/// Receipt-gated staleness over the log lines: the first line (in log order)
/// that closes one of the referenced issues makes the code Stale.
pub open spec fn staleness_of_lines(
    lines: Seq<Seq<char>>,
    issues: Seq<u32>,
    file_path: Seq<char>,
) -> Option<(u32, Seq<char>, Seq<char>)>
    decreases lines.len(),
{
    if lines.len() == 0 {
        None
    } else {
        match closed_issue(lines[0], issues) {
            Some(n) => Some((n, log_fields(lines[0]).0, log_fields(lines[0]).1)),
            None => staleness_of_lines(lines.drop_first(), issues, file_path),
        }
    }
}

proof fn lemma_closed_issue_is_receipt(line: Seq<char>, issues: Seq<u32>)
    requires
        closed_issue(line, issues) is Some,
    ensures
        issues.contains(closed_issue(line, issues)->0),
        spec_contains(log_text(line), issue_tag(closed_issue(line, issues)->0)),
        has_closing_word(log_text(line)),
    decreases issues.len(),
{
    if !(spec_split(line, '\0').len() >= 2 && spec_contains(log_text(line), issue_tag(issues[0]))
        && has_closing_word(log_text(line))) {
        lemma_closed_issue_is_receipt(line, issues.drop_first());
        let n = closed_issue(line, issues)->0;
        let k = choose|k: int| 0 <= k < issues.drop_first().len() && issues.drop_first()[k] == n;
        assert(issues[k + 1] == n);
    } else {
        assert(issues[0] == closed_issue(line, issues)->0);
    }
}

/// Code is flagged stale only on a receipt: a commit in the log that names
/// one of the referenced issues and says it was closed, fixed, resolved or
/// upgraded. Age, churn and TODO comments alone never flag it.
pub proof fn law_stale_only_with_closing_commit(lines: Seq<Seq<char>>, issues: Seq<u32>, file_path: Seq<char>)
    requires
        staleness_of_lines(lines, issues, file_path) is Some,
    ensures
        ({
            let (n, sha, subject) = staleness_of_lines(lines, issues, file_path)->0;
            &&& issues.contains(n)
            &&& exists|i: int|
                0 <= i < lines.len() && spec_contains(log_text(#[trigger] lines[i]), issue_tag(n))
                    && has_closing_word(log_text(lines[i])) && log_fields(lines[i]).0 == sha
                    && log_fields(lines[i]).1 == subject
        }),
    decreases lines.len(),
{
    let (n, sha, subject) = staleness_of_lines(lines, issues, file_path)->0;
    match closed_issue(lines[0], issues) {
        Some(m) => {
            lemma_closed_issue_is_receipt(lines[0], issues);
            assert(m == n);
            assert(spec_contains(log_text(lines[0]), issue_tag(n)));
        },
        None => {
            let rest = lines.drop_first();
            law_stale_only_with_closing_commit(rest, issues, file_path);
            let i = choose|i: int|
                0 <= i < rest.len() && spec_contains(log_text(#[trigger] rest[i]), issue_tag(n))
                    && has_closing_word(log_text(rest[i])) && log_fields(rest[i]).0 == sha
                    && log_fields(rest[i]).1 == subject;
            assert(lines[i + 1] == rest[i]);
        },
    }
}

/// A log line that names issue `n` and says it was closed, fixed, resolved
/// or upgraded (its subject and body, lower-cased, hold `#n` and one of
/// `close`, `fix`, `resolve`, `upgrade`; these also cover "closed",
/// "fixes", "resolved" and the like).
pub open spec fn names_closing_of(line: Seq<char>, n: u32) -> bool {
    &&& spec_split(line, '\0').len() >= 2
    &&& spec_contains(log_text(line), issue_tag(n))
    &&& (spec_contains(log_text(line), "close"@) || spec_contains(log_text(line), "fix"@)
        || spec_contains(log_text(line), "resolve"@) || spec_contains(log_text(line), "upgrade"@))
}

proof fn lemma_line_closes(line: Seq<char>, issues: Seq<u32>, k: int)
    requires
        0 <= k < issues.len(),
        names_closing_of(line, issues[k]),
    ensures
        closed_issue(line, issues) is Some,
    decreases k,
{
    if !(spec_split(line, '\0').len() >= 2 && spec_contains(log_text(line), issue_tag(issues[0]))
        && has_closing_word(log_text(line))) {
        if k == 0 {
            assert(has_closing_word(log_text(line)));
        } else {
            assert(issues.drop_first()[k - 1] == issues[k]);
            lemma_line_closes(line, issues.drop_first(), k - 1);
        }
    }
}

proof fn lemma_some_line_closes(lines: Seq<Seq<char>>, issues: Seq<u32>, file_path: Seq<char>, i: int)
    requires
        0 <= i < lines.len(),
        closed_issue(lines[i], issues) is Some,
    ensures
        staleness_of_lines(lines, issues, file_path) is Some,
    decreases i,
{
    if i > 0 && closed_issue(lines[0], issues) is None {
        assert(lines.drop_first()[i - 1] == lines[i]);
        lemma_some_line_closes(lines.drop_first(), issues, file_path, i - 1);
    }
}

/// A commit that closes a referenced issue always flags the code stale: when
/// some line of the log names one of the referenced issues and says it was
/// closed, fixed, resolved or upgraded, the status is Stale (the receipt is
/// the first such line, as `law_stale_only_with_closing_commit` describes).
pub proof fn law_closing_commit_makes_stale(log: Seq<char>, issues: Seq<u32>, file_path: Seq<char>, i: int, k: int)
    requires
        0 <= i < spec_lines(log).len(),
        0 <= k < issues.len(),
        names_closing_of(spec_lines(log)[i], issues[k]),
    ensures
        staleness_of_lines(spec_lines(log), issues, file_path) is Some,
{
    lemma_line_closes(spec_lines(log)[i], issues, k);
    lemma_some_line_closes(spec_lines(log), issues, file_path, i);
}

fn contains_str(hay: &Vec<char>, needle: &str) -> (r: bool)
    ensures
        r == spec_contains(hay@, needle@),
{
    seq_contains(hay, &chars_of(needle))
}

fn has_closing_word_exec(full: &Vec<char>) -> (r: bool)
    ensures
        r == has_closing_word(full@),
{
    contains_str(full, "close") || contains_str(full, "closed") || contains_str(full, "closes")
        || contains_str(full, "fix") || contains_str(full, "fixed") || contains_str(full, "fixes")
        || contains_str(full, "resolve") || contains_str(full, "resolved") || contains_str(
        full,
        "upgrade",
    )
}

fn chars_of_string(s: &String) -> (r: Vec<char>)
    ensures
        r@ == s@,
{
    chars_of(s.as_str())
}

/// Finds the first referenced issue that the log line closes, with the
/// line's sha and subject.
fn closing_in_line(line: &Vec<char>, issues: &Vec<u32>) -> (r: Option<(u32, Vec<char>, Vec<char>)>)
    ensures
        match r {
            Some((n, sha, subject)) => closed_issue(line@, issues@) == Some(n) && sha@
                == log_fields(line@).0 && subject@ == log_fields(line@).1,
            None => closed_issue(line@, issues@) is None,
        },
{
    let parts = split_char(line, '\0');
    proof {
        assert(views(parts@).len() == parts@.len());
    }
    if parts.len() < 2 {
        proof {
            lemma_closed_issue_needs_fields(line@, issues@);
        }
        return None;
    }
    let sha = trim_chars(&parts[0]);
    let subject = trim_chars(&parts[1]);
    let body = if parts.len() > 2 {
        trim_chars(&parts[2])
    } else {
        Vec::new()
    };
    proof {
        assert(views(parts@)[0] == parts@[0]@);
        assert(views(parts@)[1] == parts@[1]@);
        if parts@.len() > 2 {
            assert(views(parts@)[2] == parts@[2]@);
        }
    }
    let mut joined = string_of(&subject, 0, subject.len());
    joined.append(" ");
    joined.append(string_of(&body, 0, body.len()).as_str());
    let full = chars_of_string(&to_lowercase(joined.as_str()));
    assert(full@ == log_text(line@)) by {
        assert(subject@.subrange(0, subject@.len() as int) =~= subject@);
        assert(body@.subrange(0, body@.len() as int) =~= body@);
    }
    let closing = has_closing_word_exec(&full);
    let mut i: usize = 0;
    assert(issues@.skip(0) =~= issues@);
    while i < issues.len()
        invariant
            i <= issues@.len(),
            spec_split(line@, '\0').len() >= 2,
            full@ == log_text(line@),
            closing == has_closing_word(log_text(line@)),
            sha@ == log_fields(line@).0,
            subject@ == log_fields(line@).1,
            closed_issue(line@, issues@) == closed_issue(line@, issues@.skip(i as int)),
        decreases issues.len() - i,
    {
        let mut tag = String::from_str("#");
        tag.append(decimal(issues[i] as u64).as_str());
        proof {
            assert(issues@.skip(i as int)[0] == issues@[i as int]);
            assert(issues@.skip(i as int).drop_first() =~= issues@.skip(i + 1));
        }
        assert(tag@ =~= issue_tag(issues@[i as int]));
        if closing && contains_str(&full, tag.as_str()) {
            assert(closed_issue(line@, issues@.skip(i as int)) == Some(issues@[i as int]));
            return Some((issues[i], sha, subject));
        }
        i = i + 1;
    }
    None
}

proof fn lemma_closed_issue_needs_fields(line: Seq<char>, issues: Seq<u32>)
    requires
        spec_split(line, '\0').len() < 2,
    ensures
        closed_issue(line, issues) is None,
    decreases issues.len(),
{
    if issues.len() > 0 {
        lemma_closed_issue_needs_fields(line, issues.drop_first());
    }
}

/// Staleness from referenced issues and the repository log (one
/// `%H%x00%s%x00%b` line per commit). Without a referenced issue the code is
/// Active; otherwise the first log line that closes one of them is the receipt.
/// Age, churn and TODO comments are never receipts.
pub fn staleness_from_log(issues: &Vec<u32>, log: &str, file_path: &str) -> (r: StalenessStatus)
    ensures
        issues@.len() == 0 ==> r == StalenessStatus::Active,
        issues@.len() > 0 ==> match staleness_of_lines(spec_lines(log@), issues@, file_path@) {
            Some((n, sha, subject)) => r matches StalenessStatus::Stale { receipt } && receipt.kind
                == ReceiptKind::ClosedIssue && receipt.commit_sha@ == sha && receipt.file_path@
                == file_path@ && receipt.receipt_text@ == closed_issue_text(n, sha, subject),
            None => r == StalenessStatus::Active,
        },
{
    if issues.len() == 0 {
        return StalenessStatus::Active;
    }
    let lines = lines_of(&chars_of(log));
    let ghost ls = views(lines@);
    let mut i: usize = 0;
    assert(ls.skip(0) =~= ls);
    while i < lines.len()
        invariant
            i <= lines@.len(),
            ls == views(lines@),
            ls == spec_lines(log@),
            staleness_of_lines(ls, issues@, file_path@) == staleness_of_lines(
                ls.skip(i as int),
                issues@,
                file_path@,
            ),
        decreases lines.len() - i,
    {
        proof {
            assert(ls.skip(i as int)[0] == lines@[i as int]@);
            assert(ls.skip(i as int).drop_first() =~= ls.skip(i + 1));
        }
        match closing_in_line(&lines[i], issues) {
            Some((n, sha, subject)) => {
                let sha_len = sha.len();
                let short = if sha_len <= 7 {
                    string_of(&sha, 0, sha_len)
                } else {
                    string_of(&sha, 0, 7)
                };
                let mut text = String::from_str("Linked issue #");
                text.append(decimal(n as u64).as_str());
                text.append(" was resolved/closed in commit ");
                text.append(short.as_str());
                text.append(": '");
                text.append(string_of(&subject, 0, subject.len()).as_str());
                text.append("'");
                proof {
                    assert(sha@.subrange(0, sha@.len() as int) =~= sha@);
                    assert(subject@.subrange(0, subject@.len() as int) =~= subject@);
                }
                return StalenessStatus::Stale {
                    receipt: StalenessReceipt {
                        kind: ReceiptKind::ClosedIssue,
                        receipt_text: text,
                        commit_sha: string_of(&sha, 0, sha_len),
                        file_path: file_path.to_owned(),
                    },
                };
            },
            None => {},
        }
        i = i + 1;
    }
    StalenessStatus::Active
}

} // verus!
