use vstd::prelude::*;

use crate::evidence::{Evidence, EvidenceKind};
use crate::text::{
    chars_of, spec_contains, lowercase_text, spec_trim, str_contains, str_eq,
    string_of, to_lowercase, trim,
};

verus! {

#[derive(Debug, Clone, Copy, PartialEq, Eq, Structural)]
pub enum Confidence {
    Stated,
    Inferred,
    Unrecorded,
}

impl Confidence {
    /// The name shown for this confidence.
    pub fn label(&self) -> (r: &'static str)
        ensures
            *self == Confidence::Stated ==> r@ == "Stated"@,
            *self == Confidence::Inferred ==> r@ == "Inferred"@,
            *self == Confidence::Unrecorded ==> r@ == "None"@,
    {
        match self {
            Confidence::Stated => "Stated",
            Confidence::Inferred => "Inferred",
            Confidence::Unrecorded => "None",
        }
    }
}

/// Unicode alphanumeric (`Alphabetic` or `Numeric`), as `char::is_alphanumeric` defines it.
pub uninterp spec fn spec_is_alphanumeric(c: char) -> bool;

/// Whether a character is alphanumeric, by `char::is_alphanumeric`. Among
/// ASCII characters exactly the letters and the digits are.
#[verifier::external_body]
pub(crate) fn is_alphanumeric(c: char) -> (r: bool)
    ensures
        r == spec_is_alphanumeric(c),
        c <= '\u{7f}' ==> r == ('a' <= c <= 'z' || 'A' <= c <= 'Z' || '0' <= c <= '9'),
{
    c.is_alphanumeric()
}

pub open spec fn alnum_at(s: Seq<char>, i: int) -> bool {
    0 <= i < s.len() && spec_is_alphanumeric(s[i])
}

/// `s` with every leading and trailing non-alphanumeric character removed.
pub open spec fn spec_strip_non_alnum(s: Seq<char>) -> Seq<char> {
    if exists|i: int| alnum_at(s, i) {
        let a = choose|a: int| alnum_at(s, a) && forall|j: int| 0 <= j < a ==> !alnum_at(s, j);
        let b = choose|b: int|
            alnum_at(s, b) && forall|j: int| b < j < s.len() ==> !alnum_at(s, j);
        s.subrange(a, b + 1)
    } else {
        Seq::empty()
    }
}

/// Commit messages that say nothing about why.
pub open spec fn is_placeholder(m: Seq<char>) -> bool {
    ||| m == ""@
    ||| m == "fix"@
    ||| m == "wip"@
    ||| m == "work in progress"@
    ||| m == "patch"@
    ||| m == "update"@
    ||| m == "temp"@
    ||| m == "changes"@
    ||| m == "clean up"@
    ||| m == "cleanup"@
    ||| m == "fix typo"@
    ||| m == "misc"@
    ||| m == "formatting"@
    ||| m == "test"@
    ||| m == "wip..."@
}

/// A message is trivial when, trimmed, lower-cased and stripped of
/// surrounding punctuation, it is one of the placeholder messages.
pub open spec fn spec_is_trivial(msg: Seq<char>) -> bool {
    is_placeholder(spec_strip_non_alnum(lowercase_text(spec_trim(msg))))
}

/// A message states a rationale: it names a reason keyword, or it is at least
/// 50 bytes long and structured (holds `:`, `.` or a line break).
pub open spec fn spec_has_rationale_signals(msg: Seq<char>) -> bool {
    ||| spec_contains(msg, "because"@)
    ||| spec_contains(msg, "due to"@)
    ||| spec_contains(msg, "workaround"@)
    ||| spec_contains(msg, "in order to"@)
    ||| spec_contains(msg, "fix for #"@)
    ||| spec_contains(msg, "fixes #"@)
    ||| spec_contains(msg, "closes #"@)
    ||| spec_contains(msg, "needed for"@)
    ||| spec_contains(msg, "prevent"@)
    ||| spec_contains(msg, "avoids"@)
    ||| spec_contains(msg, "required by"@)
    ||| spec_contains(msg, "reason:"@)
    ||| spec_contains(msg, "rationale:"@)
    ||| spec_contains(msg, "issue #"@)
    ||| (vstd::utf8::encode_utf8(msg).len() as usize) >= 50 && (spec_contains(msg, ":"@) || spec_contains(
        msg,
        "."@,
    ) || spec_contains(msg, "\n"@))
}

pub open spec fn normalized_message(e: Evidence) -> Seq<char> {
    lowercase_text(spec_trim(e.message@))
}

#[verifier::opaque]
pub open spec fn states_rationale(e: Evidence) -> bool {
    !spec_is_trivial(normalized_message(e)) && spec_has_rationale_signals(normalized_message(e))
}

#[verifier::opaque]
pub open spec fn gives_context(e: Evidence) -> bool {
    e.kind == EvidenceKind::CoCommittedTest || e.kind == EvidenceKind::CoCommittedDoc
        || !spec_is_trivial(normalized_message(e))
}

/// Confidence by rule, from the shape of the Evidence alone.
pub open spec fn spec_confidence(evidence: Seq<Evidence>) -> Confidence {
    if evidence.len() == 0 {
        Confidence::Unrecorded
    } else if exists|i: int| 0 <= i < evidence.len() && states_rationale(#[trigger] evidence[i]) {
        Confidence::Stated
    } else if exists|i: int| 0 <= i < evidence.len() && gives_context(#[trigger] evidence[i]) {
        Confidence::Inferred
    } else {
        Confidence::Unrecorded
    }
}

/// Confidence is recorded exactly when some Evidence states a rationale or
/// gives context; a rationale stated in words is always Stated. An
/// explanation is asked of the provider only then.
pub proof fn law_confidence_follows_evidence(evidence: Seq<Evidence>)
    ensures
        spec_confidence(evidence) != Confidence::Unrecorded <==> exists|i: int|
            0 <= i < evidence.len() && (states_rationale(#[trigger] evidence[i]) || gives_context(
                evidence[i],
            )),
        (exists|i: int| 0 <= i < evidence.len() && states_rationale(#[trigger] evidence[i]))
            ==> spec_confidence(evidence) == Confidence::Stated,
{
    if exists|i: int| 0 <= i < evidence.len() && (states_rationale(#[trigger] evidence[i]) || gives_context(evidence[i])) {
        let i = choose|i: int| 0 <= i < evidence.len() && (states_rationale(#[trigger] evidence[i]) || gives_context(evidence[i]));
        if states_rationale(evidence[i]) {
            assert(exists|k: int| 0 <= k < evidence.len() && states_rationale(#[trigger] evidence[k]));
        } else {
            assert(exists|k: int| 0 <= k < evidence.len() && gives_context(#[trigger] evidence[k]));
        }
    }
}

/// Evidence whose message, trimmed and lower-cased, is not a placeholder and
/// names a reason (`because`, `due to`, `workaround`, `in order to`,
/// `needed for`, `prevent`, `avoids`, `required by`, `reason:`,
/// `rationale:`, or an issue it fixes, closes or names) makes the rationale
/// Stated, whatever the other Evidence is.
pub proof fn law_reason_in_words_is_stated(evidence: Seq<Evidence>, i: int)
    requires
        0 <= i < evidence.len(),
        !spec_is_trivial(lowercase_text(spec_trim(evidence[i].message@))),
        ({
            let m = lowercase_text(spec_trim(evidence[i].message@));
            ||| spec_contains(m, "because"@)
            ||| spec_contains(m, "due to"@)
            ||| spec_contains(m, "workaround"@)
            ||| spec_contains(m, "in order to"@)
            ||| spec_contains(m, "needed for"@)
            ||| spec_contains(m, "prevent"@)
            ||| spec_contains(m, "avoids"@)
            ||| spec_contains(m, "required by"@)
            ||| spec_contains(m, "reason:"@)
            ||| spec_contains(m, "rationale:"@)
            ||| spec_contains(m, "fix for #"@)
            ||| spec_contains(m, "fixes #"@)
            ||| spec_contains(m, "closes #"@)
            ||| spec_contains(m, "issue #"@)
        }),
    ensures
        spec_confidence(evidence) == Confidence::Stated,
{
    reveal(states_rationale);
    assert(states_rationale(evidence[i]));
    law_confidence_follows_evidence(evidence);
}

pub fn strip_non_alnum(s: &str) -> (r: String)
    ensures
        r@ == spec_strip_non_alnum(s@),
{
    let v = chars_of(s);
    let mut a: usize = 0;
    while a < v.len() && !is_alphanumeric(v[a])
        invariant
            a <= v.len(),
            v@ == s@,
            forall|j: int| 0 <= j < a ==> !alnum_at(v@, j),
        decreases v.len() - a,
    {
        a = a + 1;
    }
    if a == v.len() {
        let e = String::new();
        assert(!exists|i: int| alnum_at(s@, i));
        assert(e@ =~= spec_strip_non_alnum(s@));
        return e;
    }
    let mut b: usize = v.len() - 1;
    while b > a && !is_alphanumeric(v[b])
        invariant
            a <= b < v.len(),
            v@ == s@,
            alnum_at(v@, a as int),
            forall|j: int| b < j < v.len() ==> !alnum_at(v@, j),
        decreases b,
    {
        b = b - 1;
    }
    proof {
        assert(alnum_at(v@, b as int));
        let x = choose|x: int| alnum_at(v@, x) && forall|j: int| 0 <= j < x ==> !alnum_at(v@, j);
        let y = choose|y: int| alnum_at(v@, y) && forall|j: int| y < j < v@.len() ==> !alnum_at(v@, j);
        if x < a {
        }
        if a < x {
            assert(!alnum_at(v@, a as int));
        }
        if y < b {
            assert(!alnum_at(v@, b as int));
        }
        if b < y {
        }
    }
    string_of(&v, a, b + 1)
}

fn is_placeholder_text(m: &str) -> (r: bool)
    ensures
        r == is_placeholder(m@),
{
    str_eq(m, "") || str_eq(m, "fix") || str_eq(m, "wip") || str_eq(m, "work in progress")
        || str_eq(m, "patch") || str_eq(m, "update") || str_eq(m, "temp") || str_eq(m, "changes")
        || str_eq(m, "clean up") || str_eq(m, "cleanup") || str_eq(m, "fix typo") || str_eq(
        m,
        "misc",
    ) || str_eq(m, "formatting") || str_eq(m, "test") || str_eq(m, "wip...")
}

pub fn is_trivial_commit_message(msg: &str) -> (r: bool)
    ensures
        r == spec_is_trivial(msg@),
{
    let trimmed = trim(msg);
    let lower = to_lowercase(trimmed.as_str());
    let stripped = strip_non_alnum(lower.as_str());
    is_placeholder_text(stripped.as_str())
}

pub fn has_rationale_signals(msg: &str) -> (r: bool)
    ensures
        r == spec_has_rationale_signals(msg@),
{
    str_contains(msg, "because") || str_contains(msg, "due to") || str_contains(msg, "workaround")
        || str_contains(msg, "in order to") || str_contains(msg, "fix for #") || str_contains(
        msg,
        "fixes #",
    ) || str_contains(msg, "closes #") || str_contains(msg, "needed for") || str_contains(
        msg,
        "prevent",
    ) || str_contains(msg, "avoids") || str_contains(msg, "required by") || str_contains(
        msg,
        "reason:",
    ) || str_contains(msg, "rationale:") || str_contains(msg, "issue #") || (msg.len() >= 50 && (
    str_contains(msg, ":") || str_contains(msg, ".") || str_contains(msg, "\n")))
}

fn normalize(message: &String) -> (r: String)
    ensures
        r@ == lowercase_text(spec_trim(message@)),
{
    let t = trim(message.as_str());
    to_lowercase(t.as_str())
}

fn states_rationale_exec(e: &Evidence) -> (r: bool)
    ensures
        r == states_rationale(*e),
{
    reveal(states_rationale);
    let msg = normalize(&e.message);
    !is_trivial_commit_message(msg.as_str()) && has_rationale_signals(msg.as_str())
}

fn gives_context_exec(e: &Evidence) -> (r: bool)
    ensures
        r == gives_context(*e),
{
    reveal(gives_context);
    let msg = normalize(&e.message);
    e.kind == EvidenceKind::CoCommittedTest || e.kind == EvidenceKind::CoCommittedDoc
        || !is_trivial_commit_message(msg.as_str())
}

/// Assigns Confidence by rule from the Evidence alone: Stated when some
/// non-trivial message states a reason, else Inferred when some item is a
/// co-committed test or doc or has a non-trivial message, else None.
pub fn assign_confidence(evidence: &[Evidence]) -> (r: Confidence)
    ensures
        r == spec_confidence(evidence@),
{
    if evidence.len() == 0 {
        return Confidence::Unrecorded;
    }
    let mut i: usize = 0;
    while i < evidence.len()
        invariant
            i <= evidence@.len(),
            forall|j: int| 0 <= j < i ==> !states_rationale(#[trigger] evidence@[j]),
        decreases evidence.len() - i,
    {
        if states_rationale_exec(&evidence[i]) {
            return Confidence::Stated;
        }
        i = i + 1;
    }
    let mut k: usize = 0;
    while k < evidence.len()
        invariant
            k <= evidence@.len(),
            forall|j: int| 0 <= j < evidence@.len() ==> !states_rationale(#[trigger] evidence@[j]),
            forall|j: int| 0 <= j < k ==> !gives_context(#[trigger] evidence@[j]),
        decreases evidence.len() - k,
    {
        if gives_context_exec(&evidence[k]) {
            return Confidence::Inferred;
        }
        k = k + 1;
    }
    Confidence::Unrecorded
}

} // verus!
