use vstd::prelude::*;

use crate::evidence::{Evidence, EvidenceKind};
use crate::text::{
    decimal, first_line, lemma_seq_lt_asymmetric, lemma_seq_lt_transitive, seq_lt, spec_decimal,
    spec_first_line, str_lt,
};

verus! {

#[derive(Debug, Clone, Copy)]
pub struct BudgetConfig {
    pub max_evidence_items: usize,
}

impl BudgetConfig {
    /// The default budget: ten Evidence items.
    pub fn default_budget() -> (r: Self)
        ensures
            r.max_evidence_items == 10,
    {
        BudgetConfig { max_evidence_items: 10 }
    }
}

#[derive(Debug, Clone, PartialEq, Eq)]
pub struct ExcludedEvidence {
    pub commit_sha: String,
    pub message_summary: String,
    pub reason: String,
    pub lines_touched: usize,
}

#[derive(Debug)]
pub struct BudgetResult {
    pub included: Vec<Evidence>,
    pub excluded: Vec<ExcludedEvidence>,
    pub total_considered: usize,
}

pub open spec fn kind_weight(kind: EvidenceKind) -> int {
    match kind {
        EvidenceKind::DirectDiff => 2,
        EvidenceKind::CoCommittedTest => 1,
        EvidenceKind::CoCommittedDoc => 1,
    }
}

/// `a` ranks strictly ahead of `b`: direct diffs before co-committed files,
/// then more lines touched, then the smaller commit sha.
pub open spec fn ranks_before(a: Evidence, b: Evidence) -> bool {
    ||| kind_weight(a.kind) > kind_weight(b.kind)
    ||| kind_weight(a.kind) == kind_weight(b.kind) && a.lines_touched > b.lines_touched
    ||| kind_weight(a.kind) == kind_weight(b.kind) && a.lines_touched == b.lines_touched
        && seq_lt(a.commit_sha@, b.commit_sha@)
}

/// Where a stable insertion puts `x`: before the first item it ranks ahead of.
pub open spec fn insert_position(s: Seq<Evidence>, x: Evidence) -> int
    decreases s.len(),
{
    if s.len() == 0 {
        0
    } else if ranks_before(x, s[0]) {
        0
    } else {
        1 + insert_position(s.drop_first(), x)
    }
}

/// Stable sort by rank, as insertion sort defines it.
pub open spec fn ranked(s: Seq<Evidence>) -> Seq<Evidence>
    decreases s.len(),
{
    if s.len() == 0 {
        Seq::empty()
    } else {
        let prev = ranked(s.drop_last());
        prev.insert(insert_position(prev, s.last()), s.last())
    }
}

pub open spec fn exclusion_reason(cap: nat) -> Seq<char> {
    "Exceeded max evidence item budget (cap = "@ + spec_decimal(cap) + ")"@
}

proof fn lemma_insert_position(s: Seq<Evidence>, x: Evidence, k: int)
    requires
        0 <= k <= s.len(),
        forall|j: int| 0 <= j < k ==> !ranks_before(x, #[trigger] s[j]),
        k == s.len() || ranks_before(x, s[k]),
    ensures
        insert_position(s, x) == k,
    decreases k,
{
    if k > 0 {
        assert forall|j: int| 0 <= j < k - 1 implies !ranks_before(x, #[trigger] s.drop_first()[j]) by {
            assert(s.drop_first()[j] == s[j + 1]);
        }
        if k < s.len() {
            assert(s.drop_first()[k - 1] == s[k]);
        }
        lemma_insert_position(s.drop_first(), x, k - 1);
    }
}

proof fn lemma_ranked_len(s: Seq<Evidence>)
    ensures
        ranked(s).len() == s.len(),
    decreases s.len(),
{
    if s.len() > 0 {
        lemma_ranked_len(s.drop_last());
        lemma_insert_position_bounds(ranked(s.drop_last()), s.last());
    }
}

proof fn lemma_insert_position_bounds(s: Seq<Evidence>, x: Evidence)
    ensures
        0 <= insert_position(s, x) <= s.len(),
    decreases s.len(),
{
    if s.len() > 0 {
        lemma_insert_position_bounds(s.drop_first(), x);
    }
}

fn rank_before(a: &Evidence, b: &Evidence) -> (r: bool)
    ensures
        r == ranks_before(*a, *b),
{
    let ka: u8 = match a.kind {
        EvidenceKind::DirectDiff => 2,
        _ => 1,
    };
    let kb: u8 = match b.kind {
        EvidenceKind::DirectDiff => 2,
        _ => 1,
    };
    if ka != kb {
        ka > kb
    } else if a.lines_touched != b.lines_touched {
        a.lines_touched > b.lines_touched
    } else {
        str_lt(a.commit_sha.as_str(), b.commit_sha.as_str())
    }
}

/// Sorts Evidence by rank, keeping the input order among equals.
pub fn rank_evidence(candidates: &[Evidence]) -> (r: Vec<Evidence>)
    ensures
        r@ == ranked(candidates@),
{
    let mut out: Vec<Evidence> = Vec::new();
    let mut i: usize = 0;
    assert(candidates@.take(0) =~= Seq::<Evidence>::empty());
    while i < candidates.len()
        invariant
            i <= candidates@.len(),
            out@ == ranked(candidates@.take(i as int)),
        decreases candidates.len() - i,
    {
        let x = candidates[i].clone();
        let mut k: usize = 0;
        proof {
            lemma_ranked_len(candidates@.take(i as int));
        }
        while k < out.len() && !rank_before(&x, &out[k])
            invariant
                k <= out.len(),
                forall|j: int| 0 <= j < k ==> !ranks_before(x, #[trigger] out@[j]),
            decreases out.len() - k,
        {
            k = k + 1;
        }
        proof {
            lemma_insert_position(out@, x, k as int);
            let t = candidates@.take(i + 1);
            assert(t.drop_last() =~= candidates@.take(i as int));
            assert(t.last() == candidates@[i as int]);
        }
        out.insert(k, x);
        i = i + 1;
    }
    assert(candidates@.take(candidates@.len() as int) =~= candidates@);
    out
}

/// Ranks candidate Evidence and caps what is sent to a provider: the first
/// `max_evidence_items` ranked items are included, and every other item is
/// recorded as excluded with its first message line and the reason.
pub fn rank_and_budget_evidence(candidates: &[Evidence], config: &BudgetConfig) -> (r:
    BudgetResult)
    ensures
        r.total_considered == candidates@.len(),
        r.included@ == ranked(candidates@).take(
            if candidates@.len() <= config.max_evidence_items {
                candidates@.len() as int
            } else {
                config.max_evidence_items as int
            },
        ),
        r.included@.len() + r.excluded@.len() == candidates@.len(),
        forall|j: int|
            0 <= j < r.excluded@.len() ==> {
                let e = ranked(candidates@)[config.max_evidence_items + j];
                &&& (#[trigger] r.excluded@[j]).commit_sha == e.commit_sha
                &&& r.excluded@[j].message_summary@ == spec_first_line(e.message@)
                &&& r.excluded@[j].reason@ == exclusion_reason(
                    config.max_evidence_items as nat,
                )
                &&& r.excluded@[j].lines_touched == e.lines_touched
            },
{
    let total_considered = candidates.len();
    let ranked_items = rank_evidence(candidates);
    proof {
        lemma_ranked_len(candidates@);
    }
    let ghost all = ranked_items@;
    let mut included: Vec<Evidence> = Vec::new();
    let mut excluded: Vec<ExcludedEvidence> = Vec::new();
    let cap = config.max_evidence_items;
    let mut idx: usize = 0;
    while idx < ranked_items.len()
        invariant
            all == ranked(candidates@),
            all.len() == candidates@.len(),
            ranked_items@ == all,
            idx <= all.len(),
            cap == config.max_evidence_items,
            included@ == all.take(if idx <= cap { idx as int } else { cap as int }),
            excluded@.len() == if idx <= cap { 0 } else { idx - cap },
            forall|j: int|
                0 <= j < excluded@.len() ==> {
                    let e = all[cap + j];
                    &&& (#[trigger] excluded@[j]).commit_sha == e.commit_sha
                    &&& excluded@[j].message_summary@ == spec_first_line(e.message@)
                    &&& excluded@[j].reason@ == exclusion_reason(cap as nat)
                    &&& excluded@[j].lines_touched == e.lines_touched
                },
        decreases all.len() - idx,
    {
        let item = &ranked_items[idx];
        if idx < cap {
            included.push(item.clone());
            assert(all.take(idx + 1) =~= all.take(idx as int).push(all[idx as int]));
        } else {
            let mut reason = String::from_str("Exceeded max evidence item budget (cap = ");
            reason.append(decimal(cap as u64).as_str());
            reason.append(")");
            excluded.push(
                ExcludedEvidence {
                    commit_sha: item.commit_sha.clone(),
                    message_summary: first_line(item.message.as_str()),
                    reason,
                    lines_touched: item.lines_touched,
                },
            );
        }
        idx = idx + 1;
    }
    BudgetResult { included, excluded, total_considered }
}

/// Ranking neither loses nor invents Evidence: the ranked list holds
/// exactly the candidates, each as often.
pub proof fn law_ranking_is_a_permutation(s: Seq<Evidence>)
    ensures
        ranked(s).to_multiset() == s.to_multiset(),
    decreases s.len(),
{
    if s.len() > 0 {
        let prev = ranked(s.drop_last());
        law_ranking_is_a_permutation(s.drop_last());
        lemma_insert_position_bounds(prev, s.last());
        vstd::seq_lib::to_multiset_insert(prev, insert_position(prev, s.last()), s.last());
        vstd::seq_lib::to_multiset_build(s.drop_last(), s.last());
        assert(s.drop_last().push(s.last()) =~= s);
        assert(ranked(s) == prev.insert(insert_position(prev, s.last()), s.last()));
    } else {
        assert(ranked(s) =~= s);
    }
}

proof fn lemma_ranks_before_order(a: Evidence, b: Evidence, c: Evidence)
    ensures
        !(ranks_before(a, b) && ranks_before(b, a)),
        ranks_before(a, b) && ranks_before(b, c) ==> ranks_before(a, c),
{
    lemma_seq_lt_asymmetric(a.commit_sha@, b.commit_sha@);
    if seq_lt(a.commit_sha@, b.commit_sha@) && seq_lt(b.commit_sha@, c.commit_sha@) {
        lemma_seq_lt_transitive(a.commit_sha@, b.commit_sha@, c.commit_sha@);
    }
}

proof fn lemma_insert_position_facts(s: Seq<Evidence>, x: Evidence)
    ensures
        forall|j: int| 0 <= j < insert_position(s, x) ==> !ranks_before(x, #[trigger] s[j]),
        insert_position(s, x) < s.len() ==> ranks_before(x, s[insert_position(s, x)]),
    decreases s.len(),
{
    lemma_insert_position_bounds(s, x);
    if s.len() > 0 && !ranks_before(x, s[0]) {
        lemma_insert_position_facts(s.drop_first(), x);
        lemma_insert_position_bounds(s.drop_first(), x);
        assert forall|j: int| 0 <= j < insert_position(s, x) implies !ranks_before(x, #[trigger] s[j]) by {
            if j > 0 {
                assert(s[j] == s.drop_first()[j - 1]);
            }
        }
        if insert_position(s, x) < s.len() {
            assert(s[insert_position(s, x)] == s.drop_first()[insert_position(s.drop_first(), x)]);
        }
    }
}

/// Ranked order: no item ranks strictly ahead of an item placed before it.
pub proof fn law_ranking_is_sorted(s: Seq<Evidence>)
    ensures
        forall|i: int, j: int|
            0 <= i < j < ranked(s).len() ==> !ranks_before(#[trigger] ranked(s)[j], #[trigger] ranked(s)[i]),
    decreases s.len(),
{
    if s.len() > 0 {
        let prev = ranked(s.drop_last());
        let x = s.last();
        let k = insert_position(prev, x);
        law_ranking_is_sorted(s.drop_last());
        lemma_insert_position_bounds(prev, x);
        lemma_insert_position_facts(prev, x);
        let out = prev.insert(k, x);
        assert forall|i: int, j: int| 0 <= i < j < out.len() implies !ranks_before(
            #[trigger] out[j],
            #[trigger] out[i],
        ) by {
            if j < k {
                assert(out[i] == prev[i] && out[j] == prev[j]);
            } else if j == k {
                assert(out[i] == prev[i]);
            } else if i == k {
                assert(out[j] == prev[j - 1]);
                lemma_ranks_before_order(prev[j - 1], x, prev[k]);
                if j - 1 > k {
                    assert(!ranks_before(prev[j - 1], prev[k]));
                }
            } else if i < k {
                assert(out[i] == prev[i] && out[j] == prev[j - 1]);
            } else {
                assert(out[i] == prev[i - 1] && out[j] == prev[j - 1]);
            }
        }
    }
}

/// Ranking puts direct diffs ahead of co-committed files, and among Evidence
/// of the same kind more lines touched rank first: for every earlier item
/// `i` and later item `j` of the ranking, a direct diff at `j` means a direct
/// diff at `i`, and when both are direct diffs or both co-committed files,
/// `i` touched at least as many lines as `j`, and with as many lines, `i`'s
/// commit sha does not sort after `j`'s. The budget keeps a prefix of
/// this ranking, so the same holds of the Evidence it includes.
pub proof fn law_direct_and_larger_changes_rank_first(s: Seq<Evidence>)
    ensures
        forall|i: int, j: int|
            0 <= i < j < ranked(s).len() ==> {
                &&& (#[trigger] ranked(s)[j]).kind == EvidenceKind::DirectDiff ==> (#[trigger] ranked(
                    s,
                )[i]).kind == EvidenceKind::DirectDiff
                &&& (ranked(s)[i].kind == EvidenceKind::DirectDiff) == (ranked(s)[j].kind
                    == EvidenceKind::DirectDiff) ==> ranked(s)[i].lines_touched
                    >= ranked(s)[j].lines_touched
                &&& (ranked(s)[i].kind == EvidenceKind::DirectDiff) == (ranked(s)[j].kind
                    == EvidenceKind::DirectDiff) && ranked(s)[i].lines_touched
                    == ranked(s)[j].lines_touched ==> !seq_lt(
                    ranked(s)[j].commit_sha@,
                    ranked(s)[i].commit_sha@,
                )
            },
{
    law_ranking_is_sorted(s);
    assert forall|i: int, j: int| 0 <= i < j < ranked(s).len() implies {
        &&& (#[trigger] ranked(s)[j]).kind == EvidenceKind::DirectDiff ==> (#[trigger] ranked(
            s,
        )[i]).kind == EvidenceKind::DirectDiff
        &&& (ranked(s)[i].kind == EvidenceKind::DirectDiff) == (ranked(s)[j].kind
            == EvidenceKind::DirectDiff) ==> ranked(s)[i].lines_touched >= ranked(s)[j].lines_touched
        &&& (ranked(s)[i].kind == EvidenceKind::DirectDiff) == (ranked(s)[j].kind
            == EvidenceKind::DirectDiff) && ranked(s)[i].lines_touched == ranked(s)[j].lines_touched
            ==> !seq_lt(ranked(s)[j].commit_sha@, ranked(s)[i].commit_sha@)
    } by {
        assert(!ranks_before(ranked(s)[j], ranked(s)[i]));
    }
}

} // verus!
