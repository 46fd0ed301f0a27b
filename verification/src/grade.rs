use vstd::prelude::*;

use crate::text::{is_blank, spec_is_blank};

verus! {

#[derive(Debug, Clone, Copy, PartialEq, Eq, Structural)]
pub enum QualityDimension {
    Correctness,
    TestProtection,
    Security,
    Maintainability,
    Simplicity,
    EvidenceFit,
}

#[derive(Debug, Clone, Copy, PartialEq, Eq, Structural)]
pub enum LetterGrade {
    F,
    D,
    C,
    B,
    A,
    APlus,
}

/// Rank of a letter from worst (0) to best (5).
pub open spec fn letter_rank(grade: LetterGrade) -> int {
    match grade {
        LetterGrade::F => 0,
        LetterGrade::D => 1,
        LetterGrade::C => 2,
        LetterGrade::B => 3,
        LetterGrade::A => 4,
        LetterGrade::APlus => 5,
    }
}

/// The letter band of a 0..=100 score; anything outside 0..=100 is F.
pub open spec fn letter_of(score: int) -> LetterGrade {
    if 95 <= score <= 100 {
        LetterGrade::APlus
    } else if 90 <= score <= 94 {
        LetterGrade::A
    } else if 80 <= score <= 89 {
        LetterGrade::B
    } else if 70 <= score <= 79 {
        LetterGrade::C
    } else if 60 <= score <= 69 {
        LetterGrade::D
    } else {
        LetterGrade::F
    }
}

impl LetterGrade {
    pub fn from_score(score: u8) -> (r: Self)
        ensures
            r == letter_of(score as int),
    {
        if 95 <= score && score <= 100 {
            LetterGrade::APlus
        } else if 90 <= score && score <= 94 {
            LetterGrade::A
        } else if 80 <= score && score <= 89 {
            LetterGrade::B
        } else if 70 <= score && score <= 79 {
            LetterGrade::C
        } else if 60 <= score && score <= 69 {
            LetterGrade::D
        } else {
            LetterGrade::F
        }
    }
}

#[derive(Debug, Clone, Copy, PartialEq, Eq, Structural)]
pub enum Grade {
    Incomplete,
    Letter(LetterGrade),
}

/// How an overall grade is shown: `A+` to `F`, or `Incomplete`.
pub open spec fn grade_label(grade: Grade) -> Seq<char> {
    match grade {
        Grade::Incomplete => "Incomplete"@,
        Grade::Letter(LetterGrade::APlus) => "A+"@,
        Grade::Letter(LetterGrade::A) => "A"@,
        Grade::Letter(LetterGrade::B) => "B"@,
        Grade::Letter(LetterGrade::C) => "C"@,
        Grade::Letter(LetterGrade::D) => "D"@,
        Grade::Letter(LetterGrade::F) => "F"@,
    }
}

pub fn format_overall_grade(grade: Grade) -> (r: String)
    ensures
        r@ == grade_label(grade),
{
    match grade {
        Grade::Incomplete => String::from_str("Incomplete"),
        Grade::Letter(LetterGrade::APlus) => String::from_str("A+"),
        Grade::Letter(LetterGrade::A) => String::from_str("A"),
        Grade::Letter(LetterGrade::B) => String::from_str("B"),
        Grade::Letter(LetterGrade::C) => String::from_str("C"),
        Grade::Letter(LetterGrade::D) => String::from_str("D"),
        Grade::Letter(LetterGrade::F) => String::from_str("F"),
    }
}

/// A measured value together with the receipt that proves it.
#[derive(Debug, Clone)]
pub struct Measurement<T> {
    pub value: T,
    pub receipt: String,
}

impl<T> Measurement<T> {
    pub fn new(value: T, receipt: &str) -> (r: Self)
        ensures
            r.value == value,
            r.receipt@ == receipt@,
    {
        Measurement { value, receipt: receipt.to_owned() }
    }
}

#[derive(Debug, Clone, Copy, PartialEq, Eq, Structural)]
pub struct CorrectnessMetrics {
    pub build_passed: bool,
    pub locked_tests_passed: bool,
}

/// Maintainability measurement. The index is held in hundredths of a point
/// (an index of 84.9 is 8490); a non-finite index is never measured.
#[derive(Debug, Clone, Copy, PartialEq, Eq, Structural)]
pub struct MaintainabilityMetrics {
    pub maintainability_index: u32,
    pub max_changed_function_complexity: u32,
}

#[derive(Debug, Clone, Copy, PartialEq, Eq, Structural)]
pub struct SecurityFindings {
    pub blocker: u32,
    pub critical: u32,
    pub high: u32,
    pub medium: u32,
    pub low: u32,
}

/// All quality measurements of one commit. Test protection (changed-code
/// coverage) is held in hundredths of a percent (82.9% is 8290).
#[derive(Debug, Clone)]
pub struct QualityMeasurements {
    pub correctness: Option<Measurement<CorrectnessMetrics>>,
    pub test_protection: Option<Measurement<u32>>,
    pub security: Option<Measurement<SecurityFindings>>,
    pub maintainability: Option<Measurement<MaintainabilityMetrics>>,
    pub simplicity: Option<Measurement<u8>>,
    pub evidence_fit: Option<Measurement<u8>>,
}

/// Per-dimension score caps, with the rationale disclosed in every override
/// receipt. They act as a map from dimension to cap: a dimension listed more
/// than once keeps the cap listed last, and caps apply in dimension order.
#[derive(Debug, Clone)]
pub struct GradeOverride {
    pub score_caps: Vec<(QualityDimension, u8)>,
    pub rationale: String,
}

#[derive(Debug, Clone, PartialEq, Eq)]
pub struct OverrideReceipt {
    pub dimension: QualityDimension,
    pub measured_score: Option<u8>,
    pub effective_score: Option<u8>,
    pub rationale: String,
}

#[derive(Debug, Clone, PartialEq, Eq)]
pub struct DimensionGrade {
    pub dimension: QualityDimension,
    pub score: u8,
    pub grade: LetterGrade,
    pub receipt: String,
}

#[derive(Debug, Clone, Copy, PartialEq, Eq, Structural)]
pub enum HardFailure {
    Build,
    LockedTests,
    CriticalSecurity,
}

/// A model's critique. It is only advisory and never changes a measured grade.
#[derive(Debug, Clone)]
pub struct ProvisionalAssessment {
    pub critique: String,
    pub citations: Vec<String>,
    pub suggested_scores: Vec<(QualityDimension, u8)>,
}

#[derive(Debug, Clone)]
pub struct QualityGrade {
    pub overall: Grade,
    pub overall_score: Option<u8>,
    pub dimensions: Vec<DimensionGrade>,
    pub missing_dimensions: Vec<QualityDimension>,
    pub hard_failures: Vec<HardFailure>,
    pub override_receipts: Vec<OverrideReceipt>,
    pub provisional: Option<ProvisionalAssessment>,
    pub automation_eligible: bool,
}

pub struct QualityGradeView {
    pub overall: Grade,
    pub overall_score: Option<u8>,
    pub dimensions: Seq<DimensionGrade>,
    pub missing_dimensions: Seq<QualityDimension>,
    pub hard_failures: Seq<HardFailure>,
    pub override_receipts: Seq<OverrideReceipt>,
    pub automation_eligible: bool,
}

impl View for QualityGrade {
    type V = QualityGradeView;

    open spec fn view(&self) -> QualityGradeView {
        QualityGradeView {
            overall: self.overall,
            overall_score: self.overall_score,
            dimensions: self.dimensions@,
            missing_dimensions: self.missing_dimensions@,
            hard_failures: self.hard_failures@,
            override_receipts: self.override_receipts@,
            automation_eligible: self.automation_eligible,
        }
    }
}

impl QualityGrade {
    /// Attaches a model critique. The measured grade is kept as it is, and a
    /// grade with a provisional critique is never eligible for automation.
    pub fn with_provisional(self, provisional: ProvisionalAssessment) -> (r: Self)
        ensures
            r.overall == self.overall,
            r.overall_score == self.overall_score,
            r.dimensions@ == self.dimensions@,
            r.missing_dimensions@ == self.missing_dimensions@,
            r.hard_failures@ == self.hard_failures@,
            r.override_receipts@ == self.override_receipts@,
            r.provisional == Some(provisional),
            !r.automation_eligible,
    {
        let mut next = self;
        next.provisional = Some(provisional);
        next.automation_eligible = false;
        next
    }
}

// ---------------------------------------------------------------------------
// Score bands
// ---------------------------------------------------------------------------

/// Coverage band, coverage in hundredths of a percent.
pub open spec fn coverage_band(hundredths: int) -> int {
    if hundredths >= 9500 {
        100
    } else if hundredths >= 9000 {
        92
    } else if hundredths >= 8000 {
        85
    } else if hundredths >= 7000 {
        75
    } else if hundredths >= 5000 {
        65
    } else {
        0
    }
}

/// Maintainability-index band, index in hundredths.
pub open spec fn maintainability_band(hundredths: int) -> int {
    if hundredths >= 8500 {
        100
    } else if hundredths >= 7000 {
        92
    } else if hundredths >= 5000 {
        85
    } else if hundredths >= 2000 {
        75
    } else if hundredths >= 1000 {
        65
    } else {
        0
    }
}

pub open spec fn complexity_band(complexity: int) -> int {
    if complexity <= 5 {
        100
    } else if complexity <= 10 {
        92
    } else if complexity <= 15 {
        85
    } else if complexity <= 20 {
        75
    } else if complexity <= 25 {
        65
    } else {
        0
    }
}

pub open spec fn security_band(f: SecurityFindings) -> int {
    if f.blocker > 0 || f.critical > 0 {
        0
    } else if f.high > 0 {
        65
    } else if f.medium > 0 {
        75
    } else if f.low > 0 {
        85
    } else {
        100
    }
}

pub open spec fn correctness_band(m: CorrectnessMetrics) -> int {
    if m.build_passed && m.locked_tests_passed {
        100
    } else {
        0
    }
}

pub open spec fn min_int(a: int, b: int) -> int {
    if a <= b {
        a
    } else {
        b
    }
}

pub open spec fn maintainability_raw(m: MaintainabilityMetrics) -> int {
    min_int(
        maintainability_band(m.maintainability_index as int),
        complexity_band(m.max_changed_function_complexity as int),
    )
}

fn coverage_score(hundredths: u32) -> (r: u32)
    ensures
        r == coverage_band(hundredths as int),
{
    if hundredths >= 9500 {
        100
    } else if hundredths >= 9000 {
        92
    } else if hundredths >= 8000 {
        85
    } else if hundredths >= 7000 {
        75
    } else if hundredths >= 5000 {
        65
    } else {
        0
    }
}

fn maintainability_score(hundredths: u32) -> (r: u32)
    ensures
        r == maintainability_band(hundredths as int),
{
    if hundredths >= 8500 {
        100
    } else if hundredths >= 7000 {
        92
    } else if hundredths >= 5000 {
        85
    } else if hundredths >= 2000 {
        75
    } else if hundredths >= 1000 {
        65
    } else {
        0
    }
}

fn complexity_score(value: u32) -> (r: u32)
    ensures
        r == complexity_band(value as int),
{
    if value <= 5 {
        100
    } else if value <= 10 {
        92
    } else if value <= 15 {
        85
    } else if value <= 20 {
        75
    } else if value <= 25 {
        65
    } else {
        0
    }
}

fn security_score(findings: &SecurityFindings) -> (r: u32)
    ensures
        r == security_band(*findings),
{
    if findings.blocker > 0 || findings.critical > 0 {
        0
    } else if findings.high > 0 {
        65
    } else if findings.medium > 0 {
        75
    } else if findings.low > 0 {
        85
    } else {
        100
    }
}

// ---------------------------------------------------------------------------
// The grade as a function of the measurements
// ---------------------------------------------------------------------------

/// A measurement counts only when it is present with a non-blank receipt.
pub open spec fn is_measured<T>(m: Option<Measurement<T>>) -> bool {
    m matches Some(x) && !spec_is_blank(x.receipt@)
}

pub type GradeTables = (Seq<DimensionGrade>, Seq<QualityDimension>);

/// Records one dimension: graded when measured, missing otherwise.
pub open spec fn record_dimension(
    acc: GradeTables,
    dimension: QualityDimension,
    measured: bool,
    raw: int,
    receipt: String,
) -> GradeTables {
    if measured {
        let score = min_int(raw, 100);
        (
            acc.0.push(
                DimensionGrade { dimension, score: score as u8, grade: letter_of(score), receipt },
            ),
            acc.1,
        )
    } else {
        (acc.0, acc.1.push(dimension))
    }
}

/// Dimension grades and missing dimensions, in the fixed dimension order.
pub open spec fn measured_tables(m: QualityMeasurements) -> GradeTables {
    let t0: GradeTables = (Seq::empty(), Seq::empty());
    let t1 = record_dimension(
        t0,
        QualityDimension::Correctness,
        is_measured(m.correctness),
        correctness_band(m.correctness->0.value),
        m.correctness->0.receipt,
    );
    let t2 = record_dimension(
        t1,
        QualityDimension::TestProtection,
        is_measured(m.test_protection),
        coverage_band(m.test_protection->0.value as int),
        m.test_protection->0.receipt,
    );
    let t3 = record_dimension(
        t2,
        QualityDimension::Security,
        is_measured(m.security),
        security_band(m.security->0.value),
        m.security->0.receipt,
    );
    let t4 = record_dimension(
        t3,
        QualityDimension::Maintainability,
        is_measured(m.maintainability),
        maintainability_raw(m.maintainability->0.value),
        m.maintainability->0.receipt,
    );
    let t5 = record_dimension(
        t4,
        QualityDimension::Simplicity,
        is_measured(m.simplicity),
        m.simplicity->0.value as int,
        m.simplicity->0.receipt,
    );
    record_dimension(
        t5,
        QualityDimension::EvidenceFit,
        is_measured(m.evidence_fit),
        m.evidence_fit->0.value as int,
        m.evidence_fit->0.receipt,
    )
}

/// Hard failures: a failed build or failed locked tests (whenever correctness
/// is present), and any blocker or critical security finding.
pub open spec fn hard_failures_of(m: QualityMeasurements) -> Seq<HardFailure> {
    let build: Seq<HardFailure> = if m.correctness is Some && !m.correctness->0.value.build_passed {
        seq![HardFailure::Build]
    } else {
        Seq::empty()
    };
    let tests: Seq<HardFailure> = if m.correctness is Some
        && !m.correctness->0.value.locked_tests_passed {
        seq![HardFailure::LockedTests]
    } else {
        Seq::empty()
    };
    let security: Seq<HardFailure> = if m.security is Some && (m.security->0.value.blocker > 0
        || m.security->0.value.critical > 0) {
        seq![HardFailure::CriticalSecurity]
    } else {
        Seq::empty()
    };
    build + tests + security
}

/// `i` is the first position of `dimension` in `dims`.
pub open spec fn first_at(dims: Seq<DimensionGrade>, dimension: QualityDimension, i: int) -> bool {
    &&& 0 <= i < dims.len()
    &&& dims[i].dimension == dimension
    &&& forall|j: int| 0 <= j < i ==> dims[j].dimension != dimension
}

pub open spec fn min_u8(a: u8, b: u8) -> u8 {
    if a <= b {
        a
    } else {
        b
    }
}

/// Applies one cap: the first grade of that dimension is lowered to the cap
/// (never raised), and a receipt discloses the measured and effective scores.
pub open spec fn apply_cap(
    dims: Seq<DimensionGrade>,
    cap: (QualityDimension, u8),
    rationale: String,
) -> (Seq<DimensionGrade>, OverrideReceipt) {
    if exists|i: int| first_at(dims, cap.0, i) {
        let i = choose|i: int| first_at(dims, cap.0, i);
        let measured = dims[i].score;
        let effective = min_u8(measured, min_u8(cap.1, 100));
        (
            dims.update(
                i,
                DimensionGrade { score: effective, grade: letter_of(effective as int), ..dims[i] },
            ),
            OverrideReceipt {
                dimension: cap.0,
                measured_score: Some(measured),
                effective_score: Some(effective),
                rationale,
            },
        )
    } else {
        (
            dims,
            OverrideReceipt {
                dimension: cap.0,
                measured_score: None,
                effective_score: None,
                rationale,
            },
        )
    }
}

/// Applies the caps in order.
pub open spec fn apply_caps(
    dims: Seq<DimensionGrade>,
    caps: Seq<(QualityDimension, u8)>,
    rationale: String,
) -> (Seq<DimensionGrade>, Seq<OverrideReceipt>)
    decreases caps.len(),
{
    if caps.len() == 0 {
        (dims, Seq::empty())
    } else {
        let prev = apply_caps(dims, caps.drop_last(), rationale);
        let step = apply_cap(prev.0, caps.last(), rationale);
        (step.0, prev.1.push(step.1))
    }
}

/// The lowest score among the dimension grades, 0 when there are none.
pub open spec fn weakest_score(dims: Seq<DimensionGrade>) -> int
    decreases dims.len(),
{
    if dims.len() == 0 {
        0
    } else if dims.len() == 1 {
        dims[0].score as int
    } else {
        min_int(weakest_score(dims.drop_last()), dims.last().score as int)
    }
}

/// The complete grade of a set of measurements under optional caps.
pub open spec fn spec_grade(
    m: QualityMeasurements,
    caps: Seq<(QualityDimension, u8)>,
    rationale: String,
) -> QualityGradeView {
    let tables = measured_tables(m);
    let capped = apply_caps(tables.0, caps, rationale);
    let failures = hard_failures_of(m);
    let weakest = weakest_score(capped.0);
    let overall = if failures.len() > 0 {
        Grade::Letter(LetterGrade::F)
    } else if tables.1.len() > 0 {
        Grade::Incomplete
    } else {
        Grade::Letter(letter_of(weakest))
    };
    let overall_score: Option<u8> = if failures.len() > 0 {
        Some(0u8)
    } else if tables.1.len() > 0 {
        None
    } else {
        Some(weakest as u8)
    };
    QualityGradeView {
        overall,
        overall_score,
        dimensions: capped.0,
        missing_dimensions: tables.1,
        hard_failures: failures,
        override_receipts: capped.1,
        automation_eligible: overall_score is Some && failures.len() == 0,
    }
}

/// The dimensions in their declared order, the order caps are applied in.
pub open spec fn dimension_order() -> Seq<QualityDimension> {
    seq![
        QualityDimension::Correctness,
        QualityDimension::TestProtection,
        QualityDimension::Security,
        QualityDimension::Maintainability,
        QualityDimension::Simplicity,
        QualityDimension::EvidenceFit,
    ]
}

/// The cap given last for `d`, if any: a later cap for a dimension replaces
/// an earlier one.
pub open spec fn last_cap(caps: Seq<(QualityDimension, u8)>, d: QualityDimension) -> Option<u8>
    decreases caps.len(),
{
    if caps.len() == 0 {
        None
    } else if caps.last().0 == d {
        Some(caps.last().1)
    } else {
        last_cap(caps.drop_last(), d)
    }
}

/// One cap per dimension of `ds` that has one, in the order of `ds`, each
/// the last given for its dimension.
pub open spec fn caps_for(caps: Seq<(QualityDimension, u8)>, ds: Seq<QualityDimension>) -> Seq<
    (QualityDimension, u8),
>
    decreases ds.len(),
{
    if ds.len() == 0 {
        Seq::empty()
    } else {
        let prev = caps_for(caps, ds.drop_last());
        match last_cap(caps, ds.last()) {
            Some(v) => prev.push((ds.last(), v)),
            None => prev,
        }
    }
}

/// The caps of an optional override as they are applied: one per capped
/// dimension, in dimension order, each the last given; empty without one.
pub open spec fn caps_of(overrides: Option<&GradeOverride>) -> Seq<(QualityDimension, u8)> {
    match overrides {
        Some(o) => caps_for(o.score_caps@, dimension_order()),
        None => Seq::empty(),
    }
}

fn last_cap_of(caps: &Vec<(QualityDimension, u8)>, d: QualityDimension) -> (r: Option<u8>)
    ensures
        r == last_cap(caps@, d),
{
    let mut k: usize = caps.len();
    assert(caps@.take(k as int) =~= caps@);
    while k > 0
        invariant
            k <= caps@.len(),
            last_cap(caps@, d) == last_cap(caps@.take(k as int), d),
        decreases k,
    {
        let c = caps[k - 1];
        let ghost t = caps@.take(k as int);
        assert(t.drop_last() =~= caps@.take(k - 1));
        assert(t.last() == c);
        if c.0 == d {
            return Some(c.1);
        }
        k = k - 1;
    }
    None
}

/// The caps to apply, in dimension order, one per capped dimension, each
/// the last given for it.
fn ordered_caps(caps: &Vec<(QualityDimension, u8)>) -> (r: Vec<(QualityDimension, u8)>)
    ensures
        r@ == caps_for(caps@, dimension_order()),
{
    let order = vec![
        QualityDimension::Correctness,
        QualityDimension::TestProtection,
        QualityDimension::Security,
        QualityDimension::Maintainability,
        QualityDimension::Simplicity,
        QualityDimension::EvidenceFit,
    ];
    assert(order@ =~= dimension_order());
    let mut out: Vec<(QualityDimension, u8)> = Vec::new();
    let mut i: usize = 0;
    assert(order@.take(0) =~= Seq::<QualityDimension>::empty());
    while i < order.len()
        invariant
            i <= order@.len(),
            order@ == dimension_order(),
            out@ == caps_for(caps@, order@.take(i as int)),
        decreases order.len() - i,
    {
        let d = order[i];
        let ghost t = order@.take(i + 1);
        assert(t.drop_last() =~= order@.take(i as int));
        assert(t.last() == d);
        match last_cap_of(caps, d) {
            Some(v) => {
                out.push((d, v));
            },
            None => {},
        }
        i = i + 1;
    }
    assert(order@.take(order@.len() as int) =~= order@);
    out
}

pub open spec fn rationale_of(overrides: Option<&GradeOverride>) -> String {
    overrides->0.rationale
}

proof fn lemma_first_at_unique(dims: Seq<DimensionGrade>, d: QualityDimension, i: int, k: int)
    requires
        first_at(dims, d, i),
        first_at(dims, d, k),
    ensures
        i == k,
{
    if i < k {
        assert(dims[i].dimension != d);
    } else if k < i {
        assert(dims[k].dimension != d);
    }
}

proof fn lemma_weakest_bounds(dims: Seq<DimensionGrade>)
    ensures
        dims.len() > 0 ==> forall|j: int| 0 <= j < dims.len() ==> weakest_score(dims) <= #[trigger] dims[j].score,
        dims.len() > 0 ==> exists|j: int| 0 <= j < dims.len() && weakest_score(dims) == #[trigger] dims[j].score,
        0 <= weakest_score(dims) <= 255,
    decreases dims.len(),
{
    if dims.len() > 1 {
        lemma_weakest_bounds(dims.drop_last());
        let w = weakest_score(dims.drop_last());
        assert forall|j: int| 0 <= j < dims.len() implies weakest_score(dims) <= #[trigger] dims[j].score by {
            if j < dims.len() - 1 {
                assert(dims.drop_last()[j] == dims[j]);
            }
        }
        if w <= dims.last().score {
            let j = choose|j: int| 0 <= j < dims.drop_last().len() && w == #[trigger] dims.drop_last()[j].score;
            assert(dims[j] == dims.drop_last()[j]);
        } else {
            assert(dims[dims.len() - 1] == dims.last());
        }
    } else if dims.len() == 1 {
        assert(weakest_score(dims) == dims[0].score);
    }
}

fn push_measurement(
    dims: &mut Vec<DimensionGrade>,
    missing: &mut Vec<QualityDimension>,
    dimension: QualityDimension,
    scored: Option<(u32, &String)>,
)
    ensures
        (final(dims)@, final(missing)@) == record_dimension(
            (old(dims)@, old(missing)@),
            dimension,
            scored is Some,
            (scored->0).0 as int,
            *(scored->0).1,
        ),
{
    match scored {
        None => {
            missing.push(dimension);
        },
        Some((raw, receipt)) => {
            let score: u8 = if raw <= 100 {
                raw as u8
            } else {
                100
            };
            dims.push(
                DimensionGrade {
                    dimension,
                    score,
                    grade: LetterGrade::from_score(score),
                    receipt: receipt.clone(),
                },
            );
        },
    }
}

fn measured_receipt<T>(m: &Option<Measurement<T>>) -> (r: Option<&String>)
    ensures
        r is Some == is_measured(*m),
        r is Some ==> *r->0 == m->0.receipt,
{
    match m {
        Some(x) => {
            if is_blank(x.receipt.as_str()) {
                None
            } else {
                Some(&x.receipt)
            }
        },
        None => None,
    }
}

fn apply_one_cap(
    dims: &mut Vec<DimensionGrade>,
    cap: (QualityDimension, u8),
    rationale: &String,
) -> (r: OverrideReceipt)
    ensures
        (final(dims)@, r) == apply_cap(old(dims)@, cap, *rationale),
{
    let ghost d0 = dims@;
    let mut i: usize = 0;
    while i < dims.len() && dims[i].dimension != cap.0
        invariant
            dims@ == d0,
            i <= dims.len(),
            forall|j: int| 0 <= j < i ==> dims@[j].dimension != cap.0,
        decreases dims.len() - i,
    {
        i = i + 1;
    }
    if i < dims.len() {
        proof {
            assert(first_at(d0, cap.0, i as int));
            let k = choose|k: int| first_at(d0, cap.0, k);
            lemma_first_at_unique(d0, cap.0, i as int, k);
        }
        let measured = dims[i].score;
        let limit = if cap.1 <= 100 {
            cap.1
        } else {
            100
        };
        let effective = if measured <= limit {
            measured
        } else {
            limit
        };
        let updated = DimensionGrade {
            dimension: dims[i].dimension,
            score: effective,
            grade: LetterGrade::from_score(effective),
            receipt: dims[i].receipt.clone(),
        };
        dims.set(i, updated);
        OverrideReceipt {
            dimension: cap.0,
            measured_score: Some(measured),
            effective_score: Some(effective),
            rationale: rationale.clone(),
        }
    } else {
        OverrideReceipt {
            dimension: cap.0,
            measured_score: None,
            effective_score: None,
            rationale: rationale.clone(),
        }
    }
}

impl QualityMeasurements {
    /// Dimension grades and missing dimensions, before any cap.
    fn measured_dimensions(&self) -> (r: (Vec<DimensionGrade>, Vec<QualityDimension>))
        ensures
            (r.0@, r.1@) == measured_tables(*self),
    {
        let mut dimensions: Vec<DimensionGrade> = Vec::new();
        let mut missing: Vec<QualityDimension> = Vec::new();
        let correctness = match measured_receipt(&self.correctness) {
            Some(receipt) => {
                let metrics = self.correctness.as_ref().unwrap().value;
                let raw: u32 = if metrics.build_passed && metrics.locked_tests_passed {
                    100
                } else {
                    0
                };
                Some((raw, receipt))
            },
            None => None,
        };
        push_measurement(&mut dimensions, &mut missing, QualityDimension::Correctness, correctness);
        let coverage = match measured_receipt(&self.test_protection) {
            Some(receipt) => Some(
                (coverage_score(self.test_protection.as_ref().unwrap().value), receipt),
            ),
            None => None,
        };
        push_measurement(&mut dimensions, &mut missing, QualityDimension::TestProtection, coverage);
        let security = match measured_receipt(&self.security) {
            Some(receipt) => Some((security_score(&self.security.as_ref().unwrap().value), receipt)),
            None => None,
        };
        push_measurement(&mut dimensions, &mut missing, QualityDimension::Security, security);
        let maintainability = match measured_receipt(&self.maintainability) {
            Some(receipt) => {
                let metrics = self.maintainability.as_ref().unwrap().value;
                let a = maintainability_score(metrics.maintainability_index);
                let b = complexity_score(metrics.max_changed_function_complexity);
                Some((
                    if a <= b {
                        a
                    } else {
                        b
                    },
                    receipt,
                ))
            },
            None => None,
        };
        push_measurement(
            &mut dimensions,
            &mut missing,
            QualityDimension::Maintainability,
            maintainability,
        );
        let simplicity = match measured_receipt(&self.simplicity) {
            Some(receipt) => Some((self.simplicity.as_ref().unwrap().value as u32, receipt)),
            None => None,
        };
        push_measurement(&mut dimensions, &mut missing, QualityDimension::Simplicity, simplicity);
        let evidence_fit = match measured_receipt(&self.evidence_fit) {
            Some(receipt) => Some((self.evidence_fit.as_ref().unwrap().value as u32, receipt)),
            None => None,
        };
        push_measurement(&mut dimensions, &mut missing, QualityDimension::EvidenceFit, evidence_fit);
        (dimensions, missing)
    }

    fn hard_failures(&self) -> (r: Vec<HardFailure>)
        ensures
            r@ == hard_failures_of(*self),
    {
        let mut hard_failures: Vec<HardFailure> = Vec::new();
        if let Some(measurement) = &self.correctness {
            if !measurement.value.build_passed {
                hard_failures.push(HardFailure::Build);
            }
            if !measurement.value.locked_tests_passed {
                hard_failures.push(HardFailure::LockedTests);
            }
        }
        if let Some(item) = &self.security {
            if item.value.blocker > 0 || item.value.critical > 0 {
                hard_failures.push(HardFailure::CriticalSecurity);
            }
        }
        assert(hard_failures@ =~= hard_failures_of(*self));
        hard_failures
    }

    /// Grades the measurements. Every dimension is either graded from its
    /// receipt or listed as missing; a hard failure forces F (score 0), a
    /// missing dimension makes the grade Incomplete, and otherwise the overall
    /// grade is the weakest dimension. Caps only ever lower a dimension and are
    /// always disclosed in an override receipt.
    pub fn grade(&self, overrides: Option<&GradeOverride>) -> (r: QualityGrade)
        ensures
            r@ == spec_grade(*self, caps_of(overrides), rationale_of(overrides)),
            r.provisional is None,
    {
        let (mut dimensions, missing) = self.measured_dimensions();
        let hard_failures = self.hard_failures();
        let override_receipts = apply_override(&mut dimensions, overrides);
        let weakest = weakest_of(&dimensions);
        let (overall, overall_score) = if hard_failures.len() > 0 {
            (Grade::Letter(LetterGrade::F), Some(0u8))
        } else if missing.len() > 0 {
            (Grade::Incomplete, None)
        } else {
            (Grade::Letter(LetterGrade::from_score(weakest)), Some(weakest))
        };
        let automation_eligible = overall_score.is_some() && hard_failures.len() == 0;
        QualityGrade {
            overall,
            overall_score,
            dimensions,
            missing_dimensions: missing,
            hard_failures,
            override_receipts,
            provisional: None,
            automation_eligible,
        }
    }
}

fn apply_override(dimensions: &mut Vec<DimensionGrade>, overrides: Option<&GradeOverride>) -> (r:
    Vec<OverrideReceipt>)
    ensures
        (final(dimensions)@, r@) == apply_caps(
            old(dimensions)@,
            caps_of(overrides),
            rationale_of(overrides),
        ),
{
    let ghost base = dimensions@;
    let mut override_receipts: Vec<OverrideReceipt> = Vec::new();
    match overrides {
        Some(o) => {
            let ordered = ordered_caps(&o.score_caps);
            let ghost caps = ordered@;
            let n = ordered.len();
            let mut k: usize = 0;
            assert(caps.take(0) =~= Seq::<(QualityDimension, u8)>::empty());
            while k < n
                invariant
                    n == caps.len(),
                    caps == ordered@,
                    caps == caps_of(overrides),
                    k <= n,
                    (dimensions@, override_receipts@) == apply_caps(
                        base,
                        caps.take(k as int),
                        o.rationale,
                    ),
                decreases n - k,
            {
                let cap = ordered[k];
                let receipt = apply_one_cap(dimensions, cap, &o.rationale);
                override_receipts.push(receipt);
                assert(caps.take(k + 1).drop_last() =~= caps.take(k as int));
                assert(caps.take(k + 1).last() == cap);
                k = k + 1;
            }
            assert(caps.take(n as int) =~= caps);
        },
        None => {
            assert(override_receipts@ =~= Seq::<OverrideReceipt>::empty());
        },
    }
    override_receipts
}

fn weakest_of(dimensions: &Vec<DimensionGrade>) -> (r: u8)
    ensures
        r == weakest_score(dimensions@),
{
    let mut weakest: u8 = 0;
    let mut j: usize = 0;
    while j < dimensions.len()
        invariant
            j <= dimensions.len(),
            j == 0 ==> weakest == 0,
            j > 0 ==> weakest == weakest_score(dimensions@.take(j as int)),
        decreases dimensions.len() - j,
    {
        let s = dimensions[j].score;
        proof {
            let t = dimensions@.take(j + 1);
            assert(t.drop_last() =~= dimensions@.take(j as int));
            assert(t.last() == dimensions@[j as int]);
            if j == 0 {
                assert(t.len() == 1);
                assert(t[0] == dimensions@[0]);
            }
        }
        if j == 0 || s < weakest {
            weakest = s;
        }
        j = j + 1;
    }
    assert(dimensions@.take(dimensions@.len() as int) =~= dimensions@);
    weakest
}


// ---------------------------------------------------------------------------
// Laws of grading
// ---------------------------------------------------------------------------

/// A hard failure always yields F with an overall score of 0, and such a
/// grade is never eligible for automation, whatever the other measurements.
pub proof fn law_hard_failure_forces_f(
    m: QualityMeasurements,
    caps: Seq<(QualityDimension, u8)>,
    rationale: String,
)
    requires
        hard_failures_of(m).len() > 0,
    ensures
        spec_grade(m, caps, rationale).overall == Grade::Letter(LetterGrade::F),
        spec_grade(m, caps, rationale).overall_score == Some(0u8),
        !spec_grade(m, caps, rationale).automation_eligible,
{
}

/// A missing dimension (without a hard failure) makes the grade Incomplete
/// with no overall score, and Incomplete is never eligible for automation.
pub proof fn law_missing_dimension_is_incomplete(
    m: QualityMeasurements,
    caps: Seq<(QualityDimension, u8)>,
    rationale: String,
)
    requires
        hard_failures_of(m).len() == 0,
        measured_tables(m).1.len() > 0,
    ensures
        spec_grade(m, caps, rationale).overall == Grade::Incomplete,
        spec_grade(m, caps, rationale).overall_score is None,
        !spec_grade(m, caps, rationale).automation_eligible,
{
}

/// Every one of the six dimensions is either graded or reported missing.
pub proof fn law_every_dimension_accounted(m: QualityMeasurements)
    ensures
        measured_tables(m).0.len() + measured_tables(m).1.len() == 6,
{
}

/// With every dimension measured and no hard failure, the overall score is
/// the weakest dimension's score: no higher than any dimension, equal to one.
pub proof fn law_overall_is_weakest_dimension(
    m: QualityMeasurements,
    caps: Seq<(QualityDimension, u8)>,
    rationale: String,
)
    requires
        hard_failures_of(m).len() == 0,
        measured_tables(m).1.len() == 0,
    ensures
        ({
            let g = spec_grade(m, caps, rationale);
            &&& g.overall_score is Some
            &&& g.automation_eligible
            &&& g.overall == Grade::Letter(letter_of(g.overall_score->0 as int))
            &&& forall|j: int|
                0 <= j < g.dimensions.len() ==> g.overall_score->0 <= #[trigger] g.dimensions[j].score
            &&& exists|j: int|
                0 <= j < g.dimensions.len() && g.overall_score->0 == #[trigger] g.dimensions[j].score
        }),
{
    let capped = apply_caps(measured_tables(m).0, caps, rationale).0;
    law_every_dimension_accounted(m);
    lemma_caps_keep_dimensions(measured_tables(m).0, caps, rationale);
    lemma_weakest_bounds(capped);
}

/// Applying caps keeps every dimension in place and never raises a score.
pub proof fn lemma_caps_keep_dimensions(
    dims: Seq<DimensionGrade>,
    caps: Seq<(QualityDimension, u8)>,
    rationale: String,
)
    ensures
        apply_caps(dims, caps, rationale).0.len() == dims.len(),
        apply_caps(dims, caps, rationale).1.len() == caps.len(),
        forall|j: int|
            0 <= j < dims.len() ==> (#[trigger] apply_caps(dims, caps, rationale).0[j]).dimension
                == dims[j].dimension && apply_caps(dims, caps, rationale).0[j].score
                <= dims[j].score && apply_caps(dims, caps, rationale).0[j].receipt
                == dims[j].receipt,
    decreases caps.len(),
{
    if caps.len() > 0 {
        lemma_caps_keep_dimensions(dims, caps.drop_last(), rationale);
        let prev = apply_caps(dims, caps.drop_last(), rationale).0;
        let cap = caps.last();
        if exists|i: int| first_at(prev, cap.0, i) {
            let i = choose|i: int| first_at(prev, cap.0, i);
            let next = apply_cap(prev, cap, rationale).0;
            assert forall|j: int| 0 <= j < dims.len() implies (#[trigger] next[j]).dimension
                == dims[j].dimension && next[j].score <= dims[j].score && next[j].receipt
                == dims[j].receipt by {
                assert(prev[j].dimension == dims[j].dimension);
            }
        }
    }
}

/// Override caps never raise a grade: every dimension graded under caps scores
/// at most what it scores without them, and each cap yields one receipt.
pub proof fn law_overrides_never_raise(
    m: QualityMeasurements,
    caps: Seq<(QualityDimension, u8)>,
    rationale: String,
)
    ensures
        ({
            let capped = spec_grade(m, caps, rationale);
            let plain = spec_grade(m, Seq::empty(), rationale);
            &&& capped.dimensions.len() == plain.dimensions.len()
            &&& capped.override_receipts.len() == caps.len()
            &&& forall|j: int|
                0 <= j < plain.dimensions.len() ==> (#[trigger] capped.dimensions[j]).score
                    <= plain.dimensions[j].score && capped.dimensions[j].dimension
                    == plain.dimensions[j].dimension
        }),
{
    lemma_caps_keep_dimensions(measured_tables(m).0, caps, rationale);
    assert(apply_caps(measured_tables(m).0, Seq::empty(), rationale).0 == measured_tables(m).0);
}

/// A higher score never earns a worse letter (within the 0..=100 band).
pub proof fn law_letter_monotone(a: int, b: int)
    requires
        0 <= a <= b <= 100,
    ensures
        letter_rank(letter_of(a)) <= letter_rank(letter_of(b)),
{
}

} // verus!
