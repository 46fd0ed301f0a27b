use subsurface_engine::grade::{
    CorrectnessMetrics, Grade, GradeOverride, HardFailure, LetterGrade, MaintainabilityMetrics,
    Measurement, ProvisionalAssessment, QualityDimension, QualityGrade, QualityMeasurements,
    SecurityFindings,
};

/// Coverage and maintainability indexes are kept in hundredths.
fn hundredths(value: f64) -> u32 {
    (value * 100.0).round() as u32
}

fn excellent_measurements() -> QualityMeasurements {
    QualityMeasurements {
        correctness: Some(Measurement::new(
            CorrectnessMetrics {
                build_passed: true,
                locked_tests_passed: true,
            },
            "cargo build and locked tests passed",
        )),
        test_protection: Some(Measurement::new(hundredths(98.0), "changed-code coverage 98%")),
        security: Some(Measurement::new(
            SecurityFindings {
                blocker: 0,
                critical: 0,
                high: 0,
                medium: 0,
                low: 0,
            },
            "security scan: no findings",
        )),
        maintainability: Some(Measurement::new(
            MaintainabilityMetrics {
                maintainability_index: hundredths(98.0),
                max_changed_function_complexity: 4,
            },
            "maintainability index 98; changed-function complexity 4",
        )),
        simplicity: Some(Measurement::new(98, "simplicity checks score 98")),
        evidence_fit: Some(Measurement::new(98, "Evidence fit receipt score 98")),
    }
}

fn with_coverage(mut m: QualityMeasurements, value: f64) -> QualityMeasurements {
    m.test_protection = Some(Measurement::new(hundredths(value), "changed-code coverage"));
    m
}

fn with_maintainability(mut m: QualityMeasurements, index: f64, complexity: u32) -> QualityMeasurements {
    m.maintainability = Some(Measurement::new(
        MaintainabilityMetrics {
            maintainability_index: hundredths(index),
            max_changed_function_complexity: complexity,
        },
        "maintainability and complexity report",
    ));
    m
}

fn with_security(mut m: QualityMeasurements, findings: SecurityFindings) -> QualityMeasurements {
    m.security = Some(Measurement::new(findings, "security report"));
    m
}

fn assert_dimension(grade: QualityGrade, dimension: QualityDimension, expected: LetterGrade) {
    assert_eq!(
        grade
            .dimensions
            .iter()
            .find(|item| item.dimension == dimension)
            .unwrap()
            .grade,
        expected
    );
}

#[test]
fn lowest_dimension_and_incomplete_rules() {
    let grade = with_coverage(excellent_measurements(), 82.9).grade(None);

    assert_eq!(grade.overall, Grade::Letter(LetterGrade::B));
    assert_eq!(grade.overall_score, Some(85));
    assert_eq!(grade.dimensions.len(), 6);
    assert!(grade.missing_dimensions.is_empty());

    let incomplete = QualityMeasurements {
        maintainability: None,
        ..excellent_measurements()
    }
    .grade(None);
    assert_eq!(incomplete.overall, Grade::Incomplete);
    assert_eq!(incomplete.overall_score, None);
    assert_eq!(
        incomplete.missing_dimensions,
        vec![QualityDimension::Maintainability]
    );
    assert!(!incomplete.automation_eligible);
}

#[test]
fn metric_bands_and_hard_failure_caps_are_strict() {
    for (score, expected) in [
        (95, LetterGrade::APlus),
        (94, LetterGrade::A),
        (89, LetterGrade::B),
        (79, LetterGrade::C),
        (69, LetterGrade::D),
        (59, LetterGrade::F),
    ] {
        assert_eq!(LetterGrade::from_score(score), expected);
    }

    for (coverage, expected) in [
        (95.0, LetterGrade::APlus),
        (94.9, LetterGrade::A),
        (90.0, LetterGrade::A),
        (89.9, LetterGrade::B),
        (80.0, LetterGrade::B),
        (79.9, LetterGrade::C),
        (70.0, LetterGrade::C),
        (69.9, LetterGrade::D),
        (50.0, LetterGrade::D),
        (49.9, LetterGrade::F),
    ] {
        assert_dimension(
            with_coverage(excellent_measurements(), coverage).grade(None),
            QualityDimension::TestProtection,
            expected,
        );
    }
    for (index, expected) in [
        (85.0, LetterGrade::APlus),
        (84.9, LetterGrade::A),
        (70.0, LetterGrade::A),
        (69.9, LetterGrade::B),
        (50.0, LetterGrade::B),
        (49.9, LetterGrade::C),
        (20.0, LetterGrade::C),
        (19.9, LetterGrade::D),
        (10.0, LetterGrade::D),
        (9.9, LetterGrade::F),
    ] {
        assert_dimension(
            with_maintainability(excellent_measurements(), index, 4).grade(None),
            QualityDimension::Maintainability,
            expected,
        );
    }
    for (complexity, expected) in [
        (5, LetterGrade::APlus),
        (6, LetterGrade::A),
        (10, LetterGrade::A),
        (11, LetterGrade::B),
        (15, LetterGrade::B),
        (16, LetterGrade::C),
        (20, LetterGrade::C),
        (21, LetterGrade::D),
        (25, LetterGrade::D),
        (26, LetterGrade::F),
    ] {
        assert_dimension(
            with_maintainability(excellent_measurements(), 98.0, complexity).grade(None),
            QualityDimension::Maintainability,
            expected,
        );
    }

    let build_failure = QualityMeasurements {
        correctness: Some(Measurement::new(
            CorrectnessMetrics {
                build_passed: false,
                locked_tests_passed: false,
            },
            "cargo build exited 1",
        )),
        test_protection: None,
        ..excellent_measurements()
    }
    .grade(None);
    assert_eq!(build_failure.overall, Grade::Letter(LetterGrade::F));
    assert!(build_failure.hard_failures.contains(&HardFailure::Build));
    assert!(build_failure
        .hard_failures
        .contains(&HardFailure::LockedTests));
    assert!(build_failure
        .missing_dimensions
        .contains(&QualityDimension::TestProtection));

    let critical_security = with_security(
        excellent_measurements(),
        SecurityFindings {
            blocker: 0,
            critical: 1,
            high: 0,
            medium: 0,
            low: 0,
        },
    )
    .grade(None);
    assert_eq!(critical_security.overall, Grade::Letter(LetterGrade::F));
    assert!(critical_security
        .hard_failures
        .contains(&HardFailure::CriticalSecurity));

    for (findings, expected) in [
        (
            SecurityFindings {
                blocker: 0,
                critical: 0,
                high: 1,
                medium: 0,
                low: 0,
            },
            LetterGrade::D,
        ),
        (
            SecurityFindings {
                blocker: 0,
                critical: 0,
                high: 0,
                medium: 1,
                low: 0,
            },
            LetterGrade::C,
        ),
        (
            SecurityFindings {
                blocker: 0,
                critical: 0,
                high: 0,
                medium: 0,
                low: 1,
            },
            LetterGrade::B,
        ),
    ] {
        assert_dimension(
            with_security(excellent_measurements(), findings).grade(None),
            QualityDimension::Security,
            expected,
        );
    }
}

#[test]
fn override_always_disclosed_in_receipt() {
    let overrides = GradeOverride {
        score_caps: vec![(QualityDimension::Maintainability, 70)],
        rationale: "Legacy code must meet the stricter migration gate".into(),
    };
    let grade = excellent_measurements().grade(Some(&overrides));

    assert_eq!(grade.overall, Grade::Letter(LetterGrade::C));
    assert_eq!(grade.override_receipts.len(), 1);
    assert_eq!(
        grade.override_receipts[0].dimension,
        QualityDimension::Maintainability
    );
    assert_eq!(grade.override_receipts[0].measured_score, Some(100));
    assert_eq!(grade.override_receipts[0].effective_score, Some(70));
    assert!(grade.override_receipts[0]
        .rationale
        .contains("stricter migration gate"));
}

#[test]
fn provisional_cannot_override_incomplete_or_hard_fail() {
    let claims = ProvisionalAssessment {
        critique: "The model believes every dimension is excellent".into(),
        citations: vec!["src/lib.rs:1".into()],
        suggested_scores: vec![
            (QualityDimension::Correctness, 100),
            (QualityDimension::TestProtection, 100),
        ],
    };
    let incomplete = QualityMeasurements {
        test_protection: None,
        ..excellent_measurements()
    }
    .grade(None)
    .with_provisional(claims.clone());
    assert_eq!(incomplete.overall, Grade::Incomplete);
    assert!(incomplete
        .missing_dimensions
        .contains(&QualityDimension::TestProtection));
    assert!(!incomplete.automation_eligible);

    let hard_fail = QualityMeasurements {
        correctness: Some(Measurement::new(
            CorrectnessMetrics {
                build_passed: false,
                locked_tests_passed: true,
            },
            "cargo build exited 1",
        )),
        ..excellent_measurements()
    }
    .grade(None)
    .with_provisional(claims);
    assert_eq!(hard_fail.overall, Grade::Letter(LetterGrade::F));
    assert!(hard_fail.hard_failures.contains(&HardFailure::Build));
    assert!(!hard_fail.automation_eligible);
}

#[test]
fn perfect_measurements_grade_a_plus_and_are_eligible() {
    let grade = excellent_measurements().grade(None);
    assert_eq!(grade.overall, Grade::Letter(LetterGrade::APlus));
    assert!(grade.hard_failures.is_empty());
    assert!(grade.automation_eligible);
}

#[test]
fn override_never_raises_a_score() {
    let overrides = GradeOverride {
        score_caps: vec![(QualityDimension::Simplicity, 100)],
        rationale: "a cap above the measured score changes nothing".into(),
    };
    let grade = excellent_measurements().grade(Some(&overrides));
    let simplicity = grade
        .dimensions
        .iter()
        .find(|d| d.dimension == QualityDimension::Simplicity)
        .unwrap();
    assert_eq!(simplicity.score, 98);
}

#[test]
fn override_caps_apply_in_dimension_order_with_the_last_cap_winning() {
    let overrides = GradeOverride {
        score_caps: vec![
            (QualityDimension::Maintainability, 50),
            (QualityDimension::Correctness, 90),
            (QualityDimension::Maintainability, 70),
        ],
        rationale: "migration gate".into(),
    };
    let grade = excellent_measurements().grade(Some(&overrides));

    assert_eq!(grade.override_receipts.len(), 2);
    assert_eq!(grade.override_receipts[0].dimension, QualityDimension::Correctness);
    assert_eq!(grade.override_receipts[0].effective_score, Some(90));
    assert_eq!(grade.override_receipts[1].dimension, QualityDimension::Maintainability);
    assert_eq!(grade.override_receipts[1].measured_score, Some(100));
    assert_eq!(grade.override_receipts[1].effective_score, Some(70));
    assert_eq!(grade.overall, Grade::Letter(LetterGrade::C));
}
