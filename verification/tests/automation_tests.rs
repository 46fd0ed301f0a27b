use subsurface_engine::automation::{
    AutoPublishBlock, AutoPublishCandidate, AutoPublishDecision, AutoPublishError,
    AutoPublishEvent, AutoPublishSettings, AutoPublisher, QualityGrade,
};
use subsurface_engine::github::{GitHubDestination, PublishOutcome, PublishedWorkItem};
use subsurface_engine::opportunity::OpportunityState;

fn destination() -> GitHubDestination {
    GitHubDestination {
        owner: "acme".into(),
        repo: "widgets".into(),
        remote_name: "origin".into(),
        remote_url: "https://github.com/acme/widgets.git".into(),
    }
}

fn candidate(id: &str, grade: QualityGrade, model_only: bool) -> AutoPublishCandidate {
    AutoPublishCandidate {
        opportunity_id: id.into(),
        category: "missing-rationale".into(),
        status: OpportunityState::Verified,
        destination: destination(),
        grade,
        model_only,
    }
}

fn ready_settings() -> AutoPublishSettings {
    let mut settings = AutoPublishSettings::default();
    settings.enable_category("missing-rationale");
    settings.record_proven_example("missing-rationale");
    settings.set_min_grade(QualityGrade::C);
    settings
}

fn published(number: u64) -> PublishedWorkItem {
    PublishedWorkItem {
        destination: destination(),
        number,
        html_url: format!("http://127.0.0.1/issues/{number}"),
        fingerprint: "f".repeat(64),
        outcome: PublishOutcome::Created,
    }
}

#[test]
fn minimum_grade_includes_better_letters_and_never_incomplete() {
    for grade in [QualityGrade::C, QualityGrade::B, QualityGrade::A, QualityGrade::APlus] {
        assert!(grade.meets_minimum(QualityGrade::C));
    }
    assert!(!QualityGrade::D.meets_minimum(QualityGrade::C));
    assert!(!QualityGrade::Incomplete.meets_minimum(QualityGrade::F));
    assert!(!QualityGrade::APlus.meets_minimum(QualityGrade::Incomplete));
    assert_eq!(QualityGrade::APlus.label(), "A+");
}

#[test]
fn auto_publish_is_off_by_default() {
    let mut publisher = AutoPublisher::new(AutoPublishSettings::default());
    let decision = publisher.consider(&candidate("o1", QualityGrade::APlus, false));
    assert_eq!(decision, AutoPublishDecision::Blocked(AutoPublishBlock::Disabled));
    assert_eq!(publisher.log().len(), 1);
    assert!(publisher.pending().is_none());
    assert_eq!(
        AutoPublishBlock::Disabled.message(),
        "auto-publish is off"
    );
}

#[test]
fn guards_block_in_order() {
    let mut publisher = AutoPublisher::new(ready_settings());
    publisher.enable();

    let mut not_verified = candidate("o1", QualityGrade::A, false);
    not_verified.status = OpportunityState::Prepared;
    assert_eq!(
        publisher.consider(&not_verified),
        AutoPublishDecision::Blocked(AutoPublishBlock::NotVerified {
            status: OpportunityState::Prepared
        })
    );

    let mut other_category = candidate("o1", QualityGrade::A, false);
    other_category.category = "test-gap".into();
    let blocked = publisher.consider(&other_category);
    assert_eq!(
        blocked,
        AutoPublishDecision::Blocked(AutoPublishBlock::CategoryNotEnabled {
            category: "test-gap".into()
        })
    );
    if let AutoPublishDecision::Blocked(block) = blocked {
        assert_eq!(block.message(), "category test-gap is not enabled");
    }

    assert_eq!(
        publisher.consider(&candidate("o1", QualityGrade::Incomplete, false)),
        AutoPublishDecision::Blocked(AutoPublishBlock::Incomplete)
    );
    assert_eq!(
        publisher.consider(&candidate("o1", QualityGrade::A, true)),
        AutoPublishDecision::Blocked(AutoPublishBlock::ModelOnly)
    );
    let below = publisher.consider(&candidate("o1", QualityGrade::D, false));
    assert_eq!(
        below,
        AutoPublishDecision::Blocked(AutoPublishBlock::GradeBelowMinimum {
            grade: QualityGrade::D,
            minimum: QualityGrade::C
        })
    );
    if let AutoPublishDecision::Blocked(block) = below {
        assert_eq!(block.message(), "grade D is below minimum C");
    }
    assert_eq!(publisher.log().len(), 5);
}

#[test]
fn countdown_publish_and_daily_limit() {
    let mut publisher = AutoPublisher::new(ready_settings());
    publisher.enable();
    let decision = publisher.consider(&candidate("o1", QualityGrade::B, false));
    assert!(matches!(decision, AutoPublishDecision::Countdown(_)));
    assert_eq!(publisher.pending().unwrap().opportunity_id, "o1");

    assert!(matches!(
        publisher.begin_publish("o2", OpportunityState::Verified, "missing-rationale"),
        Err(AutoPublishError::CountdownMismatch { .. })
    ));
    assert!(publisher.pending().is_some());

    let countdown = publisher
        .begin_publish("o1", OpportunityState::Verified, "missing-rationale")
        .unwrap();
    assert_eq!(countdown.grade, QualityGrade::B);
    assert!(publisher.pending().is_none());
    publisher.record_published("o1", "missing-rationale", &published(81));
    assert_eq!(publisher.published_today(), 1);
    assert!(matches!(
        publisher.log().last(),
        Some(AutoPublishEvent::Published { number: 81, .. })
    ));

    let limited = publisher.consider(&candidate("o2", QualityGrade::A, false));
    assert_eq!(
        limited,
        AutoPublishDecision::Blocked(AutoPublishBlock::DailyLimitReached { limit: 1 })
    );
    if let AutoPublishDecision::Blocked(block) = limited {
        assert_eq!(block.message(), "daily publication limit 1 reached");
    }

    publisher.start_new_day();
    assert_eq!(publisher.published_today(), 0);
    assert!(matches!(
        publisher.consider(&candidate("o2", QualityGrade::A, false)),
        AutoPublishDecision::Countdown(_)
    ));
}

#[test]
fn disable_cancels_pending_and_blocks_due_write() {
    let mut publisher = AutoPublisher::new(ready_settings());
    publisher.enable();
    publisher.consider(&candidate("o1", QualityGrade::A, false));
    assert!(publisher.pending().is_some());
    publisher.disable();
    assert!(publisher.pending().is_none());
    assert_eq!(publisher.log().last(), Some(&AutoPublishEvent::Disabled));
    assert!(matches!(
        publisher.begin_publish("o1", OpportunityState::Verified, "missing-rationale"),
        Err(AutoPublishError::NoPendingCountdown)
    ));

    publisher.enable();
    publisher.consider(&candidate("o3", QualityGrade::A, false));
    let cancelled = publisher.cancel().unwrap();
    assert_eq!(cancelled.opportunity_id, "o3");
    assert!(matches!(
        publisher.log().last(),
        Some(AutoPublishEvent::Cancelled { .. })
    ));
    assert!(publisher.cancel().is_none());
}

#[test]
fn due_write_rechecks_guards() {
    let mut publisher = AutoPublisher::new(ready_settings());
    publisher.enable();
    publisher.consider(&candidate("o1", QualityGrade::A, false));
    let result = publisher.begin_publish("o1", OpportunityState::Published, "missing-rationale");
    assert!(matches!(
        result,
        Err(AutoPublishError::Blocked(AutoPublishBlock::NotVerified {
            status: OpportunityState::Published
        }))
    ));
    if let Err(error) = result {
        assert_eq!(error.message(), "Opportunity is Published, not Verified");
    }
    assert!(publisher.pending().is_none());
}
