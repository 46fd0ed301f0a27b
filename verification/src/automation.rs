use vstd::prelude::*;

use crate::github::{GitHubDestination, GitHubError, PublishedWorkItem};
use crate::opportunity::OpportunityState;
use crate::text::{decimal, spec_decimal, string_views};
use crate::tree::{holds, insert_sorted, strictly_sorted};

verus! {

/// Strict letter grade used as the auto-publish minimum. `Incomplete` is
/// not a letter and never meets a threshold.
#[derive(Debug, Clone, Copy, PartialEq, Eq, Structural, Hash)]
pub enum QualityGrade {
    APlus,
    A,
    B,
    C,
    D,
    F,
    Incomplete,
}

/// Rank from worst (0) to best (5); `Incomplete` has none.
pub open spec fn grade_rank(g: QualityGrade) -> Option<u8> {
    match g {
        QualityGrade::F => Some(0),
        QualityGrade::D => Some(1),
        QualityGrade::C => Some(2),
        QualityGrade::B => Some(3),
        QualityGrade::A => Some(4),
        QualityGrade::APlus => Some(5),
        QualityGrade::Incomplete => None,
    }
}

/// A grade meets a minimum when both are letters and it ranks at least as
/// high.
pub open spec fn spec_meets(g: QualityGrade, minimum: QualityGrade) -> bool {
    match (grade_rank(g), grade_rank(minimum)) {
        (Some(a), Some(b)) => a >= b,
        _ => false,
    }
}

pub open spec fn grade_label(g: QualityGrade) -> Seq<char> {
    match g {
        QualityGrade::APlus => "A+"@,
        QualityGrade::A => "A"@,
        QualityGrade::B => "B"@,
        QualityGrade::C => "C"@,
        QualityGrade::D => "D"@,
        QualityGrade::F => "F"@,
        QualityGrade::Incomplete => "Incomplete"@,
    }
}

impl QualityGrade {
    fn rank(self) -> (r: Option<u8>)
        ensures
            r == grade_rank(self),
    {
        match self {
            QualityGrade::F => Some(0),
            QualityGrade::D => Some(1),
            QualityGrade::C => Some(2),
            QualityGrade::B => Some(3),
            QualityGrade::A => Some(4),
            QualityGrade::APlus => Some(5),
            QualityGrade::Incomplete => None,
        }
    }

    /// Selecting C includes C, B, A and A+; `Incomplete` never qualifies.
    pub fn meets_minimum(self, minimum: Self) -> (r: bool)
        ensures
            r == spec_meets(self, minimum),
    {
        match (self.rank(), minimum.rank()) {
            (Some(grade), Some(floor)) => grade >= floor,
            _ => false,
        }
    }

    /// The grade as written: `A+`, `A`, ... `F`, `Incomplete`.
    pub fn label(&self) -> (r: &'static str)
        ensures
            r@ == grade_label(*self),
    {
        match self {
            QualityGrade::APlus => "A+",
            QualityGrade::A => "A",
            QualityGrade::B => "B",
            QualityGrade::C => "C",
            QualityGrade::D => "D",
            QualityGrade::F => "F",
            QualityGrade::Incomplete => "Incomplete",
        }
    }
}

/// `Incomplete` never meets any minimum.
pub proof fn law_incomplete_never_meets(minimum: QualityGrade)
    ensures
        !spec_meets(QualityGrade::Incomplete, minimum),
        !spec_meets(minimum, QualityGrade::Incomplete),
{
}

/// A minimum admits every grade at or above it: a better grade than one
/// that meets it meets it too, and so does the minimum itself when it is a
/// letter.
pub proof fn law_minimum_admits_better(g: QualityGrade, better: QualityGrade, minimum: QualityGrade)
    requires
        spec_meets(g, minimum),
        grade_rank(better) matches Some(b) && grade_rank(g) matches Some(a) && b >= a,
    ensures
        spec_meets(better, minimum),
{
}

pub open spec fn state_label(s: OpportunityState) -> Seq<char> {
    match s {
        OpportunityState::Detected => "Detected"@,
        OpportunityState::Prepared => "Prepared"@,
        OpportunityState::Verified => "Verified"@,
        OpportunityState::Failed => "Failed"@,
        OpportunityState::Published => "Published"@,
        OpportunityState::Dismissed => "Dismissed"@,
    }
}

fn state_name(s: OpportunityState) -> (r: &'static str)
    ensures
        r@ == state_label(s),
{
    match s {
        OpportunityState::Detected => "Detected",
        OpportunityState::Prepared => "Prepared",
        OpportunityState::Verified => "Verified",
        OpportunityState::Failed => "Failed",
        OpportunityState::Published => "Published",
        OpportunityState::Dismissed => "Dismissed",
    }
}

/// Why automatic publication did not proceed.
#[derive(Debug, PartialEq, Eq)]
pub enum AutoPublishBlock {
    Disabled,
    CategoryNotEnabled { category: String },
    NoProvenExample { category: String },
    Incomplete,
    ModelOnly,
    GradeBelowMinimum { grade: QualityGrade, minimum: QualityGrade },
    DailyLimitReached { limit: u32 },
    NotVerified { status: OpportunityState },
}

impl Clone for AutoPublishBlock {
    fn clone(&self) -> (r: Self)
        ensures
            r == *self,
    {
        match self {
            AutoPublishBlock::Disabled => AutoPublishBlock::Disabled,
            AutoPublishBlock::CategoryNotEnabled { category } => AutoPublishBlock::CategoryNotEnabled {
                category: category.clone(),
            },
            AutoPublishBlock::NoProvenExample { category } => AutoPublishBlock::NoProvenExample {
                category: category.clone(),
            },
            AutoPublishBlock::Incomplete => AutoPublishBlock::Incomplete,
            AutoPublishBlock::ModelOnly => AutoPublishBlock::ModelOnly,
            AutoPublishBlock::GradeBelowMinimum { grade, minimum } => AutoPublishBlock::GradeBelowMinimum {
                grade: *grade,
                minimum: *minimum,
            },
            AutoPublishBlock::DailyLimitReached { limit } => AutoPublishBlock::DailyLimitReached {
                limit: *limit,
            },
            AutoPublishBlock::NotVerified { status } => AutoPublishBlock::NotVerified {
                status: *status,
            },
        }
    }
}

impl AutoPublishBlock {
    pub open spec fn spec_message(&self) -> Seq<char> {
        match *self {
            AutoPublishBlock::Disabled => "auto-publish is off"@,
            AutoPublishBlock::CategoryNotEnabled { category } => "category "@ + category@
                + " is not enabled"@,
            AutoPublishBlock::NoProvenExample { category } => "category "@ + category@
                + " has no proven manual example"@,
            AutoPublishBlock::Incomplete => "Incomplete is never eligible"@,
            AutoPublishBlock::ModelOnly => "model-only assessments are never eligible"@,
            AutoPublishBlock::GradeBelowMinimum { grade, minimum } => "grade "@ + grade_label(grade)
                + " is below minimum "@ + grade_label(minimum),
            AutoPublishBlock::DailyLimitReached { limit } => "daily publication limit "@
                + spec_decimal(limit as nat) + " reached"@,
            AutoPublishBlock::NotVerified { status } => "Opportunity is "@ + state_label(status)
                + ", not Verified"@,
        }
    }

    /// The reason as a sentence.
    pub fn message(&self) -> (r: String)
        ensures
            r@ == self.spec_message(),
    {
        match self {
            AutoPublishBlock::Disabled => String::from_str("auto-publish is off"),
            AutoPublishBlock::CategoryNotEnabled { category } => String::from_str(
                "category ",
            ).concat(category.as_str()).concat(" is not enabled"),
            AutoPublishBlock::NoProvenExample { category } => String::from_str("category ").concat(
                category.as_str(),
            ).concat(" has no proven manual example"),
            AutoPublishBlock::Incomplete => String::from_str("Incomplete is never eligible"),
            AutoPublishBlock::ModelOnly => String::from_str(
                "model-only assessments are never eligible",
            ),
            AutoPublishBlock::GradeBelowMinimum { grade, minimum } => String::from_str(
                "grade ",
            ).concat(grade.label()).concat(" is below minimum ").concat(minimum.label()),
            AutoPublishBlock::DailyLimitReached { limit } => String::from_str(
                "daily publication limit ",
            ).concat(decimal(*limit as u64).as_str()).concat(" reached"),
            AutoPublishBlock::NotVerified { status } => String::from_str(
                "Opportunity is ",
            ).concat(state_name(*status)).concat(", not Verified"),
        }
    }
}

#[derive(Debug)]
pub enum AutoPublishError {
    NoPendingCountdown,
    CountdownMismatch { pending: String, requested: String },
    Blocked(AutoPublishBlock),
    GitHub(GitHubError),
}

impl AutoPublishError {
    pub open spec fn spec_message(&self) -> Seq<char> {
        match *self {
            AutoPublishError::NoPendingCountdown => "no auto-publication countdown is pending"@,
            AutoPublishError::CountdownMismatch { pending, requested } => "countdown is for "@
                + pending@ + ", not "@ + requested@,
            AutoPublishError::Blocked(b) => b.spec_message(),
            AutoPublishError::GitHub(e) => e.spec_message(),
        }
    }

    /// The error as a sentence.
    pub fn message(&self) -> (r: String)
        ensures
            r@ == self.spec_message(),
    {
        match self {
            AutoPublishError::NoPendingCountdown => String::from_str(
                "no auto-publication countdown is pending",
            ),
            AutoPublishError::CountdownMismatch { pending, requested } => String::from_str(
                "countdown is for ",
            ).concat(pending.as_str()).concat(", not ").concat(requested.as_str()),
            AutoPublishError::Blocked(b) => b.message(),
            AutoPublishError::GitHub(e) => e.message(),
        }
    }
}

// ---------------------------------------------------------------------------
// Settings
// ---------------------------------------------------------------------------

/// Per-Project auto-publish settings; off until explicitly enabled.
#[derive(Debug, PartialEq, Eq)]
pub struct AutoPublishSettings {
    enabled: bool,
    enabled_categories: Vec<String>,
    proven_categories: Vec<String>,
    min_grade: QualityGrade,
    daily_limit: u32,
}

#[verifier::ext_equal]
pub struct SettingsView {
    pub enabled: bool,
    pub enabled_categories: Set<Seq<char>>,
    pub proven_categories: Set<Seq<char>>,
    pub min_grade: QualityGrade,
    pub daily_limit: u32,
}

impl View for AutoPublishSettings {
    type V = SettingsView;

    closed spec fn view(&self) -> SettingsView {
        SettingsView {
            enabled: self.enabled,
            enabled_categories: string_views(self.enabled_categories@).to_set(),
            proven_categories: string_views(self.proven_categories@).to_set(),
            min_grade: self.min_grade,
            daily_limit: self.daily_limit,
        }
    }
}

impl Default for AutoPublishSettings {
    /// Off, no categories, A+ minimum, one publication a day.
    fn default() -> (r: Self)
        ensures
            r.wf(),
            !r@.enabled,
            r@.enabled_categories.is_empty(),
            r@.proven_categories.is_empty(),
            r@.min_grade == QualityGrade::APlus,
            r@.daily_limit == 1,
    {
        let r = AutoPublishSettings {
            enabled: false,
            enabled_categories: Vec::new(),
            proven_categories: Vec::new(),
            min_grade: QualityGrade::APlus,
            daily_limit: 1,
        };
        assert(r@.enabled_categories =~= Set::empty());
        assert(r@.proven_categories =~= Set::empty());
        r
    }
}

impl Clone for AutoPublishSettings {
    fn clone(&self) -> (r: Self)
        ensures
            r@ == self@,
            self.wf() ==> r.wf(),
    {
        let r = AutoPublishSettings {
            enabled: self.enabled,
            enabled_categories: crate::command::clone_strings(&self.enabled_categories),
            proven_categories: crate::command::clone_strings(&self.proven_categories),
            min_grade: self.min_grade,
            daily_limit: self.daily_limit,
        };
        r
    }
}

impl AutoPublishSettings {
    /// The category lists are kept sorted, each name once.
    pub closed spec fn wf(&self) -> bool {
        &&& strictly_sorted(false, string_views(self.enabled_categories@))
        &&& strictly_sorted(false, string_views(self.proven_categories@))
    }

    pub fn is_enabled(&self) -> (r: bool)
        ensures
            r == self@.enabled,
    {
        self.enabled
    }

    pub fn min_grade(&self) -> (r: QualityGrade)
        ensures
            r == self@.min_grade,
    {
        self.min_grade
    }

    pub fn daily_limit(&self) -> (r: u32)
        ensures
            r == self@.daily_limit,
    {
        self.daily_limit
    }

    pub fn category_enabled(&self, category: &str) -> (r: bool)
        ensures
            r == self@.enabled_categories.contains(category@),
    {
        holds(&self.enabled_categories, category)
    }

    pub fn has_proven_example(&self, category: &str) -> (r: bool)
        ensures
            r == self@.proven_categories.contains(category@),
    {
        holds(&self.proven_categories, category)
    }

    pub fn set_min_grade(&mut self, grade: QualityGrade)
        requires
            old(self).wf(),
        ensures
            final(self).wf(),
            final(self)@ == (SettingsView { min_grade: grade, ..old(self)@ }),
    {
        self.min_grade = grade;
        assert(self@ =~= (SettingsView { min_grade: grade, ..old(self)@ }));
    }

    pub fn set_daily_limit(&mut self, limit: u32)
        requires
            old(self).wf(),
        ensures
            final(self).wf(),
            final(self)@ == (SettingsView { daily_limit: limit, ..old(self)@ }),
    {
        self.daily_limit = limit;
        assert(self@ =~= (SettingsView { daily_limit: limit, ..old(self)@ }));
    }

    pub fn enable_category(&mut self, category: &str)
        requires
            old(self).wf(),
        ensures
            final(self).wf(),
            final(self)@ == (SettingsView {
                enabled_categories: old(self)@.enabled_categories.insert(category@),
                ..old(self)@
            }),
    {
        insert_sorted(false, &mut self.enabled_categories, category.to_owned());
        assert(self@.enabled_categories =~= old(self)@.enabled_categories.insert(category@));
        assert(self@ =~= (SettingsView {
            enabled_categories: old(self)@.enabled_categories.insert(category@),
            ..old(self)@
        }));
    }

    /// A manually approved Work Item proves the category's template.
    pub fn record_proven_example(&mut self, category: &str)
        requires
            old(self).wf(),
        ensures
            final(self).wf(),
            final(self)@ == (SettingsView {
                proven_categories: old(self)@.proven_categories.insert(category@),
                ..old(self)@
            }),
    {
        insert_sorted(false, &mut self.proven_categories, category.to_owned());
        assert(self@.proven_categories =~= old(self)@.proven_categories.insert(category@));
        assert(self@ =~= (SettingsView {
            proven_categories: old(self)@.proven_categories.insert(category@),
            ..old(self)@
        }));
    }

    fn set_enabled(&mut self, enabled: bool)
        requires
            old(self).wf(),
        ensures
            final(self).wf(),
            final(self)@ == (SettingsView { enabled, ..old(self)@ }),
    {
        self.enabled = enabled;
        assert(self@ =~= (SettingsView { enabled, ..old(self)@ }));
    }
}

// ---------------------------------------------------------------------------
// Guards
// ---------------------------------------------------------------------------

/// Every guard passes: auto-publish is on, the Opportunity is Verified, its
/// category is enabled and proven, the grade is a measured letter at or
/// above the minimum, and today's limit is not reached.
pub open spec fn eligible(
    s: SettingsView,
    published_today: u32,
    status: OpportunityState,
    category: Seq<char>,
    grade: QualityGrade,
    model_only: bool,
) -> bool {
    &&& s.enabled
    &&& status == OpportunityState::Verified
    &&& s.enabled_categories.contains(category)
    &&& s.proven_categories.contains(category)
    &&& grade != QualityGrade::Incomplete
    &&& !model_only
    &&& spec_meets(grade, s.min_grade)
    &&& published_today < s.daily_limit
}

/// The block reported is the first guard that fails, in this order.
pub open spec fn first_block(
    b: AutoPublishBlock,
    s: SettingsView,
    published_today: u32,
    status: OpportunityState,
    category: Seq<char>,
    grade: QualityGrade,
    model_only: bool,
) -> bool {
    if !s.enabled {
        b == AutoPublishBlock::Disabled
    } else if status != OpportunityState::Verified {
        b == AutoPublishBlock::NotVerified { status }
    } else if !s.enabled_categories.contains(category) {
        b matches AutoPublishBlock::CategoryNotEnabled { category: c } && c@ == category
    } else if !s.proven_categories.contains(category) {
        b matches AutoPublishBlock::NoProvenExample { category: c } && c@ == category
    } else if grade == QualityGrade::Incomplete {
        b == AutoPublishBlock::Incomplete
    } else if model_only {
        b == AutoPublishBlock::ModelOnly
    } else if !spec_meets(grade, s.min_grade) {
        b == AutoPublishBlock::GradeBelowMinimum { grade, minimum: s.min_grade }
    } else if published_today >= s.daily_limit {
        b == AutoPublishBlock::DailyLimitReached { limit: s.daily_limit }
    } else {
        false
    }
}

/// Whatever else holds, auto-publish that is off is never eligible, and
/// neither is a model-only assessment, an Incomplete grade, or a day whose
/// limit is reached.
pub proof fn law_guards_always_apply(
    s: SettingsView,
    published_today: u32,
    status: OpportunityState,
    category: Seq<char>,
    grade: QualityGrade,
    model_only: bool,
)
    requires
        !s.enabled || model_only || grade == QualityGrade::Incomplete || published_today
            >= s.daily_limit || status != OpportunityState::Verified,
    ensures
        !eligible(s, published_today, status, category, grade, model_only),
{
}

// ---------------------------------------------------------------------------
// The auto-publisher
// ---------------------------------------------------------------------------

/// A measured candidate presented to auto-publish.
#[derive(Debug)]
pub struct AutoPublishCandidate {
    pub opportunity_id: String,
    pub category: String,
    pub status: OpportunityState,
    pub destination: GitHubDestination,
    pub grade: QualityGrade,
    pub model_only: bool,
}

/// The visible countdown shown before an automatic GitHub write.
#[derive(Debug, PartialEq, Eq)]
pub struct AutoPublishCountdown {
    pub opportunity_id: String,
    pub category: String,
    pub destination: GitHubDestination,
    pub grade: QualityGrade,
    pub model_only: bool,
}

impl Clone for AutoPublishCountdown {
    fn clone(&self) -> (r: Self)
        ensures
            r == *self,
    {
        AutoPublishCountdown {
            opportunity_id: self.opportunity_id.clone(),
            category: self.category.clone(),
            destination: self.destination.clone(),
            grade: self.grade,
            model_only: self.model_only,
        }
    }
}

/// One auditable auto-publish decision or external write.
#[derive(Debug, PartialEq, Eq)]
pub enum AutoPublishEvent {
    Blocked { opportunity_id: String, category: String, reason: AutoPublishBlock },
    CountdownStarted {
        opportunity_id: String,
        category: String,
        destination: GitHubDestination,
        grade: QualityGrade,
    },
    Cancelled { opportunity_id: String, category: String },
    Published {
        opportunity_id: String,
        category: String,
        number: u64,
        html_url: String,
        fingerprint: String,
    },
    Disabled,
}

#[derive(Debug, PartialEq, Eq)]
pub enum AutoPublishDecision {
    Blocked(AutoPublishBlock),
    Countdown(AutoPublishCountdown),
}

#[verifier::external_type_specification]
#[verifier::external_body]
pub struct ExNaiveDate(chrono::NaiveDate);

/// Today's date in UTC, by `chrono::Utc::now().date_naive()`; it depends
/// on the clock, so nothing is stated of it.
#[verifier::external_body]
fn today_utc() -> (r: chrono::NaiveDate) {
    chrono::Utc::now().date_naive()
}

/// The day after `day`, by `NaiveDate::succ_opt`, which gives none at the end
/// of the calendar; nothing here reads the date, so nothing is stated.
#[verifier::external_body]
fn day_after(day: &chrono::NaiveDate) -> (r: Option<chrono::NaiveDate>) {
    day.succ_opt()
}

/// A guarded, opt-in auto-publisher. Off by default; each write is logged.
pub struct AutoPublisher {
    settings: AutoPublishSettings,
    log: Vec<AutoPublishEvent>,
    pending: Option<AutoPublishCountdown>,
    day: chrono::NaiveDate,
    published_today: u32,
}

#[verifier::ext_equal]
pub struct PublisherView {
    pub settings: SettingsView,
    pub log: Seq<AutoPublishEvent>,
    pub pending: Option<AutoPublishCountdown>,
    pub published_today: u32,
}

impl View for AutoPublisher {
    type V = PublisherView;

    closed spec fn view(&self) -> PublisherView {
        PublisherView {
            settings: self.settings@,
            log: self.log@,
            pending: self.pending,
            published_today: self.published_today,
        }
    }
}

/// The countdown a candidate starts.
pub open spec fn countdown_of(c: AutoPublishCandidate) -> AutoPublishCountdown {
    AutoPublishCountdown {
        opportunity_id: c.opportunity_id,
        category: c.category,
        destination: c.destination,
        grade: c.grade,
        model_only: c.model_only,
    }
}

impl AutoPublisher {
    pub closed spec fn wf(&self) -> bool {
        self.settings.wf()
    }

    /// A publisher with these settings, nothing pending and nothing
    /// published today.
    pub fn new(settings: AutoPublishSettings) -> (r: Self)
        requires
            settings.wf(),
        ensures
            r.wf(),
            r@.settings == settings@,
            r@.log.len() == 0,
            r@.pending is None,
            r@.published_today == 0,
    {
        AutoPublisher {
            settings,
            log: Vec::new(),
            pending: None,
            day: today_utc(),
            published_today: 0,
        }
    }

    pub fn settings(&self) -> (r: &AutoPublishSettings)
        ensures
            r@ == self@.settings,
            self.wf() ==> r.wf(),
    {
        &self.settings
    }

    pub fn log(&self) -> (r: &[AutoPublishEvent])
        ensures
            r@ == self@.log,
    {
        self.log.as_slice()
    }

    pub fn pending(&self) -> (r: Option<&AutoPublishCountdown>)
        ensures
            match r {
                Some(c) => self@.pending == Some(*c),
                None => self@.pending is None,
            },
    {
        match &self.pending {
            Some(c) => Some(c),
            None => None,
        }
    }

    pub fn published_today(&self) -> (r: u32)
        ensures
            r == self@.published_today,
    {
        self.published_today
    }

    /// Replaces the settings.
    pub fn set_settings(&mut self, settings: AutoPublishSettings)
        requires
            settings.wf(),
        ensures
            final(self).wf(),
            final(self)@ == (PublisherView { settings: settings@, ..old(self)@ }),
    {
        self.settings = settings;
    }

    /// Turns auto-publish on; every other guard still applies.
    pub fn enable(&mut self)
        requires
            old(self).wf(),
        ensures
            final(self).wf(),
            final(self)@ == (PublisherView {
                settings: SettingsView { enabled: true, ..old(self)@.settings },
                ..old(self)@
            }),
    {
        self.settings.set_enabled(true);
    }

    /// Stops future writes at once: the pending countdown is dropped and
    /// the log keeps a record.
    pub fn disable(&mut self)
        requires
            old(self).wf(),
        ensures
            final(self).wf(),
            final(self)@ == (PublisherView {
                settings: SettingsView { enabled: false, ..old(self)@.settings },
                log: old(self)@.log.push(AutoPublishEvent::Disabled),
                pending: None,
                published_today: old(self)@.published_today,
            }),
    {
        self.settings.set_enabled(false);
        self.pending = None;
        self.log.push(AutoPublishEvent::Disabled);
    }

    /// Moves to the next publication day.
    pub fn start_new_day(&mut self)
        requires
            old(self).wf(),
        ensures
            final(self).wf(),
            final(self)@ == (PublisherView { published_today: 0, ..old(self)@ }),
    {
        match day_after(&self.day) {
            Some(next) => {
                self.day = next;
            },
            None => {},
        }
        self.published_today = 0;
    }

    fn block_reason(
        &self,
        status: OpportunityState,
        category: &str,
        grade: QualityGrade,
        model_only: bool,
    ) -> (r: Option<AutoPublishBlock>)
        ensures
            match r {
                None => eligible(
                    self@.settings,
                    self@.published_today,
                    status,
                    category@,
                    grade,
                    model_only,
                ),
                Some(b) => !eligible(
                    self@.settings,
                    self@.published_today,
                    status,
                    category@,
                    grade,
                    model_only,
                ) && first_block(
                    b,
                    self@.settings,
                    self@.published_today,
                    status,
                    category@,
                    grade,
                    model_only,
                ),
            },
    {
        if !self.settings.is_enabled() {
            return Some(AutoPublishBlock::Disabled);
        }
        if status != OpportunityState::Verified {
            return Some(AutoPublishBlock::NotVerified { status });
        }
        if !self.settings.category_enabled(category) {
            return Some(AutoPublishBlock::CategoryNotEnabled { category: category.to_owned() });
        }
        if !self.settings.has_proven_example(category) {
            return Some(AutoPublishBlock::NoProvenExample { category: category.to_owned() });
        }
        if grade == QualityGrade::Incomplete {
            return Some(AutoPublishBlock::Incomplete);
        }
        if model_only {
            return Some(AutoPublishBlock::ModelOnly);
        }
        let minimum = self.settings.min_grade();
        if !grade.meets_minimum(minimum) {
            return Some(AutoPublishBlock::GradeBelowMinimum { grade, minimum });
        }
        if self.published_today >= self.settings.daily_limit() {
            return Some(AutoPublishBlock::DailyLimitReached { limit: self.settings.daily_limit() });
        }
        None
    }

    /// Considers a candidate: when a guard fails the block is logged and
    /// returned; otherwise a countdown starts, replacing any pending one.
    pub fn consider(&mut self, candidate: &AutoPublishCandidate) -> (r: AutoPublishDecision)
        requires
            old(self).wf(),
        ensures
            final(self).wf(),
            final(self)@.settings == old(self)@.settings,
            final(self)@.published_today == old(self)@.published_today,
            ({
                let ok = eligible(
                    old(self)@.settings,
                    old(self)@.published_today,
                    candidate.status,
                    candidate.category@,
                    candidate.grade,
                    candidate.model_only,
                );
                &&& !ok ==> (r matches AutoPublishDecision::Blocked(b) && first_block(
                    b,
                    old(self)@.settings,
                    old(self)@.published_today,
                    candidate.status,
                    candidate.category@,
                    candidate.grade,
                    candidate.model_only,
                ) && final(self)@.pending == old(self)@.pending && final(self)@.log == old(
                    self,
                )@.log.push(
                    AutoPublishEvent::Blocked {
                        opportunity_id: candidate.opportunity_id,
                        category: candidate.category,
                        reason: b,
                    },
                ))
                &&& ok ==> r == AutoPublishDecision::Countdown(countdown_of(*candidate))
                    && final(self)@.pending == Some(countdown_of(*candidate)) && final(self)@.log
                    == old(self)@.log.push(
                    AutoPublishEvent::CountdownStarted {
                        opportunity_id: candidate.opportunity_id,
                        category: candidate.category,
                        destination: candidate.destination,
                        grade: candidate.grade,
                    },
                )
            }),
    {
        match self.block_reason(
            candidate.status,
            candidate.category.as_str(),
            candidate.grade,
            candidate.model_only,
        ) {
            Some(block) => {
                self.log.push(
                    AutoPublishEvent::Blocked {
                        opportunity_id: candidate.opportunity_id.clone(),
                        category: candidate.category.clone(),
                        reason: block.clone(),
                    },
                );
                AutoPublishDecision::Blocked(block)
            },
            None => {
                let countdown = AutoPublishCountdown {
                    opportunity_id: candidate.opportunity_id.clone(),
                    category: candidate.category.clone(),
                    destination: candidate.destination.clone(),
                    grade: candidate.grade,
                    model_only: candidate.model_only,
                };
                self.pending = Some(countdown.clone());
                self.log.push(
                    AutoPublishEvent::CountdownStarted {
                        opportunity_id: candidate.opportunity_id.clone(),
                        category: candidate.category.clone(),
                        destination: candidate.destination.clone(),
                        grade: candidate.grade,
                    },
                );
                AutoPublishDecision::Countdown(countdown)
            },
        }
    }

    /// Cancels the pending countdown, logging it.
    pub fn cancel(&mut self) -> (r: Option<AutoPublishCountdown>)
        requires
            old(self).wf(),
        ensures
            final(self).wf(),
            r == old(self)@.pending,
            final(self)@.settings == old(self)@.settings,
            final(self)@.published_today == old(self)@.published_today,
            final(self)@.pending is None,
            match old(self)@.pending {
                Some(p) => final(self)@.log == old(self)@.log.push(
                    AutoPublishEvent::Cancelled {
                        opportunity_id: p.opportunity_id,
                        category: p.category,
                    },
                ),
                None => final(self)@.log == old(self)@.log,
            },
    {
        let pending = self.pending.take();
        match pending {
            Some(p) => {
                self.log.push(
                    AutoPublishEvent::Cancelled {
                        opportunity_id: p.opportunity_id.clone(),
                        category: p.category.clone(),
                    },
                );
                Some(p)
            },
            None => None,
        }
    }

    /// The first half of completing a due countdown: the pending countdown
    /// is taken and every guard is checked again, so that disabling, a
    /// reached limit or a changed grade after the countdown began still
    /// stops the write. On success the caller publishes the countdown's
    /// Work Item and then calls `record_published`.
    pub fn begin_publish(
        &mut self,
        opportunity_id: &str,
        status: OpportunityState,
        category: &str,
    ) -> (r: Result<AutoPublishCountdown, AutoPublishError>)
        requires
            old(self).wf(),
        ensures
            final(self).wf(),
            final(self)@.settings == old(self)@.settings,
            final(self)@.published_today == old(self)@.published_today,
            match old(self)@.pending {
                None => (r matches Err(AutoPublishError::NoPendingCountdown)) && final(self)@
                    == old(self)@,
                Some(p) => if p.opportunity_id@ != opportunity_id@ {
                    (r matches Err(AutoPublishError::CountdownMismatch { pending, requested })
                        && pending == p.opportunity_id && requested@ == opportunity_id@)
                        && final(self)@ == old(self)@
                } else if !eligible(
                    old(self)@.settings,
                    old(self)@.published_today,
                    status,
                    category@,
                    p.grade,
                    p.model_only,
                ) {
                    (r matches Err(AutoPublishError::Blocked(b)) && first_block(
                        b,
                        old(self)@.settings,
                        old(self)@.published_today,
                        status,
                        category@,
                        p.grade,
                        p.model_only,
                    ) && final(self)@.pending is None && final(self)@.log.len() == old(
                        self,
                    )@.log.len() + 1 && final(self)@.log.drop_last() == old(self)@.log
                        && (final(self)@.log.last() matches AutoPublishEvent::Blocked {
                        opportunity_id: i,
                        category: c,
                        reason,
                    } && i@ == opportunity_id@ && c@ == category@ && reason == b))
                } else {
                    r == Ok::<AutoPublishCountdown, AutoPublishError>(p) && final(self)@.pending is None
                        && final(self)@.log == old(self)@.log
                },
            },
    {
        let pending = match self.pending.take() {
            Some(p) => p,
            None => {
                return Err(AutoPublishError::NoPendingCountdown);
            },
        };
        if !crate::text::str_eq(pending.opportunity_id.as_str(), opportunity_id) {
            let pending_id = pending.opportunity_id.clone();
            self.pending = Some(pending);
            return Err(
                AutoPublishError::CountdownMismatch {
                    pending: pending_id,
                    requested: opportunity_id.to_owned(),
                },
            );
        }
        match self.block_reason(status, category, pending.grade, pending.model_only) {
            Some(block) => {
                let ghost before = self.log@;
                self.log.push(
                    AutoPublishEvent::Blocked {
                        opportunity_id: opportunity_id.to_owned(),
                        category: category.to_owned(),
                        reason: block.clone(),
                    },
                );
                assert(self.log@.drop_last() =~= before);
                Err(AutoPublishError::Blocked(block))
            },
            None => Ok(pending),
        }
    }

    /// The second half: a Work Item was published for the countdown; it is
    /// counted against today's limit and logged.
    pub fn record_published(
        &mut self,
        opportunity_id: &str,
        category: &str,
        published: &PublishedWorkItem,
    )
        requires
            old(self).wf(),
        ensures
            final(self).wf(),
            final(self)@.settings == old(self)@.settings,
            final(self)@.pending == old(self)@.pending,
            final(self)@.published_today == if old(self)@.published_today == u32::MAX {
                u32::MAX
            } else {
                (old(self)@.published_today + 1) as u32
            },
            final(self)@.log.len() == old(self)@.log.len() + 1,
            final(self)@.log.drop_last() == old(self)@.log,
            final(self)@.log.last() matches AutoPublishEvent::Published {
                opportunity_id: i,
                category: c,
                number,
                html_url,
                fingerprint,
            } && i@ == opportunity_id@ && c@ == category@ && number == published.number
                && html_url == published.html_url && fingerprint == published.fingerprint,
    {
        self.published_today = self.published_today.saturating_add(1);
        let ghost before = self.log@;
        self.log.push(
            AutoPublishEvent::Published {
                opportunity_id: opportunity_id.to_owned(),
                category: category.to_owned(),
                number: published.number,
                html_url: published.html_url.clone(),
                fingerprint: published.fingerprint.clone(),
            },
        );
        assert(self.log@.drop_last() =~= before);
    }
}

/// Once auto-publish is disabled, nothing is pending and no candidate is
/// eligible until it is enabled again.
pub proof fn law_disable_stops_writes(
    p: PublisherView,
    status: OpportunityState,
    category: Seq<char>,
    grade: QualityGrade,
    model_only: bool,
)
    requires
        !p.settings.enabled,
    ensures
        !eligible(p.settings, p.published_today, status, category, grade, model_only),
{
}

} // verus!
