//! Daily candidate pools: which predictions qualify for which category, why
//! the others are excluded, and how each pool is reduced and ranked.
use vstd::prelude::*;

use crate::clock::{
    elapsed_whole_seconds, is_iso_date, istanbul_date, istanbul_date_of, iso_date_valid, parse_rfc3339, rfc3339_instant,
    utc_rfc3339, utc_rfc3339_of, whole_seconds_between,
};
use crate::data_center::{clone_text, opt_text};
use crate::calibration::{distinct_values, lemma_distinct_count};
use crate::coupons::LineKey;
use crate::text::{counted, decimal, decimal_text, owned, text_eq};

verus! {

/// The candidate categories, in their fixed order.
pub const CATEGORY_COUNT: usize = 7;

pub open spec fn category_name(i: int) -> Seq<char> {
    if i == 0 {
        "CORNERS"@
    } else if i == 1 {
        "OVER_25"@
    } else if i == 2 {
        "OVER_35"@
    } else if i == 3 {
        "BTTS_YES"@
    } else if i == 4 {
        "HIGH_CONFIDENCE"@
    } else if i == 5 {
        "SURPRISE"@
    } else {
        "COMPOUND"@
    }
}

/// The category at a position of the fixed order.
pub fn category_at(i: usize) -> (r: &'static str)
    requires
        i < CATEGORY_COUNT,
    ensures
        r@ == category_name(i as int),
{
    if i == 0 {
        "CORNERS"
    } else if i == 1 {
        "OVER_25"
    } else if i == 2 {
        "OVER_35"
    } else if i == 3 {
        "BTTS_YES"
    } else if i == 4 {
        "HIGH_CONFIDENCE"
    } else if i == 5 {
        "SURPRISE"
    } else {
        "COMPOUND"
    }
}

pub const POLICY_VERSION: &'static str = "candidate_policy_v2_daily_goal_ranking";

pub const BUSINESS_TIMEZONE: &'static str = "Europe/Istanbul";

pub const TARGET_DISPLAY_RANGE: &'static str = "5-10";

/// A pool smaller than this is reported with a shortfall.
pub const TARGET_MINIMUM: usize = 5;

/// The oldest odds quote, in seconds, that a candidate may use.
pub const MAX_ODDS_AGE_SECONDS: i64 = 24 * 3600;

/// The bucket sample that high-confidence and compound candidates need.
pub const MIN_BUCKET_SAMPLE: usize = 20;

/// The bucket sample from which observed overconfidence counts as proven.
pub const OVERCONFIDENCE_SAMPLE: usize = 50;

/// The daily goal pools are ranked by probability rather than thresholded.
pub open spec fn is_daily_goal(category: Seq<char>) -> bool {
    category == "OVER_25"@ || category == "BTTS_YES"@
}

pub fn daily_goal_category(category: &str) -> (r: bool)
    ensures
        r == is_daily_goal(category@),
{
    text_eq(category, "OVER_25") || text_eq(category, "BTTS_YES")
}

pub open spec fn lineup_family_spec(category: Seq<char>) -> Seq<char> {
    if category == "BTTS_YES"@ {
        "BTTS"@
    } else if category == "OVER_25"@ || category == "OVER_35"@ || category == "COMPOUND"@ {
        "TOTAL_GOALS"@
    } else if category == "CORNERS"@ {
        "CORNERS"@
    } else {
        "MATCH_RESULT"@
    }
}

/// The lineup model family that a category's market belongs to.
pub fn lineup_family(category: &str) -> (r: &'static str)
    ensures
        r@ == lineup_family_spec(category@),
{
    if text_eq(category, "BTTS_YES") {
        "BTTS"
    } else if text_eq(category, "OVER_25") || text_eq(category, "OVER_35") || text_eq(category, "COMPOUND") {
        "TOTAL_GOALS"
    } else if text_eq(category, "CORNERS") {
        "CORNERS"
    } else {
        "MATCH_RESULT"
    }
}

pub open spec fn correlation_spec(market: Seq<char>) -> Seq<char> {
    if market == "FULL_TIME_TOTAL_CORNERS"@ {
        "CORNERS_SAME_MATCH"@
    } else if market == "TOTAL_GOALS"@ {
        "NESTED_TOTAL_LINE"@
    } else if market == "BTTS"@ {
        "BTTS_GOALS_CORRELATION"@
    } else {
        "NONE"@
    }
}

/// How a selection on a market correlates with others on the same match.
pub fn correlation_type(market: &str) -> (r: &'static str)
    ensures
        r@ == correlation_spec(market@),
{
    if text_eq(market, "FULL_TIME_TOTAL_CORNERS") {
        "CORNERS_SAME_MATCH"
    } else if text_eq(market, "TOTAL_GOALS") {
        "NESTED_TOTAL_LINE"
    } else if text_eq(market, "BTTS") {
        "BTTS_GOALS_CORRELATION"
    } else {
        "NONE"
    }
}

/// Why a prediction did not enter a category's pool.
#[derive(Clone, Copy, Debug, PartialEq, Eq, Structural)]
pub enum ExclusionReason {
    InvalidOdds,
    ModelUnavailable,
    ResolutionFailed,
    KickoffUnknown,
    InvalidProbability,
    InsufficientHistory,
    NegativeModelQuality,
    MatchFinished,
    MatchStarted,
    LowDataQuality,
    StaleOdds,
    OddsMarketUnavailable,
    LowPublicProbability,
    UnsupportedMarket,
    LowEdge,
    CalibrationInsufficient,
    InsufficientBucketSample,
    OddsOutsideCompoundRange,
    OddsUnavailable,
    CorrelationReduction,
    ModelUnsupported,
    ModelPredictionUnavailable,
}

pub open spec fn exclusion_reason_name(r: ExclusionReason) -> Seq<char> {
    match r {
        ExclusionReason::InvalidOdds => "INVALID_ODDS"@,
        ExclusionReason::ModelUnavailable => "MODEL_UNAVAILABLE"@,
        ExclusionReason::ResolutionFailed => "RESOLUTION_FAILED"@,
        ExclusionReason::KickoffUnknown => "KICKOFF_UNKNOWN"@,
        ExclusionReason::InvalidProbability => "INVALID_PROBABILITY"@,
        ExclusionReason::InsufficientHistory => "INSUFFICIENT_HISTORY"@,
        ExclusionReason::NegativeModelQuality => "NEGATIVE_MODEL_QUALITY"@,
        ExclusionReason::MatchFinished => "MATCH_FINISHED"@,
        ExclusionReason::MatchStarted => "MATCH_STARTED"@,
        ExclusionReason::LowDataQuality => "LOW_DATA_QUALITY"@,
        ExclusionReason::StaleOdds => "STALE_ODDS"@,
        ExclusionReason::OddsMarketUnavailable => "ODDS_MARKET_UNAVAILABLE"@,
        ExclusionReason::LowPublicProbability => "LOW_PUBLIC_PROBABILITY"@,
        ExclusionReason::UnsupportedMarket => "UNSUPPORTED_MARKET"@,
        ExclusionReason::LowEdge => "LOW_EDGE"@,
        ExclusionReason::CalibrationInsufficient => "CALIBRATION_INSUFFICIENT"@,
        ExclusionReason::InsufficientBucketSample => "INSUFFICIENT_BUCKET_SAMPLE"@,
        ExclusionReason::OddsOutsideCompoundRange => "ODDS_OUTSIDE_COMPOUND_RANGE"@,
        ExclusionReason::OddsUnavailable => "ODDS_UNAVAILABLE"@,
        ExclusionReason::CorrelationReduction => "CORRELATION_REDUCTION"@,
        ExclusionReason::ModelUnsupported => "MODEL_UNSUPPORTED"@,
        ExclusionReason::ModelPredictionUnavailable => "MODEL_PREDICTION_UNAVAILABLE"@,
    }
}

impl ExclusionReason {
    pub fn as_str(&self) -> (r: &'static str)
        ensures
            r@ == exclusion_reason_name(*self),
    {
        match self {
            ExclusionReason::InvalidOdds => "INVALID_ODDS",
            ExclusionReason::ModelUnavailable => "MODEL_UNAVAILABLE",
            ExclusionReason::ResolutionFailed => "RESOLUTION_FAILED",
            ExclusionReason::KickoffUnknown => "KICKOFF_UNKNOWN",
            ExclusionReason::InvalidProbability => "INVALID_PROBABILITY",
            ExclusionReason::InsufficientHistory => "INSUFFICIENT_HISTORY",
            ExclusionReason::NegativeModelQuality => "NEGATIVE_MODEL_QUALITY",
            ExclusionReason::MatchFinished => "MATCH_FINISHED",
            ExclusionReason::MatchStarted => "MATCH_STARTED",
            ExclusionReason::LowDataQuality => "LOW_DATA_QUALITY",
            ExclusionReason::StaleOdds => "STALE_ODDS",
            ExclusionReason::OddsMarketUnavailable => "ODDS_MARKET_UNAVAILABLE",
            ExclusionReason::LowPublicProbability => "LOW_PUBLIC_PROBABILITY",
            ExclusionReason::UnsupportedMarket => "UNSUPPORTED_MARKET",
            ExclusionReason::LowEdge => "LOW_EDGE",
            ExclusionReason::CalibrationInsufficient => "CALIBRATION_INSUFFICIENT",
            ExclusionReason::InsufficientBucketSample => "INSUFFICIENT_BUCKET_SAMPLE",
            ExclusionReason::OddsOutsideCompoundRange => "ODDS_OUTSIDE_COMPOUND_RANGE",
            ExclusionReason::OddsUnavailable => "ODDS_UNAVAILABLE",
            ExclusionReason::CorrelationReduction => "CORRELATION_REDUCTION",
            ExclusionReason::ModelUnsupported => "MODEL_UNSUPPORTED",
            ExclusionReason::ModelPredictionUnavailable => "MODEL_PREDICTION_UNAVAILABLE",
        }
    }
}

/// The comparisons of a prediction's probability and quoted odd against the
/// policy thresholds. They are made on floating-point values where those
/// values live, and reach the pool rules as their outcomes.
#[derive(Clone, Copy, Debug)]
pub struct ThresholdChecks {
    /// The quoted odd is finite and above one.
    pub odd_valid: bool,
    /// The public probability is finite and within zero and one.
    pub probability_valid: bool,
    /// The observed bucket rate is valid and the public probability exceeds it
    /// by more than twenty points and by more than three standard errors.
    pub severe_overconfidence: bool,
    /// The corner market's coverage in the quality report reaches one half.
    pub corners_coverage_sufficient: bool,
    pub corners_low_probability: bool,
    pub over_35_low_probability: bool,
    pub over_35_no_edge: bool,
    pub high_confidence_low_probability: bool,
    pub surprise_low_probability: bool,
    pub surprise_low_edge: bool,
    pub compound_low_probability: bool,
    pub compound_odd_outside_range: bool,
}

/// What the pool rules read of one prediction and its latest quoted odd.
#[derive(Clone, Debug)]
pub struct CandidateEvidence {
    pub market: String,
    pub selection: String,
    pub line: LineKey,
    pub calibration_status: String,
    pub bucket_sample_size: Option<usize>,
    pub availability: String,
    pub match_status: String,
    pub quality_json: String,
    pub goal_identity_valid: bool,
    pub kickoff_known: bool,
    pub generated_at: String,
    pub odds_captured_at: String,
    pub checks: ThresholdChecks,
}

/// An integer field of a JSON object, or `None` when the text is not JSON,
/// the field is missing or it is not an integer that fits `i64`.
pub uninterp spec fn json_integer_field(json: Seq<char>, key: Seq<char>) -> Option<i64>;

/// Reads an integer field of a JSON object with `serde_json::from_str`,
/// `Value::get` and `Value::as_i64`. Trusted: the result is what serde_json
/// reads from the text and the key, a function of the two alone.
#[verifier::external_body]
pub(crate) fn json_integer(json: &str, key: &str) -> (r: Option<i64>)
    ensures
        r == json_integer_field(json@, key@),
{
    match serde_json::from_str::<serde_json::Value>(json) {
        Ok(value) => match value.get(key) {
            Some(field) => field.as_i64(),
            None => None,
        },
        Err(_) => None,
    }
}

/// The history behind a prediction: the smaller of the two teams' recent
/// match counts in its quality report, a missing count read as zero.
pub open spec fn history_matches(e: CandidateEvidence) -> int {
    let home = match json_integer_field(e.quality_json@, "history_matches_home"@) {
        Some(v) => v as int,
        None => 0,
    };
    let away = match json_integer_field(e.quality_json@, "history_matches_away"@) {
        Some(v) => v as int,
        None => 0,
    };
    if home <= away {
        home
    } else {
        away
    }
}

/// Good data: five matches of history for both teams, and enough corner
/// coverage where the market is on corners.
pub open spec fn good_data(e: CandidateEvidence) -> bool {
    history_matches(e) >= 5 && (e.market@ != "FULL_TIME_TOTAL_CORNERS"@ || e.checks.corners_coverage_sufficient)
}

fn has_good_data(e: &CandidateEvidence) -> (r: bool)
    ensures
        r == good_data(*e),
{
    let home = match json_integer(e.quality_json.as_str(), "history_matches_home") {
        Some(v) => v,
        None => 0,
    };
    let away = match json_integer(e.quality_json.as_str(), "history_matches_away") {
        Some(v) => v,
        None => 0,
    };
    let history = if home <= away { home } else { away };
    history >= 5 && (!text_eq(e.market.as_str(), "FULL_TIME_TOTAL_CORNERS") || e.checks.corners_coverage_sufficient)
}

/// The age of the odds quote at generation time in whole seconds; a time that
/// cannot be read makes the quote infinitely old.
pub open spec fn odds_age(e: CandidateEvidence) -> int {
    match (rfc3339_instant(e.generated_at@), rfc3339_instant(e.odds_captured_at@)) {
        (Some(generated), Some(captured)) => whole_seconds_between(generated, captured),
        _ => i64::MAX as int,
    }
}

fn odds_age_seconds(e: &CandidateEvidence) -> (r: i64)
    ensures
        r == odds_age(*e),
{
    match (parse_rfc3339(e.generated_at.as_str()), parse_rfc3339(e.odds_captured_at.as_str())) {
        (Some(generated), Some(captured)) => elapsed_whole_seconds(generated, captured),
        _ => i64::MAX,
    }
}

/// A calibration status that marks the model as proven bad.
pub open spec fn invalid_model_status(status: Seq<char>) -> bool {
    status == "INVALID"@ || status == "MODEL_INVALID"@ || status == "REJECTED"@
}

pub open spec fn sample(e: CandidateEvidence) -> int {
    match e.bucket_sample_size {
        Some(n) => n as int,
        None => 0,
    }
}

/// The corner lines that the corner pool offers, as the bits of their
/// floating-point values (7.5 up to 11.5).
pub open spec fn corner_line(line: LineKey) -> bool {
    line == LineKey::Number(0x401E_0000_0000_0000u64) || line == LineKey::Number(0x4021_0000_0000_0000u64)
        || line == LineKey::Number(0x4023_0000_0000_0000u64) || line == LineKey::Number(0x4025_0000_0000_0000u64)
        || line == LineKey::Number(0x4027_0000_0000_0000u64)
}

/// The bits of the line 2.5.
pub const LINE_2_5: u64 = 0x4004_0000_0000_0000;

/// The bits of the line 3.5.
pub const LINE_3_5: u64 = 0x400C_0000_0000_0000;

/// The market rule of each category, applied last.
pub open spec fn category_rule(e: CandidateEvidence, category: Seq<char>) -> Option<ExclusionReason> {
    let total_over = e.market@ == "TOTAL_GOALS"@ && e.selection@ == "OVER"@;
    if category == "CORNERS"@ {
        if e.market@ != "FULL_TIME_TOTAL_CORNERS"@ || e.selection@ != "OVER"@ || !corner_line(e.line) {
            Some(ExclusionReason::OddsMarketUnavailable)
        } else if e.checks.corners_low_probability {
            Some(ExclusionReason::LowPublicProbability)
        } else {
            None
        }
    } else if category == "OVER_25"@ {
        if !total_over || e.line != LineKey::Number(LINE_2_5) {
            Some(ExclusionReason::UnsupportedMarket)
        } else {
            None
        }
    } else if category == "OVER_35"@ {
        if !total_over || e.line != LineKey::Number(LINE_3_5) {
            Some(ExclusionReason::UnsupportedMarket)
        } else if e.checks.over_35_low_probability {
            Some(ExclusionReason::LowPublicProbability)
        } else if e.checks.over_35_no_edge {
            Some(ExclusionReason::LowEdge)
        } else {
            None
        }
    } else if category == "BTTS_YES"@ {
        if e.market@ != "BTTS"@ || e.selection@ != "YES"@ {
            Some(ExclusionReason::UnsupportedMarket)
        } else {
            None
        }
    } else if category == "HIGH_CONFIDENCE"@ {
        if e.checks.high_confidence_low_probability {
            Some(ExclusionReason::LowPublicProbability)
        } else if e.calibration_status@ != "CALIBRATED_V1"@ && !(e.calibration_status@ == "CALIBRATION_NOT_BENEFICIAL"@
            && sample(e) >= MIN_BUCKET_SAMPLE) {
            Some(ExclusionReason::CalibrationInsufficient)
        } else if sample(e) < MIN_BUCKET_SAMPLE {
            Some(ExclusionReason::InsufficientBucketSample)
        } else {
            None
        }
    } else if category == "SURPRISE"@ {
        if e.checks.surprise_low_probability {
            Some(ExclusionReason::LowPublicProbability)
        } else if e.checks.surprise_low_edge {
            Some(ExclusionReason::LowEdge)
        } else {
            None
        }
    } else if category == "COMPOUND"@ {
        if e.checks.compound_low_probability {
            Some(ExclusionReason::LowPublicProbability)
        } else if e.checks.compound_odd_outside_range {
            Some(ExclusionReason::OddsOutsideCompoundRange)
        } else if !(e.calibration_status@ == "CALIBRATED_V1"@ || e.calibration_status@ == "CALIBRATION_NOT_BENEFICIAL"@)
            || sample(e) < MIN_BUCKET_SAMPLE {
            Some(ExclusionReason::CalibrationInsufficient)
        } else {
            None
        }
    } else {
        Some(ExclusionReason::UnsupportedMarket)
    }
}

/// The first rule that a prediction fails for a category, in the policy's
/// order, or `None` when it qualifies.
pub open spec fn reject_spec(e: CandidateEvidence, category: Seq<char>) -> Option<ExclusionReason> {
    let daily = is_daily_goal(category);
    if !e.checks.odd_valid {
        Some(ExclusionReason::InvalidOdds)
    } else if e.availability@ != "AVAILABLE"@ {
        Some(ExclusionReason::ModelUnavailable)
    } else if daily && !e.goal_identity_valid {
        Some(ExclusionReason::ResolutionFailed)
    } else if daily && !e.kickoff_known {
        Some(ExclusionReason::KickoffUnknown)
    } else if daily && !e.checks.probability_valid {
        Some(ExclusionReason::InvalidProbability)
    } else if daily && !good_data(e) {
        Some(ExclusionReason::InsufficientHistory)
    } else if daily && (invalid_model_status(e.calibration_status@) || (sample(e) >= OVERCONFIDENCE_SAMPLE
        && e.checks.severe_overconfidence)) {
        Some(ExclusionReason::NegativeModelQuality)
    } else if e.match_status@ != "scheduled"@ {
        if e.match_status@ == "finished"@ {
            Some(ExclusionReason::MatchFinished)
        } else {
            Some(ExclusionReason::MatchStarted)
        }
    } else if !good_data(e) && (category == "CORNERS"@ || category == "HIGH_CONFIDENCE"@ || category == "COMPOUND"@) {
        Some(ExclusionReason::LowDataQuality)
    } else if odds_age(e) > MAX_ODDS_AGE_SECONDS {
        Some(ExclusionReason::StaleOdds)
    } else if daily && odds_age(e) < 0 {
        Some(ExclusionReason::InvalidOdds)
    } else {
        category_rule(e, category)
    }
}

fn sample_size(e: &CandidateEvidence) -> (r: usize)
    ensures
        r == sample(*e),
{
    match e.bucket_sample_size {
        Some(n) => n,
        None => 0,
    }
}

fn is_corner_line(line: LineKey) -> (r: bool)
    ensures
        r == corner_line(line),
{
    match line {
        LineKey::Number(bits) => bits == 0x401E_0000_0000_0000u64 || bits == 0x4021_0000_0000_0000u64 || bits
            == 0x4023_0000_0000_0000u64 || bits == 0x4025_0000_0000_0000u64 || bits == 0x4027_0000_0000_0000u64,
        _ => false,
    }
}

fn line_is(line: LineKey, bits: u64) -> (r: bool)
    ensures
        r == (line == LineKey::Number(bits)),
{
    match line {
        LineKey::Number(b) => b == bits,
        _ => false,
    }
}

fn apply_category_rule(e: &CandidateEvidence, category: &str) -> (r: Option<ExclusionReason>)
    ensures
        r == category_rule(*e, category@),
{
    let total_over = text_eq(e.market.as_str(), "TOTAL_GOALS") && text_eq(e.selection.as_str(), "OVER");
    let n = sample_size(e);
    if text_eq(category, "CORNERS") {
        if !text_eq(e.market.as_str(), "FULL_TIME_TOTAL_CORNERS") || !text_eq(e.selection.as_str(), "OVER")
            || !is_corner_line(e.line) {
            Some(ExclusionReason::OddsMarketUnavailable)
        } else if e.checks.corners_low_probability {
            Some(ExclusionReason::LowPublicProbability)
        } else {
            None
        }
    } else if text_eq(category, "OVER_25") {
        if !total_over || !line_is(e.line, LINE_2_5) {
            Some(ExclusionReason::UnsupportedMarket)
        } else {
            None
        }
    } else if text_eq(category, "OVER_35") {
        if !total_over || !line_is(e.line, LINE_3_5) {
            Some(ExclusionReason::UnsupportedMarket)
        } else if e.checks.over_35_low_probability {
            Some(ExclusionReason::LowPublicProbability)
        } else if e.checks.over_35_no_edge {
            Some(ExclusionReason::LowEdge)
        } else {
            None
        }
    } else if text_eq(category, "BTTS_YES") {
        if !text_eq(e.market.as_str(), "BTTS") || !text_eq(e.selection.as_str(), "YES") {
            Some(ExclusionReason::UnsupportedMarket)
        } else {
            None
        }
    } else if text_eq(category, "HIGH_CONFIDENCE") {
        let calibrated = text_eq(e.calibration_status.as_str(), "CALIBRATED_V1");
        let not_beneficial = text_eq(e.calibration_status.as_str(), "CALIBRATION_NOT_BENEFICIAL");
        if e.checks.high_confidence_low_probability {
            Some(ExclusionReason::LowPublicProbability)
        } else if !calibrated && !(not_beneficial && n >= MIN_BUCKET_SAMPLE) {
            Some(ExclusionReason::CalibrationInsufficient)
        } else if n < MIN_BUCKET_SAMPLE {
            Some(ExclusionReason::InsufficientBucketSample)
        } else {
            None
        }
    } else if text_eq(category, "SURPRISE") {
        if e.checks.surprise_low_probability {
            Some(ExclusionReason::LowPublicProbability)
        } else if e.checks.surprise_low_edge {
            Some(ExclusionReason::LowEdge)
        } else {
            None
        }
    } else if text_eq(category, "COMPOUND") {
        let calibrated = text_eq(e.calibration_status.as_str(), "CALIBRATED_V1");
        let not_beneficial = text_eq(e.calibration_status.as_str(), "CALIBRATION_NOT_BENEFICIAL");
        if e.checks.compound_low_probability {
            Some(ExclusionReason::LowPublicProbability)
        } else if e.checks.compound_odd_outside_range {
            Some(ExclusionReason::OddsOutsideCompoundRange)
        } else if !(calibrated || not_beneficial) || n < MIN_BUCKET_SAMPLE {
            Some(ExclusionReason::CalibrationInsufficient)
        } else {
            None
        }
    } else {
        Some(ExclusionReason::UnsupportedMarket)
    }
}

/// Applies the candidate policy to one prediction for one category: the
/// first failing rule gives the exclusion, and `None` means it qualifies.
pub fn reject(e: &CandidateEvidence, category: &str) -> (r: Option<ExclusionReason>)
    ensures
        r == reject_spec(*e, category@),
{
    let daily = daily_goal_category(category);
    if !e.checks.odd_valid {
        return Some(ExclusionReason::InvalidOdds);
    }
    if !text_eq(e.availability.as_str(), "AVAILABLE") {
        return Some(ExclusionReason::ModelUnavailable);
    }
    let good = has_good_data(e);
    if daily {
        if !e.goal_identity_valid {
            return Some(ExclusionReason::ResolutionFailed);
        }
        if !e.kickoff_known {
            return Some(ExclusionReason::KickoffUnknown);
        }
        if !e.checks.probability_valid {
            return Some(ExclusionReason::InvalidProbability);
        }
        if !good {
            return Some(ExclusionReason::InsufficientHistory);
        }
        let status = e.calibration_status.as_str();
        let invalid = text_eq(status, "INVALID") || text_eq(status, "MODEL_INVALID") || text_eq(status, "REJECTED");
        if invalid || (sample_size(e) >= OVERCONFIDENCE_SAMPLE && e.checks.severe_overconfidence) {
            return Some(ExclusionReason::NegativeModelQuality);
        }
    }
    if !text_eq(e.match_status.as_str(), "scheduled") {
        if text_eq(e.match_status.as_str(), "finished") {
            return Some(ExclusionReason::MatchFinished);
        } else {
            return Some(ExclusionReason::MatchStarted);
        }
    }
    if !good && (text_eq(category, "CORNERS") || text_eq(category, "HIGH_CONFIDENCE") || text_eq(category, "COMPOUND")) {
        return Some(ExclusionReason::LowDataQuality);
    }
    let age = odds_age_seconds(e);
    if age > MAX_ODDS_AGE_SECONDS {
        return Some(ExclusionReason::StaleOdds);
    }
    if daily && age < 0 {
        return Some(ExclusionReason::InvalidOdds);
    }
    apply_category_rule(e, category)
}


/// A qualified candidate as the pool reduction sees it: its category's
/// position in the fixed order and its match.
#[derive(Clone, Copy, Debug, PartialEq, Eq, Structural)]
pub struct PoolEntry {
    pub category: usize,
    pub match_id: i64,
}

/// An earlier entry has the same category and match.
pub open spec fn duplicate_before(entries: Seq<PoolEntry>, j: int) -> bool {
    exists|i: int| 0 <= i < j && entries[i] == entries[j]
}

/// The entries kept before position `j` in a category.
pub open spec fn kept_before(entries: Seq<PoolEntry>, j: int, category: usize) -> nat
    decreases j,
{
    if j <= 0 {
        0
    } else {
        kept_before(entries, j - 1, category) + if !duplicate_before(entries, j - 1) && entries[j - 1].category
            == category {
            1nat
        } else {
            0nat
        }
    }
}

/// The rank of an entry in its category's pool, or `None` when an earlier
/// entry already holds its match there.
pub open spec fn pool_rank(entries: Seq<PoolEntry>, j: int) -> Option<int> {
    if duplicate_before(entries, j) {
        None
    } else {
        Some(kept_before(entries, j, entries[j].category) + 1int)
    }
}

/// Reduces candidates listed best first: within a category only the best
/// candidate of each match is kept, the others are excluded by correlation
/// reduction; the kept ones are ranked from one within their category.
pub fn reduce_and_rank(entries: &Vec<PoolEntry>) -> (r: Vec<Option<usize>>)
    requires
        forall|j: int| 0 <= j < entries@.len() ==> (#[trigger] entries@[j]).category < CATEGORY_COUNT,
    ensures
        r@.len() == entries@.len(),
        forall|j: int| 0 <= j < entries@.len() ==> (match #[trigger] r@[j] {
            Some(rank) => pool_rank(entries@, j) == Some(rank as int),
            None => pool_rank(entries@, j) is None,
        }),
{
    let n = entries.len();
    let mut counts: Vec<usize> = vec![0, 0, 0, 0, 0, 0, 0];
    let mut out: Vec<Option<usize>> = Vec::new();
    let mut j: usize = 0;
    while j < n
        invariant
            n == entries@.len(),
            j <= n,
            counts@.len() == CATEGORY_COUNT,
            forall|c: int| 0 <= c < CATEGORY_COUNT ==> #[trigger] counts@[c] == kept_before(entries@, j as int, c as usize),
            forall|c: int| 0 <= c < CATEGORY_COUNT ==> #[trigger] counts@[c] <= j,
            forall|k: int| 0 <= k < entries@.len() ==> (#[trigger] entries@[k]).category < CATEGORY_COUNT,
            out@.len() == j,
            forall|k: int| 0 <= k < j ==> (match #[trigger] out@[k] {
                Some(rank) => pool_rank(entries@, k) == Some(rank as int),
                None => pool_rank(entries@, k) is None,
            }),
        decreases n - j,
    {
        let entry = entries[j];
        let mut seen = false;
        let mut i: usize = 0;
        while i < j
            invariant
                j < n,
                n == entries@.len(),
                i <= j,
                entry == entries@[j as int],
                seen == (exists|k: int| 0 <= k < i && entries@[k] == entries@[j as int]),
            decreases j - i,
        {
            if entries[i] == entry {
                seen = true;
            }
            i = i + 1;
        }
        let c = entry.category;
        if seen {
            out.push(None);
        } else {
            let rank = counts[c] + 1;
            counts.set(c, rank);
            out.push(Some(rank));
        }
        proof {
            assert forall|d: int| 0 <= d < CATEGORY_COUNT implies #[trigger] counts@[d] == kept_before(
                entries@,
                j as int + 1,
                d as usize,
            ) by {
                assert(kept_before(entries@, j as int + 1, d as usize) == kept_before(entries@, j as int, d as usize) + if !duplicate_before(entries@, j as int) && entries@[j as int].category == d as usize { 1nat } else { 0nat });
            }
        }
        j = j + 1;
    }
    out
}

proof fn lemma_kept_before_grows(entries: Seq<PoolEntry>, a: int, b: int, category: usize)
    requires
        0 <= a <= b,
    ensures
        kept_before(entries, a, category) <= kept_before(entries, b, category),
    decreases b - a,
{
    if a < b {
        lemma_kept_before_grows(entries, a, b - 1, category);
    }
}

/// Within a category, no two kept candidates share a match, and a kept
/// candidate listed earlier ranks strictly better than one listed later.
pub proof fn law_pool_ranks_are_unique_per_match_and_ordered(entries: Seq<PoolEntry>, j: int, k: int)
    requires
        0 <= j < k < entries.len(),
        entries[j].category == entries[k].category,
        pool_rank(entries, j) is Some,
        pool_rank(entries, k) is Some,
    ensures
        entries[j].match_id != entries[k].match_id,
        pool_rank(entries, j)->0 < pool_rank(entries, k)->0,
{
    if entries[j].match_id == entries[k].match_id {
        assert(entries[j] == entries[k]);
        assert(duplicate_before(entries, k));
    }
    lemma_kept_before_grows(entries, j + 1, k, entries[j].category);
}

/// The summary of one category's pool.
#[derive(Debug)]
pub struct CategorySummary {
    pub category: String,
    pub qualified_count: usize,
    pub exclusion_count: usize,
    pub target_display_range: String,
    pub shortfall_reason: Option<String>,
}

/// A pool below the target minimum carries a shortfall note that gives its size.
pub open spec fn shortfall_spec(qualified_count: usize) -> Option<Seq<char>> {
    if qualified_count < TARGET_MINIMUM {
        Some("Only "@ + decimal_text(qualified_count as i64) + " selections passed current quality policy."@)
    } else {
        None
    }
}

/// Summarizes a category's pool.
pub fn category_summary(category: &str, qualified_count: usize, exclusion_count: usize) -> (r: CategorySummary)
    ensures
        r.category@ == category@,
        r.qualified_count == qualified_count,
        r.exclusion_count == exclusion_count,
        r.target_display_range@ == "5-10"@,
        opt_text(r.shortfall_reason) == shortfall_spec(qualified_count),
{
    let shortfall_reason = if qualified_count < TARGET_MINIMUM {
        let mut note = owned("Only ");
        let rest = counted(qualified_count as i64, " selections passed current quality policy.");
        note.append(rest.as_str());
        Some(note)
    } else {
        None
    };
    CategorySummary {
        category: owned(category),
        qualified_count,
        exclusion_count,
        target_display_range: owned("5-10"),
        shortfall_reason,
    }
}

/// How many entries of a list fall in a category.
pub open spec fn count_category(categories: Seq<usize>, category: usize) -> nat
    decreases categories.len(),
{
    if categories.len() == 0 {
        0
    } else {
        count_category(categories.drop_last(), category) + if categories.last() == category {
            1nat
        } else {
            0nat
        }
    }
}

fn count_in_category(categories: &Vec<usize>, category: usize) -> (r: usize)
    ensures
        r == count_category(categories@, category),
{
    let n = categories.len();
    let mut count: usize = 0;
    let mut i: usize = 0;
    while i < n
        invariant
            n == categories@.len(),
            i <= n,
            count == count_category(categories@.subrange(0, i as int), category),
            count <= i,
        decreases n - i,
    {
        proof {
            assert(categories@.subrange(0, i as int + 1).drop_last() =~= categories@.subrange(0, i as int));
        }
        if categories[i] == category {
            count = count + 1;
        }
        i = i + 1;
    }
    proof {
        assert(categories@.subrange(0, n as int) =~= categories@);
    }
    count
}

/// The categories a run reports on: all of them in order, or the one asked for.
pub open spec fn reported_categories(only: Option<usize>) -> Seq<usize> {
    match only {
        Some(c) => seq![c],
        None => seq![0usize, 1usize, 2usize, 3usize, 4usize, 5usize, 6usize],
    }
}

/// The summary of every reported category, from the categories of the
/// qualified candidates and of the exclusions.
pub fn category_summaries(candidates: &Vec<usize>, exclusions: &Vec<usize>, only: Option<usize>) -> (r: Vec<CategorySummary>)
    requires
        only matches Some(c) ==> c < CATEGORY_COUNT,
    ensures
        r@.len() == reported_categories(only).len(),
        forall|i: int| 0 <= i < r@.len() ==> {
            let c = #[trigger] reported_categories(only)[i];
            &&& r@[i].category@ == category_name(c as int)
            &&& r@[i].qualified_count == count_category(candidates@, c)
            &&& r@[i].exclusion_count == count_category(exclusions@, c)
            &&& r@[i].target_display_range@ == "5-10"@
            &&& opt_text(r@[i].shortfall_reason) == shortfall_spec(r@[i].qualified_count)
        },
{
    let mut out: Vec<CategorySummary> = Vec::new();
    let mut c: usize = 0;
    while c < CATEGORY_COUNT
        invariant
            c <= CATEGORY_COUNT,
            only matches Some(k) ==> k < CATEGORY_COUNT,
            out@.len() == (match only {
                Some(k) => if k < c { 1int } else { 0int },
                None => c as int,
            }),
            forall|i: int| 0 <= i < out@.len() ==> {
                let k = #[trigger] reported_categories(only)[i];
                &&& out@[i].category@ == category_name(k as int)
                &&& out@[i].qualified_count == count_category(candidates@, k)
                &&& out@[i].exclusion_count == count_category(exclusions@, k)
                &&& out@[i].target_display_range@ == "5-10"@
                &&& opt_text(out@[i].shortfall_reason) == shortfall_spec(out@[i].qualified_count)
            },
        decreases CATEGORY_COUNT - c,
    {
        let wanted = match only {
            Some(k) => k == c,
            None => true,
        };
        if wanted {
            let summary = category_summary(
                category_at(c),
                count_in_category(candidates, c),
                count_in_category(exclusions, c),
            );
            out.push(summary);
        }
        c = c + 1;
    }
    out
}

/// Where a candidate's probability came from.
#[derive(Clone, Copy, Debug, PartialEq, Eq, Structural)]
pub enum PredictionSource {
    Base,
    LineupAware,
    BaseRetained,
}

pub open spec fn prediction_source_name(s: PredictionSource) -> Seq<char> {
    match s {
        PredictionSource::Base => "BASE"@,
        PredictionSource::LineupAware => "LINEUP_AWARE"@,
        PredictionSource::BaseRetained => "BASE_RETAINED"@,
    }
}

impl PredictionSource {
    pub fn as_str(&self) -> (r: &'static str)
        ensures
            r@ == prediction_source_name(*self),
    {
        match self {
            PredictionSource::Base => "BASE",
            PredictionSource::LineupAware => "LINEUP_AWARE",
            PredictionSource::BaseRetained => "BASE_RETAINED",
        }
    }
}

/// What the latest lineup-aware revision says of a candidate's market.
#[derive(Clone, Debug)]
pub struct RevisionMarket {
    pub family_status: String,
    pub fallback_reason: Option<String>,
}

/// The lineup provenance of a candidate.
#[derive(Debug)]
pub struct LineupChoice {
    pub source: PredictionSource,
    pub family_status: Option<String>,
    pub fallback_reason: Option<String>,
}

pub open spec fn lineup_choice_spec(market: Option<RevisionMarket>, category: Seq<char>) -> (
    PredictionSource,
    Option<Seq<char>>,
    Option<Seq<char>>,
) {
    match market {
        Some(m) => {
            let source = if m.family_status@ == "ACTIVE"@ {
                PredictionSource::LineupAware
            } else {
                PredictionSource::BaseRetained
            };
            let fallback = match m.fallback_reason {
                Some(f) => Some(f@),
                None => if source == PredictionSource::BaseRetained {
                    Some("BASE_RETAINED:"@ + lineup_family_spec(category))
                } else {
                    None
                },
            };
            (source, Some(m.family_status@), fallback)
        },
        None => (PredictionSource::Base, Some(lineup_family_spec(category)), None),
    }
}

/// The provenance of a candidate given what the latest revision says of its
/// market: an active family revises the probability, any other family keeps
/// the base probability and says why, and without a revision the base
/// prediction stands under the category's family.
pub fn lineup_choice(market: &Option<RevisionMarket>, category: &str) -> (r: LineupChoice)
    ensures
        (r.source, opt_text(r.family_status), opt_text(r.fallback_reason)) == lineup_choice_spec(*market, category@),
{
    match market {
        Some(m) => {
            let source = if text_eq(m.family_status.as_str(), "ACTIVE") {
                PredictionSource::LineupAware
            } else {
                PredictionSource::BaseRetained
            };
            let fallback_reason = match &m.fallback_reason {
                Some(f) => Some(owned(f.as_str())),
                None => if source == PredictionSource::BaseRetained {
                    let mut reason = owned("BASE_RETAINED:");
                    reason.append(lineup_family(category));
                    Some(reason)
                } else {
                    None
                },
            };
            LineupChoice { source, family_status: Some(owned(m.family_status.as_str())), fallback_reason }
        },
        None => LineupChoice { source: PredictionSource::Base, family_status: Some(owned(lineup_family(category))), fallback_reason: None },
    }
}

/// Why a bulletin match never reached inference.
#[derive(Clone, Copy, Debug, PartialEq, Eq, Structural)]
pub enum CoverageGap {
    ModelUnsupported,
    ResolutionFailed,
    ModelInputMissing,
    Other,
}

/// The exclusion recorded for a bulletin match without a prediction.
pub fn uncovered_reason(gap: CoverageGap) -> (r: ExclusionReason)
    ensures
        r == match gap {
            CoverageGap::ModelUnsupported => ExclusionReason::ModelUnsupported,
            CoverageGap::ResolutionFailed => ExclusionReason::ResolutionFailed,
            CoverageGap::ModelInputMissing => ExclusionReason::InsufficientHistory,
            CoverageGap::Other => ExclusionReason::ModelPredictionUnavailable,
        },
{
    match gap {
        CoverageGap::ModelUnsupported => ExclusionReason::ModelUnsupported,
        CoverageGap::ResolutionFailed => ExclusionReason::ResolutionFailed,
        CoverageGap::ModelInputMissing => ExclusionReason::InsufficientHistory,
        CoverageGap::Other => ExclusionReason::ModelPredictionUnavailable,
    }
}

/// A request to generate the daily candidate run.
#[derive(Clone, Debug)]
pub struct GenerateRequest {
    pub business_date: Option<String>,
    pub generation_time: Option<String>,
    pub category: Option<String>,
    pub dry_run: Option<bool>,
}

/// A request to read a candidate run.
#[derive(Clone, Debug)]
pub struct GetRequest {
    pub business_date: String,
    pub run_id: Option<i64>,
    pub category: Option<String>,
}

/// A request to derive the lineup-aware child of a base run.
#[derive(Clone, Debug)]
pub struct LineupRevisionGenerateRequest {
    pub base_run_id: i64,
    pub business_date: String,
}

/// The pool size and exclusions of one category in the latest run.
#[derive(Clone, Debug)]
pub struct StatusCategory {
    pub category: String,
    pub qualified_count: usize,
    pub rejected_count: usize,
}

/// Lexicographic order on texts, as `str` orders them.
pub open spec fn text_less(a: Seq<char>, b: Seq<char>) -> bool
    decreases a.len(),
{
    if b.len() == 0 {
        false
    } else if a.len() == 0 {
        true
    } else if a[0] != b[0] {
        (a[0] as u32) < (b[0] as u32)
    } else {
        text_less(a.drop_first(), b.drop_first())
    }
}

pub fn less_text(a: &str, b: &str) -> (r: bool)
    ensures
        r == text_less(a@, b@),
{
    let na = a.unicode_len();
    let nb = b.unicode_len();
    let mut i: usize = 0;
    proof {
        assert(a@.subrange(0, na as int) =~= a@);
        assert(b@.subrange(0, nb as int) =~= b@);
    }
    while i < na && i < nb
        invariant
            na == a@.len(),
            nb == b@.len(),
            i <= na,
            i <= nb,
            forall|k: int| 0 <= k < i ==> a@[k] == b@[k],
            text_less(a@, b@) == text_less(a@.subrange(i as int, na as int), b@.subrange(i as int, nb as int)),
        decreases na - i,
    {
        let x = a.get_char(i);
        let y = b.get_char(i);
        proof {
            assert(a@.subrange(i as int, na as int).drop_first() =~= a@.subrange(i as int + 1, na as int));
            assert(b@.subrange(i as int, nb as int).drop_first() =~= b@.subrange(i as int + 1, nb as int));
        }
        if x != y {
            return (x as u32) < (y as u32);
        }
        i = i + 1;
    }
    i == na && i < nb
}

/// How a generation request is carried out.
#[derive(Debug)]
pub enum GenerationPlan {
    /// A past date without an information cutoff reopens its publication.
    ReopenPublished { business_date: String },
    /// A run is generated for the date with the given cutoff, in UTC.
    Generate { business_date: String, generated_at: String },
}

/// Why a generation request is refused before any work.
#[derive(Clone, Copy, Debug, PartialEq, Eq, Structural)]
pub enum PlanError {
    InvalidTimestamp,
    InvalidBusinessDate,
}

pub open spec fn plan_spec(business_date: Option<Seq<char>>, generation_time: Option<Seq<char>>, now: Seq<char>) -> Result<
    (bool, Seq<char>, Seq<char>),
    PlanError,
> {
    let generated = match generation_time {
        Some(t) => t,
        None => now,
    };
    match istanbul_date_of(generated) {
        None => Err(PlanError::InvalidTimestamp),
        Some(today) => {
            let date = match business_date {
                Some(d) => d,
                None => today,
            };
            if generation_time is None && text_less(date, today) {
                Ok((true, date, Seq::empty()))
            } else if !iso_date_valid(date) {
                Err(PlanError::InvalidBusinessDate)
            } else {
                Ok((false, date, utc_rfc3339_of(generated)->0))
            }
        },
    }
}

pub open spec fn plan_view(p: GenerationPlan) -> (bool, Seq<char>, Seq<char>) {
    match p {
        GenerationPlan::ReopenPublished { business_date } => (true, business_date@, Seq::empty()),
        GenerationPlan::Generate { business_date, generated_at } => (false, business_date@, generated_at@),
    }
}

/// Decides how a generation request is served at the current time `now`:
/// the cutoff is the requested time or now, the date the requested one or
/// the cutoff's Istanbul date; a past date without a cutoff reopens its
/// publication, and otherwise the date must be a calendar date.
pub fn plan_generation(business_date: &Option<String>, generation_time: &Option<String>, now: &str) -> (r: Result<GenerationPlan, PlanError>)
    ensures
        match r {
            Ok(p) => plan_spec(opt_text(*business_date), opt_text(*generation_time), now@) == Ok::<_, PlanError>(plan_view(p)),
            Err(e) => plan_spec(opt_text(*business_date), opt_text(*generation_time), now@) == Err::<(bool, Seq<char>, Seq<char>), _>(e),
        },
{
    let generated: &str = match generation_time {
        Some(t) => t.as_str(),
        None => now,
    };
    let today = match istanbul_date(generated) {
        Some(d) => d,
        None => return Err(PlanError::InvalidTimestamp),
    };
    let date: String = match business_date {
        Some(d) => owned(d.as_str()),
        None => owned(today.as_str()),
    };
    if generation_time.is_none() && less_text(date.as_str(), today.as_str()) {
        return Ok(GenerationPlan::ReopenPublished { business_date: date });
    }
    if !is_iso_date(date.as_str()) {
        return Err(PlanError::InvalidBusinessDate);
    }
    let generated_at = match utc_rfc3339(generated) {
        Some(t) => t,
        None => return Err(PlanError::InvalidTimestamp),
    };
    Ok(GenerationPlan::Generate { business_date: date, generated_at })
}

/// What publishing a run does to the day's publication.
#[derive(Clone, Copy, Debug, PartialEq, Eq, Structural)]
pub enum PublishAction {
    /// The publication is left as it is.
    Keep,
    /// The run becomes the publication only if the day has none.
    InsertIfAbsent,
    /// The run replaces the publication unless that one was generated later.
    ReplaceUnlessNewer,
}

pub open spec fn publish_spec(context: Seq<char>, populated: bool, valid_lineup_run: bool, publication_exists: bool, replay: bool) -> PublishAction {
    if context == "LINEUP_AWARE"@ && !valid_lineup_run {
        PublishAction::Keep
    } else if !populated && publication_exists {
        PublishAction::Keep
    } else if replay {
        PublishAction::InsertIfAbsent
    } else {
        PublishAction::ReplaceUnlessNewer
    }
}

/// Decides the publication of a run: a lineup-aware run must be valid, an
/// empty run never hides an existing publication, a replay only fills an
/// empty day and a live run replaces an older publication.
pub fn publish_action(context: &str, populated: bool, valid_lineup_run: bool, publication_exists: bool, replay: bool) -> (r: PublishAction)
    ensures
        r == publish_spec(context@, populated, valid_lineup_run, publication_exists, replay),
{
    if text_eq(context, "LINEUP_AWARE") && !valid_lineup_run {
        PublishAction::Keep
    } else if !populated && publication_exists {
        PublishAction::Keep
    } else if replay {
        PublishAction::InsertIfAbsent
    } else {
        PublishAction::ReplaceUnlessNewer
    }
}

pub open spec fn selected_run_spec(
    selected: Option<i64>,
    header: Option<(Seq<char>, bool)>,
    valid_lineup_run: bool,
    base_fallback: Option<i64>,
) -> Option<i64> {
    match (selected, header) {
        (Some(id), Some((context, populated))) => if populated && (context == "BASE"@ || valid_lineup_run) {
            Some(id)
        } else {
            match base_fallback {
                Some(b) => Some(b),
                None => if context == "BASE"@ { Some(id) } else { None },
            }
        },
        _ => None,
    }
}

/// The run that a day's publication shows: the published run when it is a
/// populated base run or a valid lineup-aware run, otherwise the best full
/// base run of the day, and a base publication as the last resort.
pub fn selected_run(selected: Option<i64>, header: &Option<(String, bool)>, valid_lineup_run: bool, base_fallback: Option<i64>) -> (r: Option<i64>)
    ensures
        r == selected_run_spec(
            selected,
            match *header {
                Some((c, p)) => Some((c@, p)),
                None => None,
            },
            valid_lineup_run,
            base_fallback,
        ),
{
    match (selected, header) {
        (Some(id), Some((context, populated))) => {
            let base = text_eq(context.as_str(), "BASE");
            if *populated && (base || valid_lineup_run) {
                Some(id)
            } else {
                match base_fallback {
                    Some(b) => Some(b),
                    None => if base { Some(id) } else { None },
                }
            }
        },
        _ => None,
    }
}

/// An empty run never replaces a publication that exists.
pub proof fn law_empty_run_never_hides_publication(context: Seq<char>, valid_lineup_run: bool, replay: bool)
    ensures
        publish_spec(context, false, valid_lineup_run, true, replay) == PublishAction::Keep,
{
}

/// The SHA-256 digest of a text's UTF-8 bytes, in lower-case hexadecimal.
pub uninterp spec fn sha256_hex_of(text: Seq<char>) -> Seq<char>;

/// Hashes a text with `sha2::Sha256` and writes the digest with `{:x}`.
/// Trusted: the result is the hexadecimal SHA-256 digest of the text's
/// bytes, a function of the text alone, sixty-four characters long.
#[verifier::external_body]
pub(crate) fn sha256_hex(text: &str) -> (r: String)
    ensures
        r@ == sha256_hex_of(text@),
        r@.len() == 64,
{
    let mut digest = <sha2::Sha256 as sha2::Digest>::new();
    sha2::Digest::update(&mut digest, text.as_bytes());
    format!("{:x}", sha2::Digest::finalize(digest))
}

/// One lineup revision that a derived run read: the match, the revision and
/// the hash of its payload.
#[derive(Clone, Debug)]
pub struct RevisionReference {
    pub match_id: i64,
    pub revision_id: i64,
    pub payload_hash: Option<String>,
}

pub open spec fn revision_context_spec(refs: Seq<RevisionReference>) -> Seq<char>
    decreases refs.len(),
{
    if refs.len() == 0 {
        Seq::empty()
    } else {
        let r = refs.last();
        revision_context_spec(refs.drop_last()) + decimal_text(r.match_id) + ":"@ + decimal_text(r.revision_id) + ":"@
            + match r.payload_hash {
            Some(h) => h@,
            None => Seq::empty(),
        } + ";"@
    }
}

/// The context of the lineup revisions a derived run read, one
/// `match:revision:payload-hash;` entry each, in the order they were read.
pub fn revision_context(refs: &Vec<RevisionReference>) -> (r: String)
    ensures
        r@ == revision_context_spec(refs@),
{
    let mut out = String::new();
    let n = refs.len();
    let mut i: usize = 0;
    while i < n
        invariant
            n == refs@.len(),
            i <= n,
            out@ == revision_context_spec(refs@.subrange(0, i as int)),
        decreases n - i,
    {
        proof {
            assert(refs@.subrange(0, i as int + 1).drop_last() =~= refs@.subrange(0, i as int));
        }
        let r = &refs[i];
        let match_text = decimal(r.match_id);
        out.append(match_text.as_str());
        out.append(":");
        let revision_text = decimal(r.revision_id);
        out.append(revision_text.as_str());
        out.append(":");
        match &r.payload_hash {
            Some(h) => out.append(h.as_str()),
            None => {},
        }
        out.append(";");
        proof {
            let want = revision_context_spec(refs@.subrange(0, i as int + 1));
            assert(out@ =~= want);
        }
        i = i + 1;
    }
    proof {
        assert(refs@.subrange(0, n as int) =~= refs@);
    }
    out
}

pub open spec fn lineup_fingerprint_text(
    base_run_id: i64,
    business_date: Seq<char>,
    generated_at: Seq<char>,
    policy_version: Seq<char>,
    context_hash: Seq<char>,
) -> Seq<char> {
    "LINEUP_AWARE|"@ + decimal_text(base_run_id) + "|"@ + business_date + "|"@ + generated_at + "|"@ + policy_version
        + "|"@ + context_hash
}

/// The identity of a lineup-aware run: the hash of its base run, date,
/// cutoff, policy and the hash of the revisions it read. Equal inputs give
/// the same run.
pub fn lineup_run_fingerprint(
    base_run_id: i64,
    business_date: &str,
    generated_at: &str,
    policy_version: &str,
    context_hash: &str,
) -> (r: String)
    ensures
        r@ == sha256_hex_of(lineup_fingerprint_text(base_run_id, business_date@, generated_at@, policy_version@, context_hash@)),
{
    let mut text = owned("LINEUP_AWARE|");
    let base = decimal(base_run_id);
    text.append(base.as_str());
    text.append("|");
    text.append(business_date);
    text.append("|");
    text.append(generated_at);
    text.append("|");
    text.append(policy_version);
    text.append("|");
    text.append(context_hash);
    assert(text@ =~= lineup_fingerprint_text(base_run_id, business_date@, generated_at@, policy_version@, context_hash@));
    sha256_hex(text.as_str())
}

/// Named counts with their names as texts.
pub open spec fn count_texts(v: Seq<(String, usize)>) -> Seq<(Seq<char>, usize)> {
    v.map_values(|e: (String, usize)| (e.0@, e.1))
}

/// The count recorded under a name: that of the first entry with the name,
/// zero when no entry has it.
pub open spec fn count_of(v: Seq<(Seq<char>, usize)>, name: Seq<char>) -> nat
    decreases v.len(),
{
    if v.len() == 0 {
        0
    } else if v[0].0 == name {
        v[0].1 as nat
    } else {
        count_of(v.drop_first(), name)
    }
}

/// The sum of all counts.
pub open spec fn count_sum(v: Seq<(Seq<char>, usize)>) -> nat
    decreases v.len(),
{
    if v.len() == 0 {
        0
    } else {
        v[0].1 as nat + count_sum(v.drop_first())
    }
}

/// The counts under two different names never exceed the sum of all counts.
proof fn lemma_two_counts_within_sum(v: Seq<(Seq<char>, usize)>, a: Seq<char>, b: Seq<char>)
    requires
        a != b,
    ensures
        count_of(v, a) + count_of(v, b) <= count_sum(v),
    decreases v.len(),
{
    if v.len() > 0 {
        lemma_two_counts_within_sum(v.drop_first(), a, b);
        lemma_count_within_sum(v.drop_first(), a);
        lemma_count_within_sum(v.drop_first(), b);
    }
}

proof fn lemma_count_within_sum(v: Seq<(Seq<char>, usize)>, a: Seq<char>)
    ensures
        count_of(v, a) <= count_sum(v),
    decreases v.len(),
{
    if v.len() > 0 {
        lemma_count_within_sum(v.drop_first(), a);
    }
}

/// The count recorded under a name.
fn count_for(v: &Vec<(String, usize)>, name: &str) -> (r: usize)
    ensures
        r == count_of(count_texts(v@), name@),
{
    let ghost t = count_texts(v@);
    let n = v.len();
    let mut i: usize = 0;
    proof {
        assert(t.subrange(0, n as int) =~= t);
    }
    while i < n
        invariant
            n == v@.len(),
            t == count_texts(v@),
            i <= n,
            count_of(t, name@) == count_of(t.subrange(i as int, n as int), name@),
        decreases n - i,
    {
        proof {
            assert(t.subrange(i as int, n as int).drop_first() =~= t.subrange(i as int + 1, n as int));
            assert(t.subrange(i as int, n as int)[0] == t[i as int]);
        }
        if text_eq(v[i].0.as_str(), name) {
            return v[i].1;
        }
        i = i + 1;
    }
    0
}

/// The sum of all counts.
fn total_count(v: &Vec<(String, usize)>) -> (r: usize)
    requires
        count_sum(count_texts(v@)) <= usize::MAX,
    ensures
        r == count_sum(count_texts(v@)),
{
    let ghost t = count_texts(v@);
    let n = v.len();
    let mut total: usize = 0;
    let mut i: usize = 0;
    proof {
        assert(t.subrange(0, n as int) =~= t);
    }
    while i < n
        invariant
            n == v@.len(),
            t == count_texts(v@),
            count_sum(t) <= usize::MAX,
            i <= n,
            total + count_sum(t.subrange(i as int, n as int)) == count_sum(t),
        decreases n - i,
    {
        proof {
            assert(t.subrange(i as int, n as int).drop_first() =~= t.subrange(i as int + 1, n as int));
            assert(t.subrange(i as int, n as int)[0] == t[i as int]);
        }
        total = total + v[i].1;
        i = i + 1;
    }
    proof {
        assert(t.subrange(n as int, n as int).len() == 0);
    }
    total
}

/// What the store holds of the latest candidate run: its identity and its
/// counts by category and by exclusion reason, each list holding a name once.
#[derive(Clone, Debug)]
pub struct LatestRun {
    pub id: i64,
    pub business_date: String,
    pub generated_at: String,
    pub matches_considered: usize,
    pub qualified_by_category: Vec<(String, usize)>,
    pub rejected_by_reason: Vec<(String, usize)>,
    pub rejected_by_category: Vec<(String, usize)>,
}

/// The state of the candidate engine: the active model and calibration, the
/// policy, and the figures of the latest run. Maps are lists of (name,
/// count) in the store's order.
#[derive(Clone, Debug)]
pub struct Status {
    pub active_model_version: Option<String>,
    pub calibration_version: Option<String>,
    pub calibration_status: Option<String>,
    pub candidate_policy_version: String,
    pub business_date: Option<String>,
    pub timezone: String,
    pub latest_run_id: Option<i64>,
    pub latest_generation_time: Option<String>,
    pub matches_eligible_today: usize,
    pub matches_considered_in_latest_run: usize,
    pub category_counts: Vec<StatusCategory>,
    pub total_rejected: usize,
    pub active_model: Option<String>,
    pub active_calibration: Option<String>,
    pub policy_version: String,
    pub latest_run: Option<i64>,
    pub eligible_match_count: usize,
    pub qualified_counts: Vec<(String, usize)>,
    pub missing_odds_count: usize,
    pub stale_odds_count: usize,
    pub model_unavailable_count: usize,
    pub low_data_quality_count: usize,
    pub calibration_insufficient_count: usize,
    pub latest_business_date: Option<String>,
    pub latest_generated_at: Option<String>,
    pub matches_considered: usize,
    pub rejected_counts: Vec<(String, usize)>,
    pub rejected_counts_by_category: Vec<(String, usize)>,
}

/// The figures of the latest run that the status reports.
pub open spec fn latest_figures_match(r: Status, l: LatestRun) -> bool {
    let reasons = count_texts(l.rejected_by_reason@);
    &&& opt_text(r.business_date) == Some(l.business_date@)
    &&& opt_text(r.latest_business_date) == Some(l.business_date@)
    &&& r.latest_run_id == Some(l.id)
    &&& r.latest_run == Some(l.id)
    &&& opt_text(r.latest_generation_time) == Some(l.generated_at@)
    &&& opt_text(r.latest_generated_at) == Some(l.generated_at@)
    &&& r.matches_considered_in_latest_run == l.matches_considered
    &&& r.matches_considered == l.matches_considered
    &&& r.category_counts@.len() == CATEGORY_COUNT
    &&& forall|i: int|
        0 <= i < CATEGORY_COUNT ==> {
            &&& (#[trigger] r.category_counts@[i]).category@ == category_name(i)
            &&& r.category_counts@[i].qualified_count == count_of(
                count_texts(l.qualified_by_category@),
                category_name(i),
            )
            &&& r.category_counts@[i].rejected_count == count_of(
                count_texts(l.rejected_by_category@),
                category_name(i),
            )
        }
    &&& r.total_rejected == count_sum(reasons)
    &&& r.qualified_counts@ == l.qualified_by_category@
    &&& r.rejected_counts@ == l.rejected_by_reason@
    &&& r.rejected_counts_by_category@ == l.rejected_by_category@
    &&& r.missing_odds_count == count_of(reasons, "ODDS_UNAVAILABLE"@)
    &&& r.stale_odds_count == count_of(reasons, "STALE_ODDS"@)
    &&& r.model_unavailable_count == count_of(reasons, "MODEL_UNAVAILABLE"@)
    &&& r.low_data_quality_count == count_of(reasons, "LOW_DATA_QUALITY"@)
    &&& r.calibration_insufficient_count == count_of(reasons, "CALIBRATION_INSUFFICIENT"@) + count_of(
        reasons,
        "INSUFFICIENT_BUCKET_SAMPLE"@,
    )
}

/// Without a run, the status reports no run and zero everywhere.
pub open spec fn no_run_figures(r: Status) -> bool {
    &&& r.business_date is None
    &&& r.latest_business_date is None
    &&& r.latest_run_id is None
    &&& r.latest_run is None
    &&& r.latest_generation_time is None
    &&& r.latest_generated_at is None
    &&& r.matches_considered_in_latest_run == 0
    &&& r.matches_considered == 0
    &&& r.category_counts@.len() == 0
    &&& r.total_rejected == 0
    &&& r.qualified_counts@.len() == 0
    &&& r.rejected_counts@.len() == 0
    &&& r.rejected_counts_by_category@.len() == 0
    &&& r.missing_odds_count == 0
    &&& r.stale_odds_count == 0
    &&& r.model_unavailable_count == 0
    &&& r.low_data_quality_count == 0
    &&& r.calibration_insufficient_count == 0
}

/// The per-category figures of a run, in the fixed category order.
fn category_counts(l: &LatestRun) -> (r: Vec<StatusCategory>)
    ensures
        r@.len() == CATEGORY_COUNT,
        forall|i: int|
            0 <= i < CATEGORY_COUNT ==> {
                &&& (#[trigger] r@[i]).category@ == category_name(i)
                &&& r@[i].qualified_count == count_of(count_texts(l.qualified_by_category@), category_name(i))
                &&& r@[i].rejected_count == count_of(count_texts(l.rejected_by_category@), category_name(i))
            },
{
    let mut out: Vec<StatusCategory> = Vec::new();
    let mut i: usize = 0;
    while i < CATEGORY_COUNT
        invariant
            i <= CATEGORY_COUNT,
            out@.len() == i,
            forall|k: int|
                0 <= k < i ==> {
                    &&& (#[trigger] out@[k]).category@ == category_name(k)
                    &&& out@[k].qualified_count == count_of(count_texts(l.qualified_by_category@), category_name(k))
                    &&& out@[k].rejected_count == count_of(count_texts(l.rejected_by_category@), category_name(k))
                },
        decreases CATEGORY_COUNT - i,
    {
        let name = category_at(i);
        let entry = StatusCategory {
            category: owned(name),
            qualified_count: count_for(&l.qualified_by_category, name),
            rejected_count: count_for(&l.rejected_by_category, name),
        };
        out.push(entry);
        i = i + 1;
    }
    out
}

/// The engine status from what the store holds: the active model and
/// calibration versions, the latest run with its counts (`None` when no run
/// exists), and the number of scheduled matches today.
pub fn status(
    active_model: Option<String>,
    active_calibration: Option<String>,
    latest: Option<LatestRun>,
    eligible_match_count: usize,
) -> (r: Status)
    requires
        latest matches Some(l) ==> count_sum(count_texts(l.rejected_by_reason@)) <= usize::MAX,
    ensures
        opt_text(r.active_model_version) == opt_text(active_model),
        opt_text(r.active_model) == opt_text(active_model),
        opt_text(r.calibration_version) == opt_text(active_calibration),
        opt_text(r.active_calibration) == opt_text(active_calibration),
        opt_text(r.calibration_status) == (if active_calibration is Some {
            Some("ACTIVE"@)
        } else {
            None
        }),
        r.candidate_policy_version@ == "candidate_policy_v2_daily_goal_ranking"@,
        r.policy_version@ == "candidate_policy_v2_daily_goal_ranking"@,
        r.timezone@ == "Europe/Istanbul"@,
        r.matches_eligible_today == eligible_match_count,
        r.eligible_match_count == eligible_match_count,
        match latest {
            Some(l) => latest_figures_match(r, l),
            None => no_run_figures(r),
        },
{
    let calibration_status = match &active_calibration {
        Some(_) => Some(owned("ACTIVE")),
        None => None,
    };
    let model_copy = clone_text(&active_model);
    let calibration_copy = clone_text(&active_calibration);
    match latest {
        None => Status {
            active_model_version: model_copy,
            calibration_version: calibration_copy,
            calibration_status,
            candidate_policy_version: owned("candidate_policy_v2_daily_goal_ranking"),
            business_date: None,
            timezone: owned("Europe/Istanbul"),
            latest_run_id: None,
            latest_generation_time: None,
            matches_eligible_today: eligible_match_count,
            matches_considered_in_latest_run: 0,
            category_counts: Vec::new(),
            total_rejected: 0,
            active_model,
            active_calibration,
            policy_version: owned("candidate_policy_v2_daily_goal_ranking"),
            latest_run: None,
            eligible_match_count,
            qualified_counts: Vec::new(),
            missing_odds_count: 0,
            stale_odds_count: 0,
            model_unavailable_count: 0,
            low_data_quality_count: 0,
            calibration_insufficient_count: 0,
            latest_business_date: None,
            latest_generated_at: None,
            matches_considered: 0,
            rejected_counts: Vec::new(),
            rejected_counts_by_category: Vec::new(),
        },
        Some(l) => {
            let categories = category_counts(&l);
            let total_rejected = total_count(&l.rejected_by_reason);
            let calibration_short = count_for(&l.rejected_by_reason, "CALIBRATION_INSUFFICIENT");
            let bucket_short = count_for(&l.rejected_by_reason, "INSUFFICIENT_BUCKET_SAMPLE");
            proof {
                reveal_strlit("CALIBRATION_INSUFFICIENT");
                reveal_strlit("INSUFFICIENT_BUCKET_SAMPLE");
                assert("CALIBRATION_INSUFFICIENT"@[0] != "INSUFFICIENT_BUCKET_SAMPLE"@[0]);
                lemma_two_counts_within_sum(
                    count_texts(l.rejected_by_reason@),
                    "CALIBRATION_INSUFFICIENT"@,
                    "INSUFFICIENT_BUCKET_SAMPLE"@,
                );
            }
            let missing_odds_count = count_for(&l.rejected_by_reason, "ODDS_UNAVAILABLE");
            let stale_odds_count = count_for(&l.rejected_by_reason, "STALE_ODDS");
            let model_unavailable_count = count_for(&l.rejected_by_reason, "MODEL_UNAVAILABLE");
            let low_data_quality_count = count_for(&l.rejected_by_reason, "LOW_DATA_QUALITY");
            Status {
                active_model_version: model_copy,
                calibration_version: calibration_copy,
                calibration_status,
                candidate_policy_version: owned("candidate_policy_v2_daily_goal_ranking"),
                business_date: Some(owned(l.business_date.as_str())),
                timezone: owned("Europe/Istanbul"),
                latest_run_id: Some(l.id),
                latest_generation_time: Some(owned(l.generated_at.as_str())),
                matches_eligible_today: eligible_match_count,
                matches_considered_in_latest_run: l.matches_considered,
                category_counts: categories,
                total_rejected,
                active_model,
                active_calibration,
                policy_version: owned("candidate_policy_v2_daily_goal_ranking"),
                latest_run: Some(l.id),
                eligible_match_count,
                qualified_counts: l.qualified_by_category,
                missing_odds_count,
                stale_odds_count,
                model_unavailable_count,
                low_data_quality_count,
                calibration_insufficient_count: calibration_short + bucket_short,
                latest_business_date: Some(l.business_date),
                latest_generated_at: Some(l.generated_at),
                matches_considered: l.matches_considered,
                rejected_counts: l.rejected_by_reason,
                rejected_counts_by_category: l.rejected_by_category,
            }
        },
    }
}

/// The distinct matches among a run's candidates (match, lineup-aware) whose
/// source is, or is not, the lineup-aware one.
pub open spec fn source_matches(candidates: Seq<(i64, bool)>, lineup_aware: bool) -> Set<i64> {
    Set::new(|m: i64| exists|i: int| 0 <= i < candidates.len() && candidates[i] == (m, lineup_aware))
}

/// The match ids of the candidates with the given source, in order.
fn matches_with_source(candidates: &Vec<(i64, bool)>, lineup_aware: bool) -> (r: Vec<i64>)
    ensures
        forall|m: i64| r@.contains(m) <==> #[trigger] source_matches(candidates@, lineup_aware).contains(m),
{
    let mut out: Vec<i64> = Vec::new();
    let n = candidates.len();
    let mut k: usize = 0;
    while k < n
        invariant
            n == candidates@.len(),
            k <= n,
            forall|m: i64|
                out@.contains(m) <==> exists|i: int| 0 <= i < k && #[trigger] candidates@[i] == (m, lineup_aware),
        decreases n - k,
    {
        let (m, flag) = candidates[k];
        let ghost before = out@;
        if flag == lineup_aware {
            out.push(m);
        }
        proof {
            assert forall|z: i64|
                out@.contains(z) <==> exists|i: int| 0 <= i < k + 1 && #[trigger] candidates@[i] == (z, lineup_aware) by {
                if out@.contains(z) {
                    let w = choose|w: int| 0 <= w < out@.len() && out@[w] == z;
                    if w < before.len() {
                        assert(before[w] == z);
                        assert(before.contains(z));
                    } else {
                        assert(candidates@[k as int] == (z, lineup_aware));
                    }
                }
                if exists|i: int| 0 <= i < k + 1 && #[trigger] candidates@[i] == (z, lineup_aware) {
                    let i = choose|i: int| 0 <= i < k + 1 && #[trigger] candidates@[i] == (z, lineup_aware);
                    if i < k {
                        assert(before.contains(z));
                        let w = choose|w: int| 0 <= w < before.len() && before[w] == z;
                        assert(out@[w] == z);
                    } else {
                        assert(out@[out@.len() - 1] == z);
                    }
                }
            }
        }
        k = k + 1;
    }
    out
}

/// How many matches of a run came from lineup-aware predictions and how many
/// kept their base prediction. A lineup-aware run reports the matches with a
/// lineup revision that day (`lineup_run` holds that count and the matches the
/// run considered); any other run counts its candidates' distinct matches.
pub fn source_match_counts(candidates: &Vec<(i64, bool)>, lineup_run: Option<(usize, usize)>) -> (r: (usize, usize))
    ensures
        r == (match lineup_run {
            Some((lineup_matches, considered)) => (
                lineup_matches,
                if considered >= lineup_matches { (considered - lineup_matches) as usize } else { 0usize },
            ),
            None => (
                source_matches(candidates@, true).len() as usize,
                source_matches(candidates@, false).len() as usize,
            ),
        }),
{
    match lineup_run {
        Some((lineup_matches, considered)) => (
            lineup_matches,
            if considered >= lineup_matches { considered - lineup_matches } else { 0 },
        ),
        None => {
            let aware = matches_with_source(candidates, true);
            let base = matches_with_source(candidates, false);
            let aware_distinct = distinct_values(&aware, None);
            let base_distinct = distinct_values(&base, None);
            proof {
                lemma_distinct_count(aware@, aware_distinct@, source_matches(candidates@, true));
                lemma_distinct_count(base@, base_distinct@, source_matches(candidates@, false));
            }
            (aware_distinct.len(), base_distinct.len())
        },
    }
}

/// What becomes of one prediction in one category: a candidate (`None`) or
/// the reason it is excluded. A prediction without a quoted odd at the cutoff
/// is excluded from every category as having no odds.
pub open spec fn verdict_spec(evidence: Option<CandidateEvidence>, category: int) -> Option<ExclusionReason> {
    match evidence {
        None => Some(ExclusionReason::OddsUnavailable),
        Some(e) => reject_spec(e, category_name(category)),
    }
}

/// Assembles a run: for every prediction (with its evidence, `None` where no
/// odd was quoted) and every reported category, exactly one verdict, a
/// candidate or an exclusion, in the order of the categories.
pub fn run_verdicts(predictions: &Vec<Option<CandidateEvidence>>, only: Option<usize>) -> (r: Vec<Vec<Option<ExclusionReason>>>)
    requires
        only matches Some(c) ==> c < CATEGORY_COUNT,
    ensures
        r@.len() == predictions@.len(),
        forall|i: int|
            0 <= i < predictions@.len() ==> {
                &&& (#[trigger] r@[i])@.len() == reported_categories(only).len()
                &&& forall|k: int|
                    0 <= k < reported_categories(only).len() ==> #[trigger] r@[i]@[k] == verdict_spec(
                        predictions@[i],
                        reported_categories(only)[k] as int,
                    )
            },
{
    let mut out: Vec<Vec<Option<ExclusionReason>>> = Vec::new();
    let n = predictions.len();
    let mut i: usize = 0;
    while i < n
        invariant
            n == predictions@.len(),
            only matches Some(c) ==> c < CATEGORY_COUNT,
            i <= n,
            out@.len() == i,
            forall|j: int|
                0 <= j < i ==> {
                    &&& (#[trigger] out@[j])@.len() == reported_categories(only).len()
                    &&& forall|k: int|
                        0 <= k < reported_categories(only).len() ==> #[trigger] out@[j]@[k] == verdict_spec(
                            predictions@[j],
                            reported_categories(only)[k] as int,
                        )
                },
        decreases n - i,
    {
        let count: usize = match only {
            Some(_) => 1,
            None => CATEGORY_COUNT,
        };
        let mut row: Vec<Option<ExclusionReason>> = Vec::new();
        let mut k: usize = 0;
        while k < count
            invariant
                n == predictions@.len(),
                i < n,
                only matches Some(c) ==> c < CATEGORY_COUNT,
                count == reported_categories(only).len(),
                k <= count,
                row@.len() == k,
                forall|q: int|
                    0 <= q < k ==> #[trigger] row@[q] == verdict_spec(
                        predictions@[i as int],
                        reported_categories(only)[q] as int,
                    ),
            decreases count - k,
        {
            let c: usize = match only {
                Some(c) => c,
                None => k,
            };
            assert(c == reported_categories(only)[k as int]);
            let name = category_at(c);
            let verdict = match &predictions[i] {
                None => Some(ExclusionReason::OddsUnavailable),
                Some(e) => reject(e, name),
            };
            row.push(verdict);
            k = k + 1;
        }
        out.push(row);
        i = i + 1;
    }
    out
}

/// Why a candidate run cannot be read.
#[derive(Clone, Copy, Debug, PartialEq, Eq, Structural)]
pub enum ReadError {
    /// No run was asked for and the day has no publication.
    NoCandidateRun,
    /// The run belongs to another business date.
    SourceRunDateMismatch,
}

impl ReadError {
    pub fn as_str(&self) -> (r: &'static str)
        ensures
            r@ == (match *self {
                ReadError::NoCandidateRun => "no candidate run"@,
                ReadError::SourceRunDateMismatch => "SOURCE_RUN_DATE_MISMATCH"@,
            }),
    {
        match self {
            ReadError::NoCandidateRun => "no candidate run",
            ReadError::SourceRunDateMismatch => "SOURCE_RUN_DATE_MISMATCH",
        }
    }
}

/// The run a read request reads: the requested run, else the day's published
/// run; without either there is nothing to read.
pub fn run_to_read(requested: Option<i64>, published: Option<i64>) -> (r: Result<i64, ReadError>)
    ensures
        r == (match (requested, published) {
            (Some(id), _) => Ok(id),
            (None, Some(id)) => Ok(id),
            (None, None) => Err(ReadError::NoCandidateRun),
        }),
{
    match requested {
        Some(id) => Ok(id),
        None => match published {
            Some(id) => Ok(id),
            None => Err(ReadError::NoCandidateRun),
        },
    }
}

/// A run is read only for its own business date.
pub fn check_run_date(business_date: &str, run_date: &str) -> (r: Result<(), ReadError>)
    ensures
        r is Ok <==> business_date@ == run_date@,
        r is Err ==> r == Err::<(), ReadError>(ReadError::SourceRunDateMismatch),
{
    if text_eq(business_date, run_date) {
        Ok(())
    } else {
        Err(ReadError::SourceRunDateMismatch)
    }
}

proof fn lemma_category_names_differ()
    ensures
        "SURPRISE"@ != "CORNERS"@,
        "SURPRISE"@ != "OVER_25"@,
        "SURPRISE"@ != "OVER_35"@,
        "SURPRISE"@ != "BTTS_YES"@,
        "SURPRISE"@ != "HIGH_CONFIDENCE"@,
        "SURPRISE"@ != "COMPOUND"@,
        "CORNERS"@ != "OVER_25"@,
        "CORNERS"@ != "OVER_35"@,
        "CORNERS"@ != "BTTS_YES"@,
        "CORNERS"@ != "HIGH_CONFIDENCE"@,
        "CORNERS"@ != "COMPOUND"@,
        "OVER_25"@ != "OVER_35"@,
        "OVER_25"@ != "BTTS_YES"@,
        "OVER_25"@ != "HIGH_CONFIDENCE"@,
        "OVER_25"@ != "COMPOUND"@,
        "OVER_35"@ != "BTTS_YES"@,
        "OVER_35"@ != "HIGH_CONFIDENCE"@,
        "OVER_35"@ != "COMPOUND"@,
        "BTTS_YES"@ != "HIGH_CONFIDENCE"@,
        "BTTS_YES"@ != "COMPOUND"@,
        "HIGH_CONFIDENCE"@ != "COMPOUND"@,
{
    reveal_strlit("SURPRISE");
    reveal_strlit("CORNERS");
    reveal_strlit("OVER_25");
    reveal_strlit("OVER_35");
    reveal_strlit("BTTS_YES");
    reveal_strlit("HIGH_CONFIDENCE");
    reveal_strlit("COMPOUND");
    assert("SURPRISE"@[0] != "CORNERS"@[0]);
    assert("SURPRISE"@[0] != "OVER_25"@[0]);
    assert("SURPRISE"@[0] != "OVER_35"@[0]);
    assert("SURPRISE"@[0] != "BTTS_YES"@[0]);
    assert("SURPRISE"@[0] != "HIGH_CONFIDENCE"@[0]);
    assert("SURPRISE"@[0] != "COMPOUND"@[0]);
    assert("CORNERS"@[0] != "OVER_25"@[0]);
    assert("CORNERS"@[0] != "OVER_35"@[0]);
    assert("CORNERS"@[0] != "BTTS_YES"@[0]);
    assert("CORNERS"@[0] != "HIGH_CONFIDENCE"@[0]);
    assert("CORNERS"@[2] != "COMPOUND"@[2]);
    assert("OVER_25"@[5] != "OVER_35"@[5]);
    assert("OVER_25"@[0] != "BTTS_YES"@[0]);
    assert("OVER_25"@[0] != "HIGH_CONFIDENCE"@[0]);
    assert("OVER_25"@[0] != "COMPOUND"@[0]);
    assert("OVER_35"@[0] != "BTTS_YES"@[0]);
    assert("OVER_35"@[0] != "HIGH_CONFIDENCE"@[0]);
    assert("OVER_35"@[0] != "COMPOUND"@[0]);
    assert("BTTS_YES"@[0] != "HIGH_CONFIDENCE"@[0]);
    assert("BTTS_YES"@[0] != "COMPOUND"@[0]);
    assert("HIGH_CONFIDENCE"@[0] != "COMPOUND"@[0]);
}

/// A prediction qualifies for a pool only when it passes every check the pool
/// makes: a valid odd, an available model, a scheduled match and a fresh
/// quote everywhere, and in each pool its own market and thresholds (the
/// corner lines and probability; 2.5 and 3.5 goal totals, the latter with
/// enough probability and a positive edge; BTTS YES; a high-confidence
/// probability and bucket sample; the surprise probability and edge; the
/// compound probability, odds range and bucket sample). Every other category
/// name qualifies nothing.
pub proof fn law_qualified_predictions_meet_their_category(e: CandidateEvidence, category: Seq<char>)
    requires
        reject_spec(e, category) is None,
    ensures
        e.checks.odd_valid,
        e.availability@ == "AVAILABLE"@,
        e.match_status@ == "scheduled"@,
        odds_age(e) <= MAX_ODDS_AGE_SECONDS,
        category == "CORNERS"@ || category == "OVER_25"@ || category == "OVER_35"@ || category == "BTTS_YES"@ || category
            == "HIGH_CONFIDENCE"@ || category == "SURPRISE"@ || category == "COMPOUND"@,
        category == "CORNERS"@ ==> e.market@ == "FULL_TIME_TOTAL_CORNERS"@ && e.selection@ == "OVER"@ && corner_line(e.line)
            && !e.checks.corners_low_probability && good_data(e),
        category == "OVER_25"@ ==> e.market@ == "TOTAL_GOALS"@ && e.selection@ == "OVER"@ && e.line == LineKey::Number(
            LINE_2_5,
        ) && e.checks.probability_valid && good_data(e) && e.goal_identity_valid && e.kickoff_known && 0 <= odds_age(e),
        category == "OVER_35"@ ==> e.market@ == "TOTAL_GOALS"@ && e.selection@ == "OVER"@ && e.line == LineKey::Number(
            LINE_3_5,
        ) && !e.checks.over_35_low_probability && !e.checks.over_35_no_edge,
        category == "BTTS_YES"@ ==> e.market@ == "BTTS"@ && e.selection@ == "YES"@ && e.checks.probability_valid
            && good_data(e) && e.goal_identity_valid && e.kickoff_known && 0 <= odds_age(e),
        category == "HIGH_CONFIDENCE"@ ==> !e.checks.high_confidence_low_probability && sample(e) >= MIN_BUCKET_SAMPLE
            && good_data(e),
        category == "SURPRISE"@ ==> !e.checks.surprise_low_probability && !e.checks.surprise_low_edge,
        category == "COMPOUND"@ ==> !e.checks.compound_low_probability && !e.checks.compound_odd_outside_range
            && sample(e) >= MIN_BUCKET_SAMPLE && good_data(e),
{
    lemma_category_names_differ();
}

/// The surprise pool demands a large enough edge: a prediction whose edge is
/// below the surprise minimum is never in it, and a prediction that would be
/// in it but for its edge is excluded for its edge.
pub proof fn law_low_surprise_edge_excludes(e: CandidateEvidence)
    ensures
        e.checks.surprise_low_edge ==> reject_spec(e, "SURPRISE"@) is Some,
        ({
            let fair = CandidateEvidence { checks: ThresholdChecks { surprise_low_edge: false, ..e.checks }, ..e };
            e.checks.surprise_low_edge && reject_spec(fair, "SURPRISE"@) is None ==> reject_spec(e, "SURPRISE"@) == Some(
                ExclusionReason::LowEdge,
            )
        }),
{
    lemma_category_names_differ();
    if e.checks.surprise_low_edge && reject_spec(e, "SURPRISE"@) is None {
        law_qualified_predictions_meet_their_category(e, "SURPRISE"@);
    }
}

} // verus!
