//! The BTTS audit: why each fixture of the day did or did not reach the BTTS
//! pool, and which pool is selected.
use vstd::prelude::*;

use crate::candidate_engine::{less_text, text_less, ExclusionReason};
use crate::clock::{elapsed_whole_seconds, parse_rfc3339, rfc3339_instant, whole_seconds_between, Instant};

verus! {

/// Why a fixture did not reach the BTTS pool.
#[derive(Clone, Copy, Debug, PartialEq, Eq, Structural)]
pub enum BttsExclusion {
    Unresolved,
    Other,
    InsufficientHistory,
    NoBttsPrediction,
    PoorModelQuality,
    NoBttsOdds,
    InvalidOdds,
    StaleOdds,
    Duplicate,
}

pub open spec fn btts_exclusion_name(e: BttsExclusion) -> Seq<char> {
    match e {
        BttsExclusion::Unresolved => "UNRESOLVED"@,
        BttsExclusion::Other => "OTHER"@,
        BttsExclusion::InsufficientHistory => "INSUFFICIENT_HISTORY"@,
        BttsExclusion::NoBttsPrediction => "NO_BTTS_PREDICTION"@,
        BttsExclusion::PoorModelQuality => "POOR_MODEL_QUALITY"@,
        BttsExclusion::NoBttsOdds => "NO_BTTS_ODDS"@,
        BttsExclusion::InvalidOdds => "INVALID_ODDS"@,
        BttsExclusion::StaleOdds => "STALE_ODDS"@,
        BttsExclusion::Duplicate => "DUPLICATE"@,
    }
}

impl BttsExclusion {
    pub fn as_str(&self) -> (r: &'static str)
        ensures
            r@ == btts_exclusion_name(*self),
    {
        match self {
            BttsExclusion::Unresolved => "UNRESOLVED",
            BttsExclusion::Other => "OTHER",
            BttsExclusion::InsufficientHistory => "INSUFFICIENT_HISTORY",
            BttsExclusion::NoBttsPrediction => "NO_BTTS_PREDICTION",
            BttsExclusion::PoorModelQuality => "POOR_MODEL_QUALITY",
            BttsExclusion::NoBttsOdds => "NO_BTTS_ODDS",
            BttsExclusion::InvalidOdds => "INVALID_ODDS",
            BttsExclusion::StaleOdds => "STALE_ODDS",
            BttsExclusion::Duplicate => "DUPLICATE",
        }
    }
}

/// The latest correctly mapped BTTS YES quote of a fixture.
#[derive(Clone, Debug)]
pub struct BttsQuote {
    /// The odd is finite and above one.
    pub odd_valid: bool,
    pub captured_at: String,
}

/// What the audit knows of one fixture.
#[derive(Clone, Debug)]
pub struct BttsFixture {
    pub resolved: bool,
    pub kickoff_known: bool,
    pub history_home: u64,
    pub history_away: u64,
    pub has_yes_probability: bool,
    pub has_no_probability: bool,
    /// Both probabilities are finite, within zero and one, sum to one and
    /// come from the same prediction run.
    pub pair_valid: bool,
    pub yes_quote: Option<BttsQuote>,
    /// The YES probability is calibrated.
    pub yes_calibrated: bool,
    /// A raw bookmaker alias of BTTS YES was quoted, mapped or not.
    pub raw_yes_alias: bool,
    pub in_candidate_pool: bool,
    /// Why the candidate run excluded the fixture's BTTS YES selection.
    pub candidate_rejection: Option<ExclusionReason>,
}

/// A fixture is ready for prediction with a known kickoff, resolved
/// identities and five matches of history for both teams.
pub open spec fn prediction_ready(f: BttsFixture) -> bool {
    f.kickoff_known && f.resolved && f.history_home >= 5 && f.history_away >= 5
}

/// The audit reason behind a candidate run's exclusion.
pub open spec fn rejection_reason(r: Option<ExclusionReason>) -> BttsExclusion {
    match r {
        Some(ExclusionReason::InsufficientHistory) | Some(ExclusionReason::LowDataQuality) => BttsExclusion::InsufficientHistory,
        Some(ExclusionReason::ResolutionFailed) => BttsExclusion::Unresolved,
        Some(ExclusionReason::NegativeModelQuality) | Some(ExclusionReason::InvalidProbability) | Some(
            ExclusionReason::ModelUnavailable,
        ) => BttsExclusion::PoorModelQuality,
        Some(ExclusionReason::CorrelationReduction) => BttsExclusion::Duplicate,
        _ => BttsExclusion::Other,
    }
}

/// The first reason, in the audit's order, that keeps a fixture out of the
/// BTTS pool; the age of the quote counts in whole seconds before the cutoff.
pub open spec fn btts_exclusion_spec(f: BttsFixture, cutoff: Instant) -> Result<Option<BttsExclusion>, ()> {
    if !prediction_ready(f) {
        Ok(
            Some(
                if !f.resolved {
                    BttsExclusion::Unresolved
                } else if !f.kickoff_known {
                    BttsExclusion::Other
                } else {
                    BttsExclusion::InsufficientHistory
                },
            ),
        )
    } else if !f.has_yes_probability || !f.has_no_probability {
        Ok(Some(BttsExclusion::NoBttsPrediction))
    } else if !f.pair_valid {
        Ok(Some(BttsExclusion::PoorModelQuality))
    } else {
        match f.yes_quote {
            None => Ok(Some(BttsExclusion::NoBttsOdds)),
            Some(q) => if !q.odd_valid {
                Ok(Some(BttsExclusion::InvalidOdds))
            } else {
                match rfc3339_instant(q.captured_at@) {
                    None => Err(()),
                    Some(captured) => if whole_seconds_between(cutoff, captured) > 24 * 3600 {
                        Ok(Some(BttsExclusion::StaleOdds))
                    } else if !f.in_candidate_pool {
                        Ok(Some(rejection_reason(f.candidate_rejection)))
                    } else {
                        Ok(None)
                    },
                }
            },
        }
    }
}

fn map_rejection(r: Option<ExclusionReason>) -> (e: BttsExclusion)
    ensures
        e == rejection_reason(r),
{
    match r {
        Some(ExclusionReason::InsufficientHistory) | Some(ExclusionReason::LowDataQuality) => BttsExclusion::InsufficientHistory,
        Some(ExclusionReason::ResolutionFailed) => BttsExclusion::Unresolved,
        Some(ExclusionReason::NegativeModelQuality) | Some(ExclusionReason::InvalidProbability) | Some(
            ExclusionReason::ModelUnavailable,
        ) => BttsExclusion::PoorModelQuality,
        Some(ExclusionReason::CorrelationReduction) => BttsExclusion::Duplicate,
        _ => BttsExclusion::Other,
    }
}

/// Explains a fixture's place in the BTTS audit at the cutoff; an unreadable
/// quote time is an error.
pub fn btts_exclusion(f: &BttsFixture, cutoff: Instant) -> (r: Result<Option<BttsExclusion>, ()>)
    requires
        cutoff.wf(),
        cutoff.in_calendar_range(),
    ensures
        r == btts_exclusion_spec(*f, cutoff),
{
    if !(f.kickoff_known && f.resolved && f.history_home >= 5 && f.history_away >= 5) {
        return Ok(
            Some(
                if !f.resolved {
                    BttsExclusion::Unresolved
                } else if !f.kickoff_known {
                    BttsExclusion::Other
                } else {
                    BttsExclusion::InsufficientHistory
                },
            ),
        );
    }
    if !f.has_yes_probability || !f.has_no_probability {
        return Ok(Some(BttsExclusion::NoBttsPrediction));
    }
    if !f.pair_valid {
        return Ok(Some(BttsExclusion::PoorModelQuality));
    }
    match &f.yes_quote {
        None => Ok(Some(BttsExclusion::NoBttsOdds)),
        Some(q) => {
            if !q.odd_valid {
                return Ok(Some(BttsExclusion::InvalidOdds));
            }
            match parse_rfc3339(q.captured_at.as_str()) {
                None => Err(()),
                Some(captured) => {
                    if elapsed_whole_seconds(cutoff, captured) > 24 * 3600 {
                        Ok(Some(BttsExclusion::StaleOdds))
                    } else if !f.in_candidate_pool {
                        Ok(Some(map_rejection(f.candidate_rejection)))
                    } else {
                        Ok(None)
                    }
                },
            }
        },
    }
}

pub open spec fn detail_spec(reason: BttsExclusion, mapping_failed: bool) -> Seq<char> {
    if reason == BttsExclusion::Other {
        "Match started, cancelled, unknown kickoff, or unavailable at this cutoff"@
    } else if mapping_failed {
        "Raw YES alias exists but normalized mapping is missing"@
    } else {
        btts_exclusion_name(reason)
    }
}

/// The explanation shown with an excluded fixture.
pub fn exclusion_detail(reason: BttsExclusion, mapping_failed: bool) -> (r: &'static str)
    ensures
        r@ == detail_spec(reason, mapping_failed),
{
    if reason == BttsExclusion::Other {
        "Match started, cancelled, unknown kickoff, or unavailable at this cutoff"
    } else if mapping_failed {
        "Raw YES alias exists but normalized mapping is missing"
    } else {
        reason.as_str()
    }
}

/// The number of pool selections the BTTS coupon takes: the best seven, and
/// none when fewer than five qualify.
pub fn selected_count(pool: usize) -> (r: usize)
    ensures
        r == (if pool < 5 { 0 } else if pool < 7 { pool } else { 7 }),
{
    if pool < 5 {
        0
    } else if pool < 7 {
        pool
    } else {
        7
    }
}

/// Where the audit's information cutoff comes from.
#[derive(Clone, Copy, Debug, PartialEq, Eq, Structural)]
pub enum CutoffSource {
    /// The cutoff the request gives.
    Given,
    /// A past day is audited as its publication was generated.
    Published,
    /// The current time.
    Now,
}

/// Chooses the audit's cutoff: a given cutoff must be a timestamp, a past
/// day uses its publication's generation time, and today uses the current
/// time.
pub fn cutoff_source(as_of: Option<&str>, day: &str, today: &str) -> (r: Result<CutoffSource, ()>)
    ensures
        r == (match as_of {
            Some(t) => if rfc3339_instant(t@) is Some { Ok(CutoffSource::Given) } else { Err(()) },
            None => if text_less(day@, today@) { Ok(CutoffSource::Published) } else { Ok(CutoffSource::Now) },
        }),
{
    match as_of {
        Some(t) => match parse_rfc3339(t) {
            Some(_) => Ok(CutoffSource::Given),
            None => Err(()),
        },
        None => if less_text(day, today) {
            Ok(CutoffSource::Published)
        } else {
            Ok(CutoffSource::Now)
        },
    }
}

/// The stage tallies of a BTTS audit. Every fixture counts in `fixtures`,
/// in `current_matches_with_yes_odds` when a mapped YES quote exists, and in
/// `mapping_failed_matches` when only a raw alias exists; the other stages
/// count the fixtures ready for a prediction. `excluded` counts the ready
/// fixtures with a primary reason; the survivors form the ranking pool, of
/// which the selection is taken.
#[derive(Clone, Copy, Debug, PartialEq, Eq, Structural)]
pub struct AuditTally {
    pub fixtures: usize,
    pub current_matches_with_yes_odds: usize,
    pub mapping_failed_matches: usize,
    pub prediction_ready: usize,
    pub btts_probability: usize,
    pub calibrated_btts_probability: usize,
    pub public_btts_fallback: usize,
    pub pair_sum_failures: usize,
    pub btts_odds: usize,
    pub valid_yes_mapping: usize,
    pub invalid_input_survivors: usize,
    pub excluded: usize,
    pub ranking_pool: usize,
    pub selected: usize,
}

pub open spec fn bump(n: usize, b: bool) -> usize {
    (n + if b { 1int } else { 0int }) as usize
}

pub open spec fn empty_tally() -> AuditTally {
    AuditTally {
        fixtures: 0,
        current_matches_with_yes_odds: 0,
        mapping_failed_matches: 0,
        prediction_ready: 0,
        btts_probability: 0,
        calibrated_btts_probability: 0,
        public_btts_fallback: 0,
        pair_sum_failures: 0,
        btts_odds: 0,
        valid_yes_mapping: 0,
        invalid_input_survivors: 0,
        excluded: 0,
        ranking_pool: 0,
        selected: 0,
    }
}

/// The tallies after one more fixture with its primary reason.
pub open spec fn tally_step(t: AuditTally, f: BttsFixture, reason: Option<BttsExclusion>) -> AuditTally {
    let ready = prediction_ready(f);
    let yes = f.has_yes_probability;
    let survives = ready && reason is None;
    let pool = bump(t.ranking_pool, survives);
    AuditTally {
        fixtures: bump(t.fixtures, true),
        current_matches_with_yes_odds: bump(t.current_matches_with_yes_odds, f.yes_quote is Some),
        mapping_failed_matches: bump(t.mapping_failed_matches, f.raw_yes_alias && f.yes_quote is None),
        prediction_ready: bump(t.prediction_ready, ready),
        btts_probability: bump(t.btts_probability, ready && yes),
        calibrated_btts_probability: bump(t.calibrated_btts_probability, ready && yes && f.yes_calibrated),
        public_btts_fallback: bump(t.public_btts_fallback, ready && yes && !f.yes_calibrated),
        pair_sum_failures: bump(t.pair_sum_failures, ready && !f.pair_valid),
        btts_odds: bump(t.btts_odds, ready && yes && (f.raw_yes_alias || f.yes_quote is Some)),
        valid_yes_mapping: bump(t.valid_yes_mapping, ready && yes && f.yes_quote is Some),
        invalid_input_survivors: bump(t.invalid_input_survivors, survives),
        excluded: bump(t.excluded, ready && reason is Some),
        ranking_pool: pool,
        selected: (if pool < 5 { 0 } else if pool < 7 { pool as int } else { 7 }) as usize,
    }
}

/// The tallies over the fixtures, or the error of the first fixture whose
/// quote time cannot be read.
pub open spec fn tally_spec(fs: Seq<BttsFixture>, cutoff: Instant) -> Result<AuditTally, ()>
    decreases fs.len(),
{
    if fs.len() == 0 {
        Ok(empty_tally())
    } else {
        match tally_spec(fs.drop_last(), cutoff) {
            Err(()) => Err(()),
            Ok(t) => match btts_exclusion_spec(fs.last(), cutoff) {
                Err(()) => Err(()),
                Ok(reason) => Ok(tally_step(t, fs.last(), reason)),
            },
        }
    }
}

/// Every count of a tally stays within the fixtures seen, and the ready
/// fixtures split into the excluded and the pool.
pub open spec fn tally_bounded(t: AuditTally) -> bool {
    &&& t.current_matches_with_yes_odds <= t.fixtures
    &&& t.mapping_failed_matches <= t.fixtures
    &&& t.prediction_ready <= t.fixtures
    &&& t.btts_probability <= t.prediction_ready
    &&& t.calibrated_btts_probability + t.public_btts_fallback == t.btts_probability
    &&& t.pair_sum_failures <= t.prediction_ready
    &&& t.btts_odds <= t.btts_probability
    &&& t.valid_yes_mapping <= t.btts_odds
    &&& t.invalid_input_survivors == t.ranking_pool
    &&& t.excluded + t.ranking_pool == t.prediction_ready
}

proof fn lemma_tally_bounds(fs: Seq<BttsFixture>, cutoff: Instant)
    requires
        fs.len() <= usize::MAX,
    ensures
        tally_spec(fs, cutoff) matches Ok(t) ==> t.fixtures == fs.len() && tally_bounded(t),
    decreases fs.len(),
{
    if fs.len() > 0 {
        lemma_tally_bounds(fs.drop_last(), cutoff);
    }
}

/// Every fixture ready for a prediction is accounted for once: it is either
/// excluded with one primary reason or it stands in the ranking pool; and no
/// stage counts more fixtures than the stage before it.
pub proof fn law_ready_fixtures_are_excluded_or_pooled(fs: Seq<BttsFixture>, cutoff: Instant)
    requires
        fs.len() <= usize::MAX,
    ensures
        tally_spec(fs, cutoff) matches Ok(t) ==> t.fixtures == fs.len() && tally_bounded(t),
{
    lemma_tally_bounds(fs, cutoff);
}

fn add_if(n: usize, b: bool, Ghost(bound): Ghost<int>) -> (r: usize)
    requires
        n < bound <= usize::MAX,
    ensures
        r == bump(n, b),
{
    if b {
        n + 1
    } else {
        n
    }
}

/// Tallies the audit of the day's fixtures at the cutoff.
pub fn audit_tally(fs: &Vec<BttsFixture>, cutoff: Instant) -> (r: Result<AuditTally, ()>)
    requires
        cutoff.wf(),
        cutoff.in_calendar_range(),
    ensures
        r == tally_spec(fs@, cutoff),
        r matches Ok(t) ==> tally_bounded(t),
{
    let n = fs.len();
    let mut t = AuditTally {
        fixtures: 0,
        current_matches_with_yes_odds: 0,
        mapping_failed_matches: 0,
        prediction_ready: 0,
        btts_probability: 0,
        calibrated_btts_probability: 0,
        public_btts_fallback: 0,
        pair_sum_failures: 0,
        btts_odds: 0,
        valid_yes_mapping: 0,
        invalid_input_survivors: 0,
        excluded: 0,
        ranking_pool: 0,
        selected: 0,
    };
    let mut i: usize = 0;
    while i < n
        invariant
            n == fs@.len(),
            cutoff.wf(),
            cutoff.in_calendar_range(),
            i <= n,
            tally_spec(fs@.subrange(0, i as int), cutoff) == Ok::<AuditTally, ()>(t),
            t.fixtures == i,
            tally_bounded(t),
        decreases n - i,
    {
        proof {
            assert(fs@.subrange(0, i as int + 1).drop_last() =~= fs@.subrange(0, i as int));
            assert(fs@.subrange(0, i as int + 1).last() == fs@[i as int]);
        }
        let f = &fs[i];
        let reason = match btts_exclusion(f, cutoff) {
            Ok(x) => x,
            Err(()) => {
                proof {
                    lemma_error_sticks(fs@, cutoff, i as int + 1);
                }
                return Err(());
            },
        };
        let ghost bound: int = i as int + 1;
        let ready = f.kickoff_known && f.resolved && f.history_home >= 5 && f.history_away >= 5;
        let yes = f.has_yes_probability;
        let quoted = f.yes_quote.is_some();
        let survives = ready && reason.is_none();
        let pool = add_if(t.ranking_pool, survives, Ghost(bound));
        t = AuditTally {
            fixtures: t.fixtures + 1,
            current_matches_with_yes_odds: add_if(t.current_matches_with_yes_odds, quoted, Ghost(bound)),
            mapping_failed_matches: add_if(t.mapping_failed_matches, f.raw_yes_alias && !quoted, Ghost(bound)),
            prediction_ready: add_if(t.prediction_ready, ready, Ghost(bound)),
            btts_probability: add_if(t.btts_probability, ready && yes, Ghost(bound)),
            calibrated_btts_probability: add_if(t.calibrated_btts_probability, ready && yes && f.yes_calibrated, Ghost(bound)),
            public_btts_fallback: add_if(t.public_btts_fallback, ready && yes && !f.yes_calibrated, Ghost(bound)),
            pair_sum_failures: add_if(t.pair_sum_failures, ready && !f.pair_valid, Ghost(bound)),
            btts_odds: add_if(t.btts_odds, ready && yes && (f.raw_yes_alias || quoted), Ghost(bound)),
            valid_yes_mapping: add_if(t.valid_yes_mapping, ready && yes && quoted, Ghost(bound)),
            invalid_input_survivors: add_if(t.invalid_input_survivors, survives, Ghost(bound)),
            excluded: add_if(t.excluded, ready && reason.is_some(), Ghost(bound)),
            ranking_pool: pool,
            selected: selected_count(pool),
        };
        i = i + 1;
    }
    proof {
        assert(fs@.subrange(0, n as int) =~= fs@);
    }
    Ok(t)
}

proof fn lemma_error_sticks(fs: Seq<BttsFixture>, cutoff: Instant, k: int)
    requires
        0 <= k <= fs.len(),
        tally_spec(fs.subrange(0, k), cutoff) is Err,
    ensures
        tally_spec(fs, cutoff) is Err,
    decreases fs.len() - k,
{
    if k < fs.len() {
        assert(fs.subrange(0, k + 1).drop_last() =~= fs.subrange(0, k));
        lemma_error_sticks(fs, cutoff, k + 1);
    } else {
        assert(fs.subrange(0, k) =~= fs);
    }
}

/// A fixture reaches the BTTS pool only when it is ready for a prediction,
/// holds both probabilities as a valid pair, has a valid YES quote taken no
/// more than a day before the cutoff, and stands in the candidate run's pool.
/// A fixture that is not ready is never counted against the pool's own
/// checks: its reason is about identities, kickoff or history.
pub proof fn law_pooled_fixtures_pass_every_check(f: BttsFixture, cutoff: Instant)
    ensures
        btts_exclusion_spec(f, cutoff) == Ok::<Option<BttsExclusion>, ()>(None) ==> {
            &&& f.resolved && f.kickoff_known && f.history_home >= 5 && f.history_away >= 5
            &&& f.has_yes_probability && f.has_no_probability && f.pair_valid
            &&& f.yes_quote matches Some(q) && q.odd_valid && (rfc3339_instant(q.captured_at@) matches Some(captured)
                && whole_seconds_between(cutoff, captured) <= 24 * 3600)
            &&& f.in_candidate_pool
        },
        !(f.resolved && f.kickoff_known && f.history_home >= 5 && f.history_away >= 5) ==> (btts_exclusion_spec(
            f,
            cutoff,
        ) matches Ok(Some(r)) && (r == BttsExclusion::Unresolved || r == BttsExclusion::Other || r
            == BttsExclusion::InsufficientHistory)),
        f.yes_quote matches Some(q) && (rfc3339_instant(q.captured_at@) matches Some(captured) && whole_seconds_between(
            cutoff,
            captured,
        ) > 24 * 3600) ==> btts_exclusion_spec(f, cutoff) != Ok::<Option<BttsExclusion>, ()>(None),
{
}

} // verus!
