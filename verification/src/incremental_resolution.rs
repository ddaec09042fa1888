//! Resolution of the current bulletin's team identities, one queued match at
//! a time, with the outcome of each attempt and the retry it schedules.
use vstd::prelude::*;

verus! {

/// The outcome of one pass over the resolution queue.
#[derive(Clone, Copy, Debug, Default)]
pub struct Batch {
    pub processed: usize,
    pub resolved: usize,
    pub manual_review: usize,
    pub remaining: i64,
    pub elapsed_ms: u128,
}

/// The state a queued match is left in after an attempt.
#[derive(Clone, Copy, Debug, PartialEq, Eq, Structural)]
pub enum AttemptStatus {
    Unsupported,
    Resolved,
    ManualReview,
    RetryLater,
}

pub open spec fn attempt_status_name(s: AttemptStatus) -> Seq<char> {
    match s {
        AttemptStatus::Unsupported => "UNSUPPORTED"@,
        AttemptStatus::Resolved => "RESOLVED"@,
        AttemptStatus::ManualReview => "MANUAL_REVIEW"@,
        AttemptStatus::RetryLater => "RETRY_LATER"@,
    }
}

impl AttemptStatus {
    pub fn as_str(&self) -> (r: &'static str)
        ensures
            r@ == attempt_status_name(*self),
    {
        match self {
            AttemptStatus::Unsupported => "UNSUPPORTED",
            AttemptStatus::Resolved => "RESOLVED",
            AttemptStatus::ManualReview => "MANUAL_REVIEW",
            AttemptStatus::RetryLater => "RETRY_LATER",
        }
    }
}

/// Why a match was left for manual review.
#[derive(Clone, Copy, Debug, PartialEq, Eq, Structural)]
pub enum ReviewReason {
    SelfMatchRejected,
    NoUniqueHighConfidenceIdentity,
}

impl ReviewReason {
    pub fn as_str(&self) -> (r: &'static str)
        ensures
            r@ == (match *self {
                ReviewReason::SelfMatchRejected => "SELF_MATCH_REJECTED"@,
                ReviewReason::NoUniqueHighConfidenceIdentity => "NO_UNIQUE_HIGH_CONFIDENCE_IDENTITY"@,
            }),
    {
        match self {
            ReviewReason::SelfMatchRejected => "SELF_MATCH_REJECTED",
            ReviewReason::NoUniqueHighConfidenceIdentity => "NO_UNIQUE_HIGH_CONFIDENCE_IDENTITY",
        }
    }
}

/// A match resolves when its competition is supported and the two teams it
/// resolved to are distinct canonical teams; otherwise it waits for review.
pub open spec fn attempt_spec(supported: bool, home: i64, away: i64, home_canonical: bool, away_canonical: bool) -> (
    AttemptStatus,
    Option<ReviewReason>,
) {
    if !supported {
        (AttemptStatus::Unsupported, None)
    } else if home != away && home_canonical && away_canonical {
        (AttemptStatus::Resolved, None)
    } else if home == away {
        (AttemptStatus::ManualReview, Some(ReviewReason::SelfMatchRejected))
    } else {
        (AttemptStatus::ManualReview, Some(ReviewReason::NoUniqueHighConfidenceIdentity))
    }
}

pub fn attempt_outcome(supported: bool, home: i64, away: i64, home_canonical: bool, away_canonical: bool) -> (r: (
    AttemptStatus,
    Option<ReviewReason>,
))
    ensures
        r == attempt_spec(supported, home, away, home_canonical, away_canonical),
{
    if !supported {
        (AttemptStatus::Unsupported, None)
    } else if home != away && home_canonical && away_canonical {
        (AttemptStatus::Resolved, None)
    } else if home == away {
        (AttemptStatus::ManualReview, Some(ReviewReason::SelfMatchRejected))
    } else {
        (AttemptStatus::ManualReview, Some(ReviewReason::NoUniqueHighConfidenceIdentity))
    }
}

/// A match is never resolved onto a single team for both sides.
pub proof fn law_no_self_match(supported: bool, team: i64, home_canonical: bool, away_canonical: bool)
    ensures
        attempt_spec(supported, team, team, home_canonical, away_canonical).0 != AttemptStatus::Resolved,
{
}

/// The delay in minutes before a match is tried again: five minutes after a
/// failed attempt, a day after a review verdict, never otherwise.
pub fn retry_delay_minutes(status: AttemptStatus) -> (r: Option<u32>)
    ensures
        r == (match status {
            AttemptStatus::RetryLater => Some(5u32),
            AttemptStatus::ManualReview => Some(1440u32),
            _ => None,
        }),
{
    match status {
        AttemptStatus::RetryLater => Some(5),
        AttemptStatus::ManualReview => Some(1440),
        _ => None,
    }
}

/// Counts an attempt in the batch.
pub fn record_attempt(batch: &mut Batch, status: AttemptStatus)
    requires
        old(batch).processed < usize::MAX,
        old(batch).resolved < usize::MAX,
        old(batch).manual_review < usize::MAX,
    ensures
        final(batch).processed == old(batch).processed + 1,
        final(batch).resolved == old(batch).resolved + if status == AttemptStatus::Resolved { 1int } else { 0int },
        final(batch).manual_review == old(batch).manual_review + if status == AttemptStatus::ManualReview {
            1int
        } else {
            0int
        },
        final(batch).remaining == old(batch).remaining,
        final(batch).elapsed_ms == old(batch).elapsed_ms,
{
    batch.processed = batch.processed + 1;
    if status == AttemptStatus::Resolved {
        batch.resolved = batch.resolved + 1;
    }
    if status == AttemptStatus::ManualReview {
        batch.manual_review = batch.manual_review + 1;
    }
}

/// The number of queued matches one pass takes on.
pub fn pass_size(limit: usize) -> (r: usize)
    ensures
        r == (if limit < 128 { limit } else { 128 }),
{
    if limit < 128 {
        limit
    } else {
        128
    }
}

/// How a team identity was learned for a competition.
#[derive(Clone, Copy, Debug, PartialEq, Eq, Structural)]
pub enum AliasMethod {
    ProviderEventSlot,
    ProviderMapping,
    ExactOrCuratedAlias,
    CompetitionSafeFuzzy,
}

impl AliasMethod {
    pub fn as_str(&self) -> (r: &'static str)
        ensures
            r@ == (match *self {
                AliasMethod::ProviderEventSlot => "PROVIDER_EVENT_SLOT"@,
                AliasMethod::ProviderMapping => "PROVIDER_MAPPING"@,
                AliasMethod::ExactOrCuratedAlias => "EXACT_OR_CURATED_ALIAS"@,
                AliasMethod::CompetitionSafeFuzzy => "COMPETITION_SAFE_FUZZY"@,
            }),
    {
        match self {
            AliasMethod::ProviderEventSlot => "PROVIDER_EVENT_SLOT",
            AliasMethod::ProviderMapping => "PROVIDER_MAPPING",
            AliasMethod::ExactOrCuratedAlias => "EXACT_OR_CURATED_ALIAS",
            AliasMethod::CompetitionSafeFuzzy => "COMPETITION_SAFE_FUZZY",
        }
    }
}

/// What the store knows of a bulletin team name in a competition.
#[derive(Clone, Copy, Debug)]
pub struct TeamEvidence {
    /// The competition has a historical counterpart.
    pub supported: bool,
    /// The team already in this slot of the same event, and whether it is a
    /// canonical (historically mapped) team.
    pub event_slot: Option<(i64, bool)>,
    /// The alias learned for the name in this competition.
    pub scoped_alias: Option<i64>,
    /// A canonical team of the competition that the provider maps the name to.
    pub provider_mapping: Option<i64>,
    /// A canonical team of the competition with literally this name and country.
    pub literal_identity: Option<i64>,
    /// The best candidate when it is unambiguous enough to use, and whether its
    /// confidence is exact.
    pub safe_choice: Option<(i64, bool)>,
    /// The team created earlier for this unknown name in this competition.
    pub isolated_identity: Option<i64>,
}

/// What becomes of a bulletin team name.
#[derive(Clone, Copy, Debug, PartialEq, Eq, Structural)]
pub enum TeamDecision {
    /// The competition is not supported: the global resolver decides.
    Global,
    /// A known team, with the alias to learn for the name, if any.
    Known { id: i64, learn: Option<AliasMethod> },
    /// A new team isolated to this competition.
    Create,
}

/// Event identities first, then learned aliases, provider mappings, literal
/// identities and safe fuzzy choices; unknown names get a team of their own.
pub open spec fn team_decision_spec(e: TeamEvidence) -> TeamDecision {
    if !e.supported {
        TeamDecision::Global
    } else {
        match (e.event_slot, e.scoped_alias, e.provider_mapping, e.literal_identity) {
            (Some((id, true)), _, _, _) => TeamDecision::Known { id, learn: Some(AliasMethod::ProviderEventSlot) },
            (_, Some(id), _, _) => TeamDecision::Known { id, learn: None },
            (_, None, Some(id), _) => TeamDecision::Known { id, learn: Some(AliasMethod::ProviderMapping) },
            (_, None, None, Some(id)) => TeamDecision::Known { id, learn: None },
            _ => match (e.safe_choice, e.isolated_identity) {
                (Some((id, exact)), _) => TeamDecision::Known {
                    id,
                    learn: Some(
                        if exact {
                            AliasMethod::ExactOrCuratedAlias
                        } else {
                            AliasMethod::CompetitionSafeFuzzy
                        },
                    ),
                },
                (None, Some(id)) => TeamDecision::Known { id, learn: None },
                (None, None) => TeamDecision::Create,
            },
        }
    }
}

/// Decides the team identity of a bulletin name from what the store knows.
pub fn team_decision(e: &TeamEvidence) -> (r: TeamDecision)
    ensures
        r == team_decision_spec(*e),
{
    if !e.supported {
        return TeamDecision::Global;
    }
    if let Some((id, true)) = e.event_slot {
        return TeamDecision::Known { id, learn: Some(AliasMethod::ProviderEventSlot) };
    }
    if let Some(id) = e.scoped_alias {
        return TeamDecision::Known { id, learn: None };
    }
    if let Some(id) = e.provider_mapping {
        return TeamDecision::Known { id, learn: Some(AliasMethod::ProviderMapping) };
    }
    if let Some(id) = e.literal_identity {
        return TeamDecision::Known { id, learn: None };
    }
    if let Some((id, exact)) = e.safe_choice {
        return TeamDecision::Known {
            id,
            learn: Some(if exact { AliasMethod::ExactOrCuratedAlias } else { AliasMethod::CompetitionSafeFuzzy }),
        };
    }
    if let Some(id) = e.isolated_identity {
        return TeamDecision::Known { id, learn: None };
    }
    TeamDecision::Create
}

/// A known event's canonical slot survives a change of the provider's
/// spelling: whatever the name-based evidence says, the event's team stays.
pub proof fn law_event_slot_survives_renaming(a: TeamEvidence, b: TeamEvidence, id: i64)
    requires
        a.supported,
        b.supported,
        a.event_slot == Some((id, true)),
        b.event_slot == Some((id, true)),
    ensures
        team_decision_spec(a) == team_decision_spec(b),
        team_decision_spec(a) == (TeamDecision::Known { id, learn: Some(AliasMethod::ProviderEventSlot) }),
{
}

/// A new team is created only when nothing identifies the name, and an alias
/// is learned only from an event slot, a provider mapping or a safe choice:
/// a literal identity shared by name alone teaches nothing.
pub proof fn law_creation_and_learning_need_evidence(e: TeamEvidence)
    ensures
        team_decision_spec(e) == TeamDecision::Create ==> {
            &&& e.supported
            &&& !(e.event_slot matches Some((_, true)))
            &&& e.scoped_alias is None
            &&& e.provider_mapping is None
            &&& e.literal_identity is None
            &&& e.safe_choice is None
            &&& e.isolated_identity is None
        },
        (team_decision_spec(e) matches TeamDecision::Known { learn: Some(_), .. }) ==> (e.event_slot matches Some(
            (_, true),
        ) || e.provider_mapping is Some || e.safe_choice is Some),
{
}

/// How many attempts had a given outcome.
pub open spec fn count_status(outcomes: Seq<AttemptStatus>, status: AttemptStatus) -> nat
    decreases outcomes.len(),
{
    if outcomes.len() == 0 {
        0
    } else {
        count_status(outcomes.drop_last(), status) + if outcomes.last() == status { 1nat } else { 0nat }
    }
}

proof fn lemma_counts_within(outcomes: Seq<AttemptStatus>)
    ensures
        count_status(outcomes, AttemptStatus::Resolved) + count_status(outcomes, AttemptStatus::ManualReview)
            <= outcomes.len(),
    decreases outcomes.len(),
{
    if outcomes.len() > 0 {
        lemma_counts_within(outcomes.drop_last());
    }
}

/// One pass over the queue: the outcomes of the queued matches in order, of
/// which the pass takes on at most `pass_size(limit)`; the batch counts what
/// it processed, resolved and sent to review.
pub fn tally_pass(outcomes: &Vec<AttemptStatus>, limit: usize, remaining: i64) -> (r: Batch)
    ensures
        ({
            let taken = outcomes@.take(
                if outcomes@.len() < (if limit < 128 { limit as int } else { 128int }) {
                    outcomes@.len() as int
                } else if limit < 128 {
                    limit as int
                } else {
                    128int
                },
            );
            &&& r.processed == taken.len()
            &&& r.resolved == count_status(taken, AttemptStatus::Resolved)
            &&& r.manual_review == count_status(taken, AttemptStatus::ManualReview)
        }),
        r.resolved + r.manual_review <= r.processed,
        r.processed <= limit,
        r.processed <= 128,
        r.remaining == remaining,
        r.elapsed_ms == 0,
{
    let size = pass_size(limit);
    let n = if outcomes.len() < size { outcomes.len() } else { size };
    let mut batch = Batch { processed: 0, resolved: 0, manual_review: 0, remaining, elapsed_ms: 0 };
    let mut i: usize = 0;
    while i < n
        invariant
            n <= outcomes@.len(),
            n <= size,
            size <= 128,
            i <= n,
            batch.processed == i,
            batch.resolved == count_status(outcomes@.take(i as int), AttemptStatus::Resolved),
            batch.manual_review == count_status(outcomes@.take(i as int), AttemptStatus::ManualReview),
            batch.resolved + batch.manual_review <= i,
            batch.remaining == remaining,
            batch.elapsed_ms == 0,
        decreases n - i,
    {
        proof {
            assert(outcomes@.take(i as int + 1).drop_last() =~= outcomes@.take(i as int));
            lemma_counts_within(outcomes@.take(i as int + 1));
        }
        record_attempt(&mut batch, outcomes[i]);
        i = i + 1;
    }
    batch
}

} // verus!
