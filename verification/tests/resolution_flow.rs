use arz_predictor::current_flow::{match_outcome, plan_match, usable_coupons, MatchPlan};
use arz_predictor::iddaa::{odds_changed, resolution_status_after, usable_competition_name};
use arz_predictor::incremental_resolution::{
    attempt_outcome, pass_size, record_attempt, retry_delay_minutes, tally_pass, team_decision, AliasMethod, AttemptStatus, Batch,
    ReviewReason, TeamDecision, TeamEvidence,
};

#[test]
fn resolution_needs_two_distinct_canonical_teams() {
    assert_eq!(attempt_outcome(false, 1, 2, true, true), (AttemptStatus::Unsupported, None));
    assert_eq!(attempt_outcome(true, 1, 2, true, true), (AttemptStatus::Resolved, None));
    assert_eq!(
        attempt_outcome(true, 3, 3, true, true),
        (AttemptStatus::ManualReview, Some(ReviewReason::SelfMatchRejected))
    );
    assert_eq!(
        attempt_outcome(true, 1, 2, true, false),
        (AttemptStatus::ManualReview, Some(ReviewReason::NoUniqueHighConfidenceIdentity))
    );
    assert_eq!(ReviewReason::SelfMatchRejected.as_str(), "SELF_MATCH_REJECTED");
    assert_eq!(AttemptStatus::RetryLater.as_str(), "RETRY_LATER");
}

#[test]
fn interrupted_work_waits_before_it_is_retried() {
    assert_eq!(retry_delay_minutes(AttemptStatus::RetryLater), Some(5));
    assert_eq!(retry_delay_minutes(AttemptStatus::ManualReview), Some(1440));
    assert_eq!(retry_delay_minutes(AttemptStatus::Resolved), None);
    let mut b = Batch::default();
    record_attempt(&mut b, AttemptStatus::Resolved);
    record_attempt(&mut b, AttemptStatus::ManualReview);
    record_attempt(&mut b, AttemptStatus::RetryLater);
    assert_eq!((b.processed, b.resolved, b.manual_review), (3, 1, 1));
    assert_eq!(pass_size(20), 20);
    assert_eq!(pass_size(500), 128);
}

#[test]
fn bulletin_names_statuses_and_odds_changes() {
    assert_eq!(usable_competition_name(Some("  Süper Lig ")), Some("Süper Lig"));
    assert_eq!(usable_competition_name(Some("   ")), None);
    assert_eq!(usable_competition_name(None), None);
    assert_eq!(resolution_status_after("unresolved", true), "resolved");
    assert_eq!(resolution_status_after("manual_review", false), "manual_review");
    let two = 2.0f64.to_bits();
    assert!(odds_changed(None, two, None));
    assert!(!odds_changed(Some((two, None)), two, None));
    assert!(odds_changed(Some((two, None)), 2.1f64.to_bits(), None));
    assert!(odds_changed(Some((two, None)), two, Some(1.5f64.to_bits())));
}

#[test]
fn current_flow_reuses_ready_predictions_and_reports_failures() {
    assert_eq!(plan_match(false, true, true, false), MatchPlan::ReportCoverage);
    assert_eq!(plan_match(true, true, true, false), MatchPlan::Reuse);
    assert_eq!(plan_match(true, true, true, true), MatchPlan::Infer);
    assert_eq!(plan_match(true, false, true, false), MatchPlan::Infer);
    assert_eq!(plan_match(true, true, false, false), MatchPlan::Infer);
    let o = match_outcome(4, MatchPlan::ReportCoverage, "UNSUPPORTED_COMPETITION", &Ok(()));
    assert_eq!((o.match_id, o.state.as_str(), o.reason), (4, "UNSUPPORTED_COMPETITION", None));
    let o = match_outcome(4, MatchPlan::Reuse, "", &Ok(()));
    assert_eq!(o.state, "MODEL_READY_REUSED");
    let o = match_outcome(4, MatchPlan::Infer, "", &Ok(()));
    assert_eq!(o.state, "MODEL_READY");
    let o = match_outcome(4, MatchPlan::Infer, "", &Err("no features".to_string()));
    assert_eq!(o.state, "MODEL_INPUT_MISSING");
    assert_eq!(o.reason.as_deref(), Some("no features"));
}

#[test]
fn coupons_without_selections_are_not_usable() {
    assert_eq!(usable_coupons(&vec![0]), 0);
    assert_eq!(usable_coupons(&vec![3, 0, 1]), 2);
    assert_eq!(usable_coupons(&vec![]), 0);
}

fn nothing_known() -> TeamEvidence {
    TeamEvidence {
        supported: true,
        event_slot: None,
        scoped_alias: None,
        provider_mapping: None,
        literal_identity: None,
        safe_choice: None,
        isolated_identity: None,
    }
}

#[test]
fn team_identities_follow_the_strongest_evidence() {
    let mut e = nothing_known();
    assert_eq!(team_decision(&e), TeamDecision::Create);
    e.isolated_identity = Some(40);
    assert_eq!(team_decision(&e), TeamDecision::Known { id: 40, learn: None });
    e.safe_choice = Some((30, false));
    assert_eq!(team_decision(&e), TeamDecision::Known { id: 30, learn: Some(AliasMethod::CompetitionSafeFuzzy) });
    e.safe_choice = Some((30, true));
    assert_eq!(team_decision(&e), TeamDecision::Known { id: 30, learn: Some(AliasMethod::ExactOrCuratedAlias) });
    e.literal_identity = Some(20);
    assert_eq!(team_decision(&e), TeamDecision::Known { id: 20, learn: None });
    e.provider_mapping = Some(15);
    assert_eq!(team_decision(&e), TeamDecision::Known { id: 15, learn: Some(AliasMethod::ProviderMapping) });
    e.scoped_alias = Some(12);
    assert_eq!(team_decision(&e), TeamDecision::Known { id: 12, learn: None });
    e.event_slot = Some((10, false));
    assert_eq!(team_decision(&e), TeamDecision::Known { id: 12, learn: None });
    e.event_slot = Some((10, true));
    assert_eq!(team_decision(&e), TeamDecision::Known { id: 10, learn: Some(AliasMethod::ProviderEventSlot) });
    e.supported = false;
    assert_eq!(team_decision(&e), TeamDecision::Global);
    assert_eq!(AliasMethod::ProviderEventSlot.as_str(), "PROVIDER_EVENT_SLOT");
    assert_eq!(AliasMethod::CompetitionSafeFuzzy.as_str(), "COMPETITION_SAFE_FUZZY");
}

#[test]
fn a_pass_takes_at_most_its_size_and_counts_outcomes() {

    let outcomes = vec![
        AttemptStatus::Resolved,
        AttemptStatus::ManualReview,
        AttemptStatus::RetryLater,
        AttemptStatus::Resolved,
    ];
    let b = tally_pass(&outcomes, 3, 7);
    assert_eq!((b.processed, b.resolved, b.manual_review, b.remaining), (3, 1, 1, 7));
    let b = tally_pass(&outcomes, 500, 0);
    assert_eq!((b.processed, b.resolved, b.manual_review), (4, 2, 1));
    let many = vec![AttemptStatus::Resolved; 300];
    assert_eq!(tally_pass(&many, 1000, 0).processed, 128);
    assert_eq!(tally_pass(&many, 0, 0).processed, 0);
}
